use vstd::prelude::*;

verus! {

/// The error type surfaced by every fallible operation of this crate:
/// a plain human-readable message.
#[derive(Debug)]
pub struct AppError {
    pub err_msg: String,
}

impl AppError {
    pub fn new(msg: &str) -> (r: Self)
        ensures
            r.err_msg@ == msg@,
    {
        AppError { err_msg: msg.to_string() }
    }
}

} // verus!
