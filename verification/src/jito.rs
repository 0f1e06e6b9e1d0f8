use vstd::prelude::*;

use crate::rng::rand_index;

verus! {

/// The base58 address of tip account `i` of the jito block engine's
/// fixed set of eight.
pub open spec fn tip_account_spec(i: int) -> Seq<char> {
    if i == 0 {
        "Cw8CFyM9FkoMi7K7Crf6HNQqf4uEMzpKw6QNghXLvLkY"@
    } else if i == 1 {
        "ADuUkR4vqLUMWXxW9gh6D6L8pMSawimctcNZ5pGwDcEt"@
    } else if i == 2 {
        "96gYZGLnJYVFmbjzopPSU6QiEV5fGqZNyN9nmNhvrZU5"@
    } else if i == 3 {
        "HFqU5x63VTqvQss8hp11i4wVV8bD44PvwucfZ2bU7gRe"@
    } else if i == 4 {
        "ADaUMid9yfUytqMBgopwjb2DTLSokTSzL1zt6iGPaS49"@
    } else if i == 5 {
        "DfXygSm4jCyNCybVYYK6DwvWqjKee8pbDmJGcLWNDXjh"@
    } else if i == 6 {
        "DttWaMuVvTiduZRnguLF7jNxTgiMBZ1hyAumKUiL2KRL"@
    } else {
        "3AVi9Tg9Uo68tJfuvoKvqKNWKkC5wPdSSdeBnizKZ6jT"@
    }
}

/// Tip account number `idx`, printed in base58.
pub fn tip_account_at(idx: usize) -> (r: &'static str)
    requires
        idx < 8,
    ensures
        r@ == tip_account_spec(idx as int),
{
    match idx {
        0 => "Cw8CFyM9FkoMi7K7Crf6HNQqf4uEMzpKw6QNghXLvLkY",
        1 => "ADuUkR4vqLUMWXxW9gh6D6L8pMSawimctcNZ5pGwDcEt",
        2 => "96gYZGLnJYVFmbjzopPSU6QiEV5fGqZNyN9nmNhvrZU5",
        3 => "HFqU5x63VTqvQss8hp11i4wVV8bD44PvwucfZ2bU7gRe",
        4 => "ADaUMid9yfUytqMBgopwjb2DTLSokTSzL1zt6iGPaS49",
        5 => "DfXygSm4jCyNCybVYYK6DwvWqjKee8pbDmJGcLWNDXjh",
        6 => "DttWaMuVvTiduZRnguLF7jNxTgiMBZ1hyAumKUiL2KRL",
        _ => "3AVi9Tg9Uo68tJfuvoKvqKNWKkC5wPdSSdeBnizKZ6jT",
    }
}

/// Picks one of the eight tip accounts uniformly at random; each bundle
/// tips a random account so no single one is favored.
pub fn get_tip_account() -> (r: &'static str)
    ensures
        exists|i: int| 0 <= i < 8 && r@ == tip_account_spec(i),
{
    let idx = rand_index(8);
    let r = tip_account_at(idx);
    proof {
        assert(r@ == tip_account_spec(idx as int));
    }
    r
}

} // verus!
