use vstd::prelude::*;

use crate::error::AppError;

verus! {

/// The base64 alphabet, indexed by sextet value.
pub open spec fn b64_table() -> Seq<char> {
    "ABCDEFGHIJKLMNOPQRSTUVWXYZabcdefghijklmnopqrstuvwxyz0123456789+/"@
}

/// A full 3-byte group encodes to four alphabet chars.
pub open spec fn b64_group3(b0: u8, b1: u8, b2: u8) -> Seq<char> {
    seq![
        b64_table()[(b0 as int) / 4],
        b64_table()[((b0 as int) % 4) * 16 + (b1 as int) / 16],
        b64_table()[((b1 as int) % 16) * 4 + (b2 as int) / 64],
        b64_table()[(b2 as int) % 64],
    ]
}

/// A trailing 2-byte group encodes to three chars and one pad.
pub open spec fn b64_group2(b0: u8, b1: u8) -> Seq<char> {
    seq![
        b64_table()[(b0 as int) / 4],
        b64_table()[((b0 as int) % 4) * 16 + (b1 as int) / 16],
        b64_table()[((b1 as int) % 16) * 4],
        '=',
    ]
}

/// A trailing 1-byte group encodes to two chars and two pads.
pub open spec fn b64_group1(b0: u8) -> Seq<char> {
    seq![b64_table()[(b0 as int) / 4], b64_table()[((b0 as int) % 4) * 16], '=', '=']
}

/// Standard base64 with padding, 3 bytes at a time from the front.
pub open spec fn spec_b64_encode(bytes: Seq<u8>) -> Seq<char>
    decreases bytes.len(),
{
    if bytes.len() == 0 {
        Seq::empty()
    } else if bytes.len() == 1 {
        b64_group1(bytes[0])
    } else if bytes.len() == 2 {
        b64_group2(bytes[0], bytes[1])
    } else {
        b64_group3(bytes[0], bytes[1], bytes[2]) + spec_b64_encode(bytes.skip(3))
    }
}

/// Appends the alphabet char of sextet `v`.
fn push_b64(out: &mut String, v: usize)
    requires
        v < 64,
    ensures
        final(out)@ == old(out)@ + seq![b64_table()[v as int]],
{
    let table: &str = "ABCDEFGHIJKLMNOPQRSTUVWXYZabcdefghijklmnopqrstuvwxyz0123456789+/";
    proof {
        reveal_strlit("ABCDEFGHIJKLMNOPQRSTUVWXYZabcdefghijklmnopqrstuvwxyz0123456789+/");
    }
    let c = table.substring_char(v, v + 1);
    out.append(c);
    proof {
        assert(c@ =~= seq![b64_table()[v as int]]);
    }
}

/// Appends one `=` pad char.
fn push_pad(out: &mut String)
    ensures
        final(out)@ == old(out)@ + seq!['='],
{
    out.append("=");
    proof {
        reveal_strlit("=");
        assert("="@ =~= seq!['=']);
    }
}

/// Encodes bytes as padded base64 text.
pub fn b64_encode(bytes: &Vec<u8>) -> (r: String)
    ensures
        r@ == spec_b64_encode(bytes@),
{
    let mut out = String::new();
    let n = bytes.len();
    let mut i: usize = 0;
    proof {
        assert(bytes@.skip(0) =~= bytes@);
        assert(out@ + spec_b64_encode(bytes@) =~= spec_b64_encode(bytes@));
    }
    while n - i >= 3
        invariant
            i <= n,
            n == bytes@.len(),
            spec_b64_encode(bytes@) == out@ + spec_b64_encode(bytes@.skip(i as int)),
        decreases n - i,
    {
        let b0 = bytes[i];
        let b1 = bytes[i + 1];
        let b2 = bytes[i + 2];
        let ghost pre = out@;
        push_b64(&mut out, (b0 as usize) / 4);
        push_b64(&mut out, ((b0 as usize) % 4) * 16 + (b1 as usize) / 16);
        push_b64(&mut out, ((b1 as usize) % 16) * 4 + (b2 as usize) / 64);
        push_b64(&mut out, (b2 as usize) % 64);
        proof {
            let rest = bytes@.skip(i as int);
            assert(rest[0] == b0 && rest[1] == b1 && rest[2] == b2);
            assert(rest.skip(3) =~= bytes@.skip(i + 3));
            assert(out@ =~= pre + b64_group3(b0, b1, b2));
        }
        i += 3;
    }
    let ghost pre = out@;
    if n - i == 1 {
        let b0 = bytes[i];
        push_b64(&mut out, (b0 as usize) / 4);
        push_b64(&mut out, ((b0 as usize) % 4) * 16);
        push_pad(&mut out);
        push_pad(&mut out);
        proof {
            let rest = bytes@.skip(i as int);
            assert(rest.len() == 1 && rest[0] == b0);
            assert(out@ =~= pre + b64_group1(b0));
        }
    } else if n - i == 2 {
        let b0 = bytes[i];
        let b1 = bytes[i + 1];
        push_b64(&mut out, (b0 as usize) / 4);
        push_b64(&mut out, ((b0 as usize) % 4) * 16 + (b1 as usize) / 16);
        push_b64(&mut out, ((b1 as usize) % 16) * 4);
        push_pad(&mut out);
        proof {
            let rest = bytes@.skip(i as int);
            assert(rest.len() == 2 && rest[0] == b0 && rest[1] == b1);
            assert(out@ =~= pre + b64_group2(b0, b1));
        }
    } else {
        proof {
            assert(bytes@.skip(i as int).len() == 0);
        }
    }
    out
}

/// The sextet value of a base64 alphabet char, `-1` for any other char.
pub open spec fn b64_val(c: char) -> int {
    if 'A' <= c && c <= 'Z' {
        c as int - 'A' as int
    } else if 'a' <= c && c <= 'z' {
        c as int - 'a' as int + 26
    } else if '0' <= c && c <= '9' {
        c as int - '0' as int + 52
    } else if c == '+' {
        62
    } else if c == '/' {
        63
    } else {
        -1
    }
}

/// A full quad in the middle of the text: all four chars must carry
/// sextets, yielding three bytes.
pub open spec fn b64_quad_full(c0: char, c1: char, c2: char, c3: char) -> Option<Seq<u8>> {
    let v0 = b64_val(c0);
    let v1 = b64_val(c1);
    let v2 = b64_val(c2);
    let v3 = b64_val(c3);
    if v0 < 0 || v1 < 0 || v2 < 0 || v3 < 0 {
        None
    } else {
        Some(
            seq![
                (v0 * 4 + v1 / 16) as u8,
                ((v1 % 16) * 16 + v2 / 4) as u8,
                ((v2 % 4) * 64 + v3) as u8,
            ],
        )
    }
}

/// The last quad: one or two trailing pads drop the trailing bytes.
pub open spec fn b64_quad_last(c0: char, c1: char, c2: char, c3: char) -> Option<Seq<u8>> {
    let v0 = b64_val(c0);
    let v1 = b64_val(c1);
    if v0 < 0 || v1 < 0 {
        None
    } else if c2 == '=' {
        if c3 == '=' {
            Some(seq![(v0 * 4 + v1 / 16) as u8])
        } else {
            None
        }
    } else {
        let v2 = b64_val(c2);
        if v2 < 0 {
            None
        } else if c3 == '=' {
            Some(seq![(v0 * 4 + v1 / 16) as u8, ((v1 % 16) * 16 + v2 / 4) as u8])
        } else {
            let v3 = b64_val(c3);
            if v3 < 0 {
                None
            } else {
                Some(
                    seq![
                        (v0 * 4 + v1 / 16) as u8,
                        ((v1 % 16) * 16 + v2 / 4) as u8,
                        ((v2 % 4) * 64 + v3) as u8,
                    ],
                )
            }
        }
    }
}

/// Decodes padded base64: quads from the front, pads only in the last
/// quad, lengths that are no multiple of four are refused.
pub open spec fn spec_b64_decode(s: Seq<char>) -> Option<Seq<u8>>
    decreases s.len(),
{
    if s.len() == 0 {
        Some(Seq::empty())
    } else if s.len() < 4 {
        None
    } else if s.len() == 4 {
        b64_quad_last(s[0], s[1], s[2], s[3])
    } else {
        match b64_quad_full(s[0], s[1], s[2], s[3]) {
            None => None,
            Some(bs) => match spec_b64_decode(s.skip(4)) {
                None => None,
                Some(rest) => Some(bs + rest),
            },
        }
    }
}

/// The sextet value of one char, `-1` for a char outside the alphabet.
fn b64_char_val(c: char) -> (v: i32)
    ensures
        v as int == b64_val(c),
{
    if 'A' <= c && c <= 'Z' {
        (c as u32 - 'A' as u32) as i32
    } else if 'a' <= c && c <= 'z' {
        (c as u32 - 'a' as u32) as i32 + 26
    } else if '0' <= c && c <= '9' {
        (c as u32 - '0' as u32) as i32 + 52
    } else if c == '+' {
        62
    } else if c == '/' {
        63
    } else {
        -1
    }
}

/// Decodes padded base64 text; fails exactly on text the format refuses.
pub fn b64_decode(s: &str) -> (r: Result<Vec<u8>, AppError>)
    ensures
        match r {
            Ok(b) => spec_b64_decode(s@) == Some(b@),
            Err(e) => spec_b64_decode(s@) is None && e.err_msg@ == "invalid base64"@,
        },
{
    let n = s.unicode_len();
    let mut out: Vec<u8> = Vec::new();
    let mut i: usize = 0;
    proof {
        assert(s@.skip(0) =~= s@);
        if spec_b64_decode(s@) is Some {
            assert(out@ + spec_b64_decode(s@)->0 =~= spec_b64_decode(s@)->0);
        }
    }
    while n - i > 4
        invariant
            i <= n,
            n == s@.len(),
            match spec_b64_decode(s@.skip(i as int)) {
                Some(rest) => spec_b64_decode(s@) == Some(out@ + rest),
                None => spec_b64_decode(s@) is None,
            },
        decreases n - i,
    {
        let c0 = s.get_char(i);
        let c1 = s.get_char(i + 1);
        let c2 = s.get_char(i + 2);
        let c3 = s.get_char(i + 3);
        let v0 = b64_char_val(c0);
        let v1 = b64_char_val(c1);
        let v2 = b64_char_val(c2);
        let v3 = b64_char_val(c3);
        proof {
            let rest = s@.skip(i as int);
            assert(rest[0] == c0 && rest[1] == c1 && rest[2] == c2 && rest[3] == c3);
            assert(rest.skip(4) =~= s@.skip(i + 4));
        }
        if v0 < 0 || v1 < 0 || v2 < 0 || v3 < 0 {
            return Err(AppError::new("invalid base64"));
        }
        let ghost pre = out@;
        out.push(((v0 * 4 + v1 / 16) as u32) as u8);
        out.push((((v1 % 16) * 16 + v2 / 4) as u32) as u8);
        out.push((((v2 % 4) * 64 + v3) as u32) as u8);
        proof {
            assert(out@ =~= pre + b64_quad_full(c0, c1, c2, c3)->0);
        }
        i += 4;
    }
    if n - i == 4 {
        let c0 = s.get_char(i);
        let c1 = s.get_char(i + 1);
        let c2 = s.get_char(i + 2);
        let c3 = s.get_char(i + 3);
        let v0 = b64_char_val(c0);
        let v1 = b64_char_val(c1);
        proof {
            let rest = s@.skip(i as int);
            assert(rest.len() == 4);
            assert(rest[0] == c0 && rest[1] == c1 && rest[2] == c2 && rest[3] == c3);
        }
        if v0 < 0 || v1 < 0 {
            return Err(AppError::new("invalid base64"));
        }
        let ghost pre = out@;
        if c2 == '=' {
            if c3 != '=' {
                return Err(AppError::new("invalid base64"));
            }
            out.push(((v0 * 4 + v1 / 16) as u32) as u8);
            proof {
                assert(out@ =~= pre + b64_quad_last(c0, c1, c2, c3)->0);
            }
        } else {
            let v2 = b64_char_val(c2);
            if v2 < 0 {
                return Err(AppError::new("invalid base64"));
            }
            if c3 == '=' {
                out.push(((v0 * 4 + v1 / 16) as u32) as u8);
                out.push((((v1 % 16) * 16 + v2 / 4) as u32) as u8);
                proof {
                    assert(out@ =~= pre + b64_quad_last(c0, c1, c2, c3)->0);
                }
            } else {
                let v3 = b64_char_val(c3);
                if v3 < 0 {
                    return Err(AppError::new("invalid base64"));
                }
                out.push(((v0 * 4 + v1 / 16) as u32) as u8);
                out.push((((v1 % 16) * 16 + v2 / 4) as u32) as u8);
                out.push((((v2 % 4) * 64 + v3) as u32) as u8);
                proof {
                    assert(out@ =~= pre + b64_quad_last(c0, c1, c2, c3)->0);
                }
            }
        }
        Ok(out)
    } else if n == i {
        proof {
            assert(s@.skip(i as int).len() == 0);
        }
        Ok(out)
    } else {
        proof {
            assert(0 < s@.skip(i as int).len() < 4);
        }
        Err(AppError::new("invalid base64"))
    }
}


/// Writes the wallet's signature into the first signature slot of a
/// serialized transaction whose signature-count byte announces exactly
/// one signer: byte 0 is kept, bytes 1..65 become the signature, and the
/// message after them is untouched.
pub fn sign_swap_payload(tx: Vec<u8>, sig: &Vec<u8>) -> (r: Result<Vec<u8>, AppError>)
    requires
        sig@.len() == 64,
    ensures
        tx@.len() >= 65 && tx@[0] == 1 ==> (r matches Ok(out) && out@.len() == tx@.len()
            && out@[0] == 1 && out@.subrange(1, 65) == sig@ && out@.skip(65) == tx@.skip(65)),
        tx@.len() == 0 || (tx@.len() >= 1 && tx@[0] != 1) ==> (r matches Err(e) && e.err_msg@
            == "unexpected signature count in swap payload"@),
        tx@.len() >= 1 && tx@[0] == 1 && tx@.len() < 65 ==> (r matches Err(e) && e.err_msg@
            == "swap payload too short"@),
{
    if tx.len() == 0 || tx[0] != 1 {
        return Err(AppError::new("unexpected signature count in swap payload"));
    }
    if tx.len() < 65 {
        return Err(AppError::new("swap payload too short"));
    }
    let ghost tx0 = tx@;
    let mut out = tx;
    let mut i: usize = 0;
    while i < 64
        invariant
            i <= 64,
            out@.len() == tx0.len(),
            out@.len() >= 65,
            sig@.len() == 64,
            out@[0] == tx0[0],
            forall|j: int| 0 <= j < i ==> out@[1 + j] == sig@[j],
            forall|j: int| i + 1 <= j < out@.len() ==> out@[j] == tx0[j],
        decreases 64 - i,
    {
        out.set(1 + i, sig[i]);
        i += 1;
    }
    proof {
        assert(out@.subrange(1, 65) =~= sig@);
        assert(out@.skip(65) =~= tx0.skip(65));
    }
    Ok(out)
}

/// One signed wire transaction: a signature count of one, the signature,
/// then the message bytes.
pub fn assemble_signed_tx(sig: &Vec<u8>, msg: &Vec<u8>) -> (r: Vec<u8>)
    requires
        sig@.len() == 64,
    ensures
        r@ == seq![1u8] + sig@ + msg@,
{
    let mut out: Vec<u8> = Vec::new();
    out.push(1);
    out.extend_from_slice(sig.as_slice());
    out.extend_from_slice(msg.as_slice());
    proof {
        assert(out@ =~= seq![1u8] + sig@ + msg@);
    }
    out
}


/// The message bytes a single-signer serialized transaction carries
/// after its signature slot: what the wallet must sign.
pub fn swap_message_bytes(tx: &Vec<u8>) -> (r: Result<Vec<u8>, AppError>)
    ensures
        tx@.len() >= 65 && tx@[0] == 1 ==> (r matches Ok(m) && m@ == tx@.skip(65)),
        tx@.len() == 0 || (tx@.len() >= 1 && tx@[0] != 1) ==> (r matches Err(e) && e.err_msg@
            == "unexpected signature count in swap payload"@),
        tx@.len() >= 1 && tx@[0] == 1 && tx@.len() < 65 ==> (r matches Err(e) && e.err_msg@
            == "swap payload too short"@),
{
    if tx.len() == 0 || tx[0] != 1 {
        return Err(AppError::new("unexpected signature count in swap payload"));
    }
    if tx.len() < 65 {
        return Err(AppError::new("swap payload too short"));
    }
    let n = tx.len();
    let mut out: Vec<u8> = Vec::new();
    let mut i: usize = 65;
    while i < n
        invariant
            65 <= i <= n,
            n == tx@.len(),
            out@ == tx@.subrange(65, i as int),
        decreases n - i,
    {
        out.push(tx[i]);
        proof {
            assert(out@ =~= tx@.subrange(65, i + 1));
        }
        i += 1;
    }
    proof {
        assert(out@ =~= tx@.skip(65));
    }
    Ok(out)
}

/// The little-endian bytes of a 32-bit count.
pub open spec fn u32_le(n: u32) -> Seq<u8> {
    seq![
        (n as int % 256) as u8,
        (n as int / 256 % 256) as u8,
        (n as int / 65536 % 256) as u8,
        (n as int / 16777216 % 256) as u8,
    ]
}

/// The little-endian bytes of a 64-bit amount.
pub open spec fn u64_le(n: u64) -> Seq<u8> {
    seq![
        (n as int % 256) as u8,
        (n as int / 256 % 256) as u8,
        (n as int / 65536 % 256) as u8,
        (n as int / 16777216 % 256) as u8,
        (n as int / 4294967296 % 256) as u8,
        (n as int / 1099511627776 % 256) as u8,
        (n as int / 281474976710656 % 256) as u8,
        (n as int / 72057594037927936 % 256) as u8,
    ]
}

/// Appends the little-endian bytes of a 64-bit amount.
fn push_u64_le(out: &mut Vec<u8>, n: u64)
    ensures
        final(out)@ == old(out)@ + u64_le(n),
{
    let ghost pre = out@;
    out.push((n % 256) as u8);
    out.push((n / 256 % 256) as u8);
    out.push((n / 65536 % 256) as u8);
    out.push((n / 16777216 % 256) as u8);
    out.push((n / 4294967296 % 256) as u8);
    out.push((n / 1099511627776 % 256) as u8);
    out.push((n / 281474976710656 % 256) as u8);
    out.push((n / 72057594037927936 % 256) as u8);
    proof {
        assert(out@ =~= pre + u64_le(n));
    }
}

/// A sequence of 32 zero bytes: the system program's id.
pub open spec fn system_program_id() -> Seq<u8> {
    Seq::new(32, |i: int| 0u8)
}

/// The account keys of a transfer: every recipient in order.
pub open spec fn concat_keys(tos: Seq<Seq<u8>>) -> Seq<u8>
    decreases tos.len(),
{
    if tos.len() == 0 {
        Seq::empty()
    } else {
        concat_keys(tos.drop_last()) + tos.last()
    }
}

/// Transfer instruction for recipient `i`: the system program (the last
/// account), two accounts (payer and recipient `i`), and 12 data bytes:
/// the transfer discriminant 2 and the lamport amount.
pub open spec fn transfer_ix(n_tos: int, i: int, lamports: u64) -> Seq<u8> {
    seq![(n_tos + 1) as u8, 2u8, 0u8, (i + 1) as u8, 12u8] + u32_le(2) + u64_le(lamports)
}

/// The transfer instructions for recipients `0 .. count`.
pub open spec fn transfer_ixs(n_tos: int, count: int, lamports: u64) -> Seq<u8>
    decreases count,
{
    if count <= 0 {
        Seq::empty()
    } else {
        transfer_ixs(n_tos, count - 1, lamports) + transfer_ix(n_tos, count - 1, lamports)
    }
}

/// The legacy wire form of a message paying `lamports` to each recipient:
/// the header (one signer, one read-only unsigned account), the account
/// table (payer, recipients, system program), the recent blockhash, and
/// one transfer instruction per recipient.
pub open spec fn transfer_message_bytes(
    from: Seq<u8>,
    tos: Seq<Seq<u8>>,
    blockhash: Seq<u8>,
    lamports: u64,
) -> Seq<u8> {
    seq![1u8, 0u8, 1u8, (tos.len() + 2) as u8] + from + concat_keys(tos) + system_program_id()
        + blockhash + seq![tos.len() as u8] + transfer_ixs(tos.len() as int, tos.len() as int, lamports)
}

/// Builds the transfer message.  At most 125 recipients keep both
/// count bytes in the single-byte range of the wire format.
pub fn build_transfer_message(
    from: &Vec<u8>,
    tos: &Vec<Vec<u8>>,
    blockhash: &Vec<u8>,
    lamports: u64,
) -> (r: Vec<u8>)
    requires
        from@.len() == 32,
        blockhash@.len() == 32,
        1 <= tos@.len() <= 125,
        forall|i: int| 0 <= i < tos@.len() ==> (#[trigger] tos@[i])@.len() == 32,
    ensures
        r@ == transfer_message_bytes(
            from@,
            tos@.map(|i: int, t: Vec<u8>| t@),
            blockhash@,
            lamports,
        ),
{
    let ghost tseq = tos@.map(|i: int, t: Vec<u8>| t@);
    let n_tos = tos.len();
    let mut msg: Vec<u8> = Vec::new();
    msg.push(1);
    msg.push(0);
    msg.push(1);
    msg.push((n_tos + 2) as u8);
    msg.extend_from_slice(from.as_slice());
    let mut i: usize = 0;
    while i < n_tos
        invariant
            i <= n_tos,
            n_tos == tos@.len(),
            tseq == tos@.map(|i: int, t: Vec<u8>| t@),
            msg@ == seq![1u8, 0u8, 1u8, (tseq.len() + 2) as u8] + from@ + concat_keys(
                tseq.take(i as int),
            ),
        decreases n_tos - i,
    {
        msg.extend_from_slice(tos[i].as_slice());
        proof {
            assert(tseq.take(i + 1).drop_last() =~= tseq.take(i as int));
            assert(tseq.take(i + 1).last() == tos@[i as int]@);
        }
        i += 1;
    }
    proof {
        assert(tseq.take(n_tos as int) =~= tseq);
    }
    let mut k: usize = 0;
    let ghost before_zeros = msg@;
    while k < 32
        invariant
            k <= 32,
            msg@ == before_zeros + Seq::new(k as nat, |i: int| 0u8),
        decreases 32 - k,
    {
        msg.push(0);
        proof {
            assert(msg@ =~= before_zeros + Seq::new((k + 1) as nat, |i: int| 0u8));
        }
        k += 1;
    }
    msg.extend_from_slice(blockhash.as_slice());
    msg.push(n_tos as u8);
    let ghost before_ixs = msg@;
    let mut j: usize = 0;
    while j < n_tos
        invariant
            j <= n_tos,
            n_tos == tos@.len(),
            n_tos <= 125,
            msg@ == before_ixs + transfer_ixs(n_tos as int, j as int, lamports),
        decreases n_tos - j,
    {
        let ghost pre = msg@;
        msg.push((n_tos + 1) as u8);
        msg.push(2);
        msg.push(0);
        msg.push((j + 1) as u8);
        msg.push(12);
        msg.push(2);
        msg.push(0);
        msg.push(0);
        msg.push(0);
        push_u64_le(&mut msg, lamports);
        proof {
            assert(seq![2u8, 0u8, 0u8, 0u8] =~= u32_le(2));
            assert(msg@ =~= pre + transfer_ix(n_tos as int, j as int, lamports));
        }
        j += 1;
    }
    proof {
        assert(msg@ =~= transfer_message_bytes(from@, tseq, blockhash@, lamports));
    }
    msg
}


/// The value of one hex digit, `-1` for any other char.
pub open spec fn hex_val(c: char) -> int {
    if '0' <= c && c <= '9' {
        c as int - '0' as int
    } else if 'a' <= c && c <= 'f' {
        c as int - 'a' as int + 10
    } else if 'A' <= c && c <= 'F' {
        c as int - 'A' as int + 10
    } else {
        -1
    }
}

/// The number a hex string denotes, `-1` when any char is no hex digit.
pub open spec fn hex_value(s: Seq<char>) -> int
    decreases s.len(),
{
    if s.len() == 0 {
        0
    } else {
        let rest = hex_value(s.drop_last());
        let d = hex_val(s.last());
        if rest < 0 || d < 0 {
            -1
        } else {
            rest * 16 + d
        }
    }
}

/// Once a prefix is invalid, the whole string is.
proof fn lemma_hex_value_neg(s: Seq<char>, i: int)
    requires
        0 <= i <= s.len(),
        hex_value(s.take(i)) < 0,
    ensures
        hex_value(s) < 0,
    decreases s.len() - i,
{
    if i == s.len() {
        assert(s.take(i) =~= s);
    } else {
        assert(s.take(i + 1).drop_last() =~= s.take(i));
        lemma_hex_value_neg(s, i + 1);
    }
}

/// A valid value only grows as the string extends.
proof fn lemma_hex_value_extend(s: Seq<char>, i: int)
    requires
        0 <= i <= s.len(),
        hex_value(s.take(i)) >= 0,
    ensures
        hex_value(s) < 0 || hex_value(s) >= hex_value(s.take(i)),
    decreases s.len() - i,
{
    if i == s.len() {
        assert(s.take(i) =~= s);
    } else {
        assert(s.take(i + 1).drop_last() =~= s.take(i));
        assert(s.take(i + 1).last() == s[i]);
        if hex_val(s[i]) < 0 {
            lemma_hex_value_neg(s, i + 1);
        } else {
            let v = hex_value(s.take(i));
            assert(hex_value(s.take(i + 1)) == v * 16 + hex_val(s[i]));
            assert(v * 16 >= v) by (nonlinear_arith)
                requires
                    v >= 0,
            ;
            lemma_hex_value_extend(s, i + 1);
        }
    }
}

/// The value of one hex digit char, `-1` for any other char.
fn hex_char_val(c: char) -> (v: i32)
    ensures
        v as int == hex_val(c),
{
    if '0' <= c && c <= '9' {
        (c as u32 - '0' as u32) as i32
    } else if 'a' <= c && c <= 'f' {
        (c as u32 - 'a' as u32) as i32 + 10
    } else if 'A' <= c && c <= 'F' {
        (c as u32 - 'A' as u32) as i32 + 10
    } else {
        -1
    }
}

/// Parses an unprefixed hex quantity.  Succeeds exactly on non-empty
/// all-hex text whose value fits 128 bits.
pub fn parse_hex_u128(s: &str) -> (r: Result<u128, AppError>)
    ensures
        r is Ok <==> (s@.len() > 0 && 0 <= hex_value(s@) <= u128::MAX),
        r matches Ok(v) ==> v as int == hex_value(s@),
        r matches Err(e) ==> e.err_msg@ == "invalid hex quantity"@,
{
    let n = s.unicode_len();
    if n == 0 {
        return Err(AppError::new("invalid hex quantity"));
    }
    let mut acc: u128 = 0;
    let mut i: usize = 0;
    proof {
        assert(s@.take(0) =~= Seq::<char>::empty());
    }
    while i < n
        invariant
            i <= n,
            n == s@.len(),
            acc as int == hex_value(s@.take(i as int)),
        decreases n - i,
    {
        let c = s.get_char(i);
        let d = hex_char_val(c);
        proof {
            assert(s@.take(i + 1).drop_last() =~= s@.take(i as int));
            assert(s@.take(i + 1).last() == s@[i as int]);
        }
        if d < 0 {
            proof {
                lemma_hex_value_neg(s@, i + 1);
            }
            return Err(AppError::new("invalid hex quantity"));
        }
        let d = d as u128;
        if acc > (u128::MAX - d) / 16 {
            proof {
                let m = u128::MAX as int;
                let a = acc as int;
                let di = d as int;
                assert(a * 16 + di > m) by (nonlinear_arith)
                    requires
                        a > (m - di) / 16,
                        0 <= di < 16,
                        m - di == ((m - di) / 16) * 16 + (m - di) % 16,
                        0 <= (m - di) % 16 < 16,
                ;
                lemma_hex_value_extend(s@, i + 1);
            }
            return Err(AppError::new("invalid hex quantity"));
        }
        proof {
            let m = u128::MAX as int;
            let a = acc as int;
            let di = d as int;
            assert(a * 16 + di <= m) by (nonlinear_arith)
                requires
                    a <= (m - di) / 16,
                    0 <= di < 16,
                    m - di == ((m - di) / 16) * 16 + (m - di) % 16,
                    0 <= (m - di) % 16 < 16,
            ;
        }
        acc = acc * 16 + d;
        i += 1;
    }
    proof {
        assert(s@.take(n as int) =~= s@);
    }
    Ok(acc)
}

/// The bytes a hex string of digit pairs denotes, `None` for an odd
/// length or a char that is no hex digit.
pub open spec fn hex_bytes(s: Seq<char>) -> Option<Seq<u8>>
    decreases s.len(),
{
    if s.len() == 0 {
        Some(Seq::empty())
    } else if s.len() == 1 {
        None
    } else {
        let hi = hex_val(s[0]);
        let lo = hex_val(s[1]);
        if hi < 0 || lo < 0 {
            None
        } else {
            match hex_bytes(s.skip(2)) {
                None => None,
                Some(rest) => Some(seq![(hi * 16 + lo) as u8] + rest),
            }
        }
    }
}

/// Parses a hex string of digit pairs into bytes.
pub fn parse_hex_bytes(s: &str) -> (r: Result<Vec<u8>, AppError>)
    ensures
        match r {
            Ok(b) => hex_bytes(s@) == Some(b@),
            Err(e) => hex_bytes(s@) is None && e.err_msg@ == "invalid hex data"@,
        },
{
    let n = s.unicode_len();
    let mut out: Vec<u8> = Vec::new();
    let mut i: usize = 0;
    proof {
        assert(s@.skip(0) =~= s@);
        if hex_bytes(s@) is Some {
            assert(out@ + hex_bytes(s@)->0 =~= hex_bytes(s@)->0);
        }
    }
    while n - i >= 2
        invariant
            i <= n,
            n == s@.len(),
            match hex_bytes(s@.skip(i as int)) {
                Some(rest) => hex_bytes(s@) == Some(out@ + rest),
                None => hex_bytes(s@) is None,
            },
        decreases n - i,
    {
        let hi = hex_char_val(s.get_char(i));
        let lo = hex_char_val(s.get_char(i + 1));
        proof {
            let rest = s@.skip(i as int);
            assert(rest[0] == s@[i as int] && rest[1] == s@[i + 1]);
            assert(rest.skip(2) =~= s@.skip(i + 2));
        }
        if hi < 0 || lo < 0 {
            return Err(AppError::new("invalid hex data"));
        }
        let ghost pre = out@;
        out.push(((hi * 16 + lo) as u32) as u8);
        proof {
            assert(out@ =~= pre + seq![(hex_val(s@[i as int]) * 16 + hex_val(s@[i + 1])) as u8]);
        }
        i += 2;
    }
    if i == n {
        proof {
            assert(s@.skip(i as int).len() == 0);
        }
        Ok(out)
    } else {
        proof {
            assert(s@.skip(i as int).len() == 1);
        }
        Err(AppError::new("invalid hex data"))
    }
}

/// The byte length announced by an ABI return's length word: the low
/// eight bytes of the second 32-byte word, big-endian.
pub open spec fn abi_word_len(b: Seq<u8>) -> int {
    b[56] * 72057594037927936 + b[57] * 281474976710656 + b[58] * 1099511627776 + b[59]
        * 4294967296 + b[60] * 16777216 + b[61] * 65536 + b[62] * 256 + b[63]
}

/// Extracts the payload of an ABI-encoded dynamic string or bytes
/// return: a 32-byte offset word, a 32-byte length word, then the data.
pub fn abi_string_payload(bytes: &Vec<u8>) -> (r: Result<Vec<u8>, AppError>)
    ensures
        bytes@.len() >= 64 && 64 + abi_word_len(bytes@) <= bytes@.len() ==> (r matches Ok(p) && p@
            == bytes@.subrange(64, 64 + abi_word_len(bytes@))),
        bytes@.len() < 64 || 64 + abi_word_len(bytes@) > bytes@.len() ==> (r matches Err(e)
            && e.err_msg@ == "malformed string return"@),
{
    if bytes.len() < 64 {
        return Err(AppError::new("malformed string return"));
    }
    let n: u128 = (bytes[56] as u128) * 72057594037927936 + (bytes[57] as u128) * 281474976710656
        + (bytes[58] as u128) * 1099511627776 + (bytes[59] as u128) * 4294967296 + (
    bytes[60] as u128) * 16777216 + (bytes[61] as u128) * 65536 + (bytes[62] as u128) * 256 + (
    bytes[63] as u128);
    if n > (bytes.len() - 64) as u128 {
        return Err(AppError::new("malformed string return"));
    }
    let len = n as usize;
    let total = bytes.len();
    let mut out: Vec<u8> = Vec::new();
    let mut k: usize = 0;
    while k < len
        invariant
            k <= len,
            total == bytes@.len(),
            64 + len <= total,
            out@ == bytes@.subrange(64, 64 + k as int),
        decreases len - k,
    {
        out.push(bytes[64 + k]);
        proof {
            assert(out@ =~= bytes@.subrange(64, 64 + (k + 1)));
        }
        k += 1;
    }
    Ok(out)
}

/// The text std's lossy UTF-8 conversion produces for these bytes.
pub uninterp spec fn utf8_lossy_of(bytes: Seq<u8>) -> Seq<char>;

/// Relies on std's `String::from_utf8_lossy`: the conversion is a
/// function of the bytes alone.
#[verifier::external_body]
pub fn utf8_lossy(bytes: &Vec<u8>) -> (r: String)
    ensures
        r@ == utf8_lossy_of(bytes@),
{
    String::from_utf8_lossy(bytes.as_slice()).into_owned()
}

} // verus!
