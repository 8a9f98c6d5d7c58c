//! Little-endian byte encoding shared by every game message.
use vstd::prelude::*;

verus! {

/// Why a payload was not accepted as a message.
#[derive(Clone, Copy, Debug, PartialEq, Eq)]
pub enum DecodeError {
    /// The payload ended before a field was complete.
    UnexpectedEnd,
    /// A byte that selects a variant held no known value.
    InvalidTag { message: &'static str, tag: u8 },
    /// Bytes remained after the last field.
    TrailingBytes,
}

/// The four little-endian bytes of `x`.
pub open spec fn le_u32(x: u32) -> Seq<u8> {
    seq![
        (x % 0x100) as u8,
        ((x / 0x100) % 0x100) as u8,
        ((x / 0x1_0000) % 0x100) as u8,
        (x / 0x100_0000) as u8,
    ]
}

/// The `u32` whose little-endian bytes start `b` at `pos`.
pub open spec fn u32_at(b: Seq<u8>, pos: int) -> u32 {
    (b[pos] + 0x100 * b[pos + 1] + 0x1_0000 * b[pos + 2] + 0x100_0000 * b[pos + 3]) as u32
}

pub proof fn lemma_le_u32(x: u32)
    ensures
        le_u32(x).len() == 4,
        u32_at(le_u32(x), 0) == x,
{
    let b = le_u32(x);
    assert(b[0] + 0x100 * b[1] + 0x1_0000 * b[2] + 0x100_0000 * b[3] == x) by (nonlinear_arith)
        requires
            b[0] == x % 0x100,
            b[1] == (x / 0x100) % 0x100,
            b[2] == (x / 0x1_0000) % 0x100,
            b[3] == x / 0x100_0000,
    ;
}

pub proof fn lemma_u32_at(b: Seq<u8>, pos: int)
    requires
        0 <= pos,
        pos + 4 <= b.len(),
    ensures
        le_u32(u32_at(b, pos)) == b.subrange(pos, pos + 4),
{
    let x = u32_at(b, pos);
    let (b0, b1, b2, b3) = (b[pos], b[pos + 1], b[pos + 2], b[pos + 3]);
    assert(x == b0 + 0x100 * b1 + 0x1_0000 * b2 + 0x100_0000 * b3);
    assert(x % 0x100 == b0 && (x / 0x100) % 0x100 == b1 && (x / 0x1_0000) % 0x100 == b2 && x
        / 0x100_0000 == b3) by (nonlinear_arith)
        requires
            x == b0 + 0x100 * b1 + 0x1_0000 * b2 + 0x100_0000 * b3,
            b0 < 0x100,
            b1 < 0x100,
            b2 < 0x100,
            b3 < 0x100,
    ;
    assert(le_u32(x) =~= b.subrange(pos, pos + 4));
}

/// A `u32` placed after `prefix` reads back at the prefix's length.
pub proof fn lemma_u32_after(prefix: Seq<u8>, x: u32, rest: Seq<u8>)
    ensures
        u32_at(prefix + le_u32(x) + rest, prefix.len() as int) == x,
{
    lemma_le_u32(x);
    let s = prefix + le_u32(x) + rest;
    let p = prefix.len() as int;
    assert(s[p] == le_u32(x)[0] && s[p + 1] == le_u32(x)[1] && s[p + 2] == le_u32(x)[2] && s[p + 3]
        == le_u32(x)[3]);
}

/// Appends the little-endian bytes of `x`.
pub fn push_u32(out: &mut Vec<u8>, x: u32)
    ensures
        final(out)@ == old(out)@ + le_u32(x),
{
    out.push((x % 0x100) as u8);
    out.push(((x / 0x100) % 0x100) as u8);
    out.push(((x / 0x1_0000) % 0x100) as u8);
    out.push((x / 0x100_0000) as u8);
    assert(final(out)@ =~= old(out)@ + le_u32(x));
}

/// Reads the byte at `pos`.
pub fn read_u8(b: &[u8], pos: usize) -> (r: Result<u8, DecodeError>)
    ensures
        pos < b@.len() ==> r == Ok::<u8, DecodeError>(b@[pos as int]),
        pos >= b@.len() ==> r == Err::<u8, DecodeError>(DecodeError::UnexpectedEnd),
{
    if pos < b.len() {
        Ok(b[pos])
    } else {
        Err(DecodeError::UnexpectedEnd)
    }
}

/// Reads the little-endian `u32` that starts at `pos`.
pub fn read_u32(b: &[u8], pos: usize) -> (r: Result<u32, DecodeError>)
    ensures
        pos + 4 <= b@.len() ==> r == Ok::<u32, DecodeError>(u32_at(b@, pos as int)),
        pos + 4 > b@.len() ==> r == Err::<u32, DecodeError>(DecodeError::UnexpectedEnd),
{
    if pos > b.len() || b.len() - pos < 4 {
        return Err(DecodeError::UnexpectedEnd);
    }
    let x: u32 = b[pos] as u32 + 0x100 * (b[pos + 1] as u32) + 0x1_0000 * (b[pos + 2] as u32)
        + 0x100_0000 * (b[pos + 3] as u32);
    Ok(x)
}

/// Accepts the payload only when `pos` is its end.
pub fn finish(b: &[u8], pos: usize) -> (r: Result<(), DecodeError>)
    ensures
        pos < b@.len() ==> r == Err::<(), DecodeError>(DecodeError::TrailingBytes),
        pos >= b@.len() ==> r == Ok::<(), DecodeError>(()),
{
    if pos < b.len() {
        Err(DecodeError::TrailingBytes)
    } else {
        Ok(())
    }
}

} // verus!
