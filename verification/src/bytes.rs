use vstd::prelude::*;

verus! {

/// What a parser of this crate makes of its input, as a mathematical value:
/// a result together with the number of bytes it consumed, a failure for
/// want of input, or a malformed input that the format does not admit.
pub enum Parsed<T> {
    Done(T, nat),
    Fail,
    Malformed,
}

impl<T> Parsed<T> {
    /// Whether the input is one that the format does not admit.
    pub open spec fn is_malformed(self) -> bool {
        self is Malformed
    }
}

/// The error that the parsers of this crate return.
#[derive(Debug, PartialEq, Eq)]
pub enum ParseError {
    /// The input ended before the value it was read for.
    Incomplete,
    /// The input holds a value that the format does not admit (a bad
    /// signature, an unsupported pixel format, a missing parameter, ...).
    Malformed,
}

/// The error that a parser returns for an outcome that is not `Done`.
pub open spec fn error_of<T>(p: Parsed<T>) -> ParseError {
    match p {
        Parsed::Malformed => ParseError::Malformed,
        _ => ParseError::Incomplete,
    }
}

/// A little-endian unsigned 16-bit integer made of the first two bytes of `s`.
pub open spec fn le_u16_of(s: Seq<u8>) -> u16
    recommends
        s.len() >= 2,
{
    (s[0] as int + 256 * (s[1] as int)) as u16
}

/// A big-endian unsigned 16-bit integer made of the first two bytes of `s`.
pub open spec fn be_u16_of(s: Seq<u8>) -> u16
    recommends
        s.len() >= 2,
{
    (256 * (s[0] as int) + s[1] as int) as u16
}

/// A little-endian unsigned 32-bit integer made of the first four bytes of `s`.
pub open spec fn le_u32_of(s: Seq<u8>) -> u32
    recommends
        s.len() >= 4,
{
    (s[0] as int + 256 * (s[1] as int) + 65536 * (s[2] as int) + 16777216 * (s[3] as int)) as u32
}

/// Reads one byte at `pos`.
pub fn read_u8(input: &[u8], pos: usize) -> (r: Option<u8>)
    ensures
        pos < input@.len() ==> r == Some(input@[pos as int]),
        pos >= input@.len() ==> r is None,
{
    if pos < input.len() {
        Some(input[pos])
    } else {
        None
    }
}

/// Reads a little-endian `u16` at `pos`.
pub fn read_le_u16(input: &[u8], pos: usize) -> (r: Option<u16>)
    requires
        pos <= input@.len(),
    ensures
        input@.len() - pos >= 2 ==> r == Some(le_u16_of(input@.skip(pos as int))),
        input@.len() - pos < 2 ==> r is None,
{
    if input.len() - pos >= 2 {
        let lo = input[pos] as u16;
        let hi = input[pos + 1] as u16;
        Some(lo + 256 * hi)
    } else {
        None
    }
}

/// Reads a big-endian `u16` at `pos`.
pub fn read_be_u16(input: &[u8], pos: usize) -> (r: Option<u16>)
    requires
        pos <= input@.len(),
    ensures
        input@.len() - pos >= 2 ==> r == Some(be_u16_of(input@.skip(pos as int))),
        input@.len() - pos < 2 ==> r is None,
{
    if input.len() - pos >= 2 {
        let hi = input[pos] as u16;
        let lo = input[pos + 1] as u16;
        Some(256 * hi + lo)
    } else {
        None
    }
}

/// Reads a little-endian `u32` at `pos`.
pub fn read_le_u32(input: &[u8], pos: usize) -> (r: Option<u32>)
    requires
        pos <= input@.len(),
    ensures
        input@.len() - pos >= 4 ==> r == Some(le_u32_of(input@.skip(pos as int))),
        input@.len() - pos < 4 ==> r is None,
{
    if input.len() - pos >= 4 {
        let b0 = input[pos] as u32;
        let b1 = input[pos + 1] as u32;
        let b2 = input[pos + 2] as u32;
        let b3 = input[pos + 3] as u32;
        Some(b0 + 256 * b1 + 65536 * b2 + 16777216 * b3)
    } else {
        None
    }
}

} // verus!
