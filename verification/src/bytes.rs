//! Little-endian integers and fixed-size fields inside a byte buffer.

use vstd::prelude::*;

verus! {

/// The two bytes of `x`, least significant first.
pub open spec fn le_u16(x: u16) -> Seq<u8> {
    seq![(x % 256) as u8, (x / 256) as u8]
}

/// The two bytes of the two's complement of `x`, least significant first.
pub open spec fn le_i16(x: i16) -> Seq<u8> {
    le_u16((x as int % 65536) as u16)
}

/// The four bytes of `x`, least significant first.
pub open spec fn le_u32(x: u32) -> Seq<u8> {
    seq![
        (x % 256) as u8,
        (x / 256 % 256) as u8,
        (x / 65536 % 256) as u8,
        (x / 16777216) as u8,
    ]
}

/// `N` zero bytes.
pub open spec fn zeros<const N: usize>() -> [u8; N] {
    vstd::array::spec_array_fill_for_copy_type(0u8)
}

/// Two integers with the same four bytes are the same integer.
pub proof fn le_u32_injective(x: u32, y: u32)
    requires
        le_u32(x) == le_u32(y),
    ensures
        x == y,
{
    assert(le_u32(x)[0] == le_u32(y)[0]);
    assert(le_u32(x)[1] == le_u32(y)[1]);
    assert(le_u32(x)[2] == le_u32(y)[2]);
    assert(le_u32(x)[3] == le_u32(y)[3]);
}

/// Two integers with the same two bytes are the same integer.
pub proof fn le_i16_injective(x: i16, y: i16)
    requires
        le_i16(x) == le_i16(y),
    ensures
        x == y,
{
    assert(le_i16(x)[0] == le_i16(y)[0]);
    assert(le_i16(x)[1] == le_i16(y)[1]);
}

/// Appends `bytes` to `out`.
pub fn put_bytes(out: &mut Vec<u8>, bytes: &[u8])
    ensures
        final(out)@ == old(out)@ + bytes@,
{
    out.extend_from_slice(bytes);
    assert(out@ =~= old(out)@ + bytes@);
}

/// Appends the two bytes of `x` to `out`, least significant first.
pub fn put_le_i16(out: &mut Vec<u8>, x: i16)
    ensures
        final(out)@ == old(out)@ + le_i16(x),
{
    let wide: i32 = x as i32;
    let raw: u16 = if wide < 0 {
        (wide + 65536) as u16
    } else {
        wide as u16
    };
    out.push((raw % 256) as u8);
    out.push((raw / 256) as u8);
    assert(out@ =~= old(out)@ + le_i16(x));
}

/// Appends the four bytes of `x` to `out`, least significant first.
pub fn put_le_u32(out: &mut Vec<u8>, x: u32)
    ensures
        final(out)@ == old(out)@ + le_u32(x),
{
    out.push((x % 256) as u8);
    out.push((x / 256 % 256) as u8);
    out.push((x / 65536 % 256) as u8);
    out.push((x / 16777216) as u8);
    assert(out@ =~= old(out)@ + le_u32(x));
}

/// The integer whose two bytes stand at `at`.
pub fn get_le_i16(source: &[u8], at: usize) -> (x: i16)
    requires
        at + 2 <= source@.len(),
    ensures
        le_i16(x) == source@.subrange(at as int, at + 2),
{
    let raw: i32 = source[at] as i32 + 256 * (source[at + 1] as i32);
    let x: i16 = if raw >= 32768 {
        (raw - 65536) as i16
    } else {
        raw as i16
    };
    assert(le_i16(x) =~= source@.subrange(at as int, at + 2));
    x
}

/// The integer whose four bytes stand at `at`.
pub fn get_le_u32(source: &[u8], at: usize) -> (x: u32)
    requires
        at + 4 <= source@.len(),
    ensures
        le_u32(x) == source@.subrange(at as int, at + 4),
{
    let b0: u32 = source[at] as u32;
    let b1: u32 = source[at + 1] as u32;
    let b2: u32 = source[at + 2] as u32;
    let b3: u32 = source[at + 3] as u32;
    let x: u32 = b0 + 256 * b1 + 65536 * b2 + 16777216 * b3;
    assert(x % 256 == b0);
    assert(x / 256 == b1 + 256 * b2 + 65536 * b3);
    assert(x / 65536 == b2 + 256 * b3);
    assert(x / 16777216 == b3);
    assert(le_u32(x) =~= source@.subrange(at as int, at + 4));
    x
}

/// The `N` bytes that stand at `at`.
pub fn get_array<const N: usize>(source: &[u8], at: usize) -> (field: [u8; N])
    requires
        at + N <= source@.len(),
    ensures
        field@ == source@.subrange(at as int, at + N),
{
    let len: usize = source.len();
    let mut field: [u8; N] = [0u8; N];
    let mut i: usize = 0;
    while i < N
        invariant
            i <= N,
            at + N <= len,
            len == source@.len(),
            forall|k: int| 0 <= k < i ==> field@[k] == source@[at + k],
        decreases N - i,
    {
        field[i] = source[at + i];
        i = i + 1;
    }
    assert(field@ =~= source@.subrange(at as int, at + N));
    field
}

/// The four bytes are the digits of `x` in base 256, least significant first.
pub proof fn le_u32_is_positional(x: u32)
    ensures
        le_u32(x).len() == 4,
        x == le_u32(x)[0] + 256 * le_u32(x)[1] + 65536 * le_u32(x)[2] + 16777216 * le_u32(x)[3],
{
    assert(x / 65536 == (x / 256) / 256);
    assert(x / 16777216 == (x / 65536) / 256);
}

/// The two bytes are the digits in base 256, least significant first, of `x` if it is
/// not negative, and of `x` and 65536 together if it is.
pub proof fn le_i16_is_positional(x: i16)
    ensures
        le_i16(x).len() == 2,
        le_i16(x)[0] + 256 * le_i16(x)[1] == if x < 0 {
            x + 65536
        } else {
            x as int
        },
{
}

/// Each of the zero bytes is zero.
pub proof fn zeros_are_zero<const N: usize>(i: int)
    requires
        0 <= i < N,
    ensures
        zeros::<N>()@.len() == N,
        zeros::<N>()@[i] == 0,
{
}

/// Only one number has given digits in base 256.
pub proof fn le_u32_from_digits(x: u32, b0: u8, b1: u8, b2: u8, b3: u8)
    requires
        x == b0 + 256 * b1 + 65536 * b2 + 16777216 * b3,
    ensures
        le_u32(x) == seq![b0, b1, b2, b3],
{
    assert(x % 256 == b0);
    assert(x / 256 == b1 + 256 * b2 + 65536 * b3);
    assert(x / 65536 == b2 + 256 * b3);
    assert(x / 16777216 == b3);
    assert(le_u32(x) =~= seq![b0, b1, b2, b3]);
}

} // verus!
