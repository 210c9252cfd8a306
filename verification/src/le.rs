//! Little-endian byte encodings of fixed-width unsigned integers.
use vstd::prelude::*;

verus! {

/// The two little-endian bytes of `x`.
pub open spec fn le_u16(x: u16) -> Seq<u8> {
    seq![(x & 0xff) as u8, ((x >> 8u16) & 0xff) as u8]
}

/// The four little-endian bytes of `x`.
pub open spec fn le_u32(x: u32) -> Seq<u8> {
    seq![
        (x & 0xff) as u8,
        ((x >> 8u32) & 0xff) as u8,
        ((x >> 16u32) & 0xff) as u8,
        ((x >> 24u32) & 0xff) as u8,
    ]
}

/// The eight little-endian bytes of `x`.
pub open spec fn le_u64(x: u64) -> Seq<u8> {
    seq![
        (x & 0xff) as u8,
        ((x >> 8u64) & 0xff) as u8,
        ((x >> 16u64) & 0xff) as u8,
        ((x >> 24u64) & 0xff) as u8,
        ((x >> 32u64) & 0xff) as u8,
        ((x >> 40u64) & 0xff) as u8,
        ((x >> 48u64) & 0xff) as u8,
        ((x >> 56u64) & 0xff) as u8,
    ]
}

/// The `u16` whose little-endian bytes are `b0, b1`.
pub open spec fn u16_from_le(b0: u8, b1: u8) -> u16 {
    (b0 as u16) | ((b1 as u16) << 8u16)
}

/// The `u32` whose little-endian bytes are `b0 .. b3`.
pub open spec fn u32_from_le(b0: u8, b1: u8, b2: u8, b3: u8) -> u32 {
    (b0 as u32) | ((b1 as u32) << 8u32) | ((b2 as u32) << 16u32) | ((b3 as u32) << 24u32)
}

/// The `u64` whose little-endian bytes are `b0 .. b7`.
pub open spec fn u64_from_le(b0: u8, b1: u8, b2: u8, b3: u8, b4: u8, b5: u8, b6: u8, b7: u8) -> u64 {
    (b0 as u64) | ((b1 as u64) << 8u64) | ((b2 as u64) << 16u64) | ((b3 as u64) << 24u64)
        | ((b4 as u64) << 32u64) | ((b5 as u64) << 40u64) | ((b6 as u64) << 48u64) | ((
    b7 as u64) << 56u64)
}

/// Decoding the little-endian bytes of a `u16` gives it back.
pub proof fn lemma_u16_le_roundtrip(x: u16)
    ensures
        u16_from_le(le_u16(x)[0], le_u16(x)[1]) == x,
{
    let b0 = (x & 0xff) as u8;
    let b1 = ((x >> 8u16) & 0xff) as u8;
    assert((b0 as u16) | ((b1 as u16) << 8u16) == x) by (bit_vector)
        requires
            b0 == (x & 0xff) as u8,
            b1 == ((x >> 8u16) & 0xff) as u8,
    ;
}

/// Decoding the little-endian bytes of a `u32` gives it back.
pub proof fn lemma_u32_le_roundtrip(x: u32)
    ensures
        u32_from_le(le_u32(x)[0], le_u32(x)[1], le_u32(x)[2], le_u32(x)[3]) == x,
{
    let b0 = (x & 0xff) as u8;
    let b1 = ((x >> 8u32) & 0xff) as u8;
    let b2 = ((x >> 16u32) & 0xff) as u8;
    let b3 = ((x >> 24u32) & 0xff) as u8;
    assert((b0 as u32) | ((b1 as u32) << 8u32) | ((b2 as u32) << 16u32) | ((b3 as u32) << 24u32)
        == x) by (bit_vector)
        requires
            b0 == (x & 0xff) as u8,
            b1 == ((x >> 8u32) & 0xff) as u8,
            b2 == ((x >> 16u32) & 0xff) as u8,
            b3 == ((x >> 24u32) & 0xff) as u8,
    ;
}

/// Decoding the little-endian bytes of a `u64` gives it back.
pub proof fn lemma_u64_le_roundtrip(x: u64)
    ensures
        ({
            let b = le_u64(x);
            u64_from_le(b[0], b[1], b[2], b[3], b[4], b[5], b[6], b[7]) == x
        }),
{
    let b0 = (x & 0xff) as u8;
    let b1 = ((x >> 8u64) & 0xff) as u8;
    let b2 = ((x >> 16u64) & 0xff) as u8;
    let b3 = ((x >> 24u64) & 0xff) as u8;
    let b4 = ((x >> 32u64) & 0xff) as u8;
    let b5 = ((x >> 40u64) & 0xff) as u8;
    let b6 = ((x >> 48u64) & 0xff) as u8;
    let b7 = ((x >> 56u64) & 0xff) as u8;
    assert((b0 as u64) | ((b1 as u64) << 8u64) | ((b2 as u64) << 16u64) | ((b3 as u64) << 24u64)
        | ((b4 as u64) << 32u64) | ((b5 as u64) << 40u64) | ((b6 as u64) << 48u64) | ((
    b7 as u64) << 56u64) == x) by (bit_vector)
        requires
            b0 == (x & 0xff) as u8,
            b1 == ((x >> 8u64) & 0xff) as u8,
            b2 == ((x >> 16u64) & 0xff) as u8,
            b3 == ((x >> 24u64) & 0xff) as u8,
            b4 == ((x >> 32u64) & 0xff) as u8,
            b5 == ((x >> 40u64) & 0xff) as u8,
            b6 == ((x >> 48u64) & 0xff) as u8,
            b7 == ((x >> 56u64) & 0xff) as u8,
    ;
}

/// Encoding the `u32` read from four bytes gives the same four bytes back.
pub proof fn lemma_u32_from_le_canonical(b0: u8, b1: u8, b2: u8, b3: u8)
    ensures
        le_u32(u32_from_le(b0, b1, b2, b3)) == seq![b0, b1, b2, b3],
{
    let x = u32_from_le(b0, b1, b2, b3);
    assert((x & 0xff) as u8 == b0 && ((x >> 8u32) & 0xff) as u8 == b1 && ((x >> 16u32) & 0xff)
        as u8 == b2 && ((x >> 24u32) & 0xff) as u8 == b3) by (bit_vector)
        requires
            x == (b0 as u32) | ((b1 as u32) << 8u32) | ((b2 as u32) << 16u32) | ((b3 as u32)
                << 24u32),
    ;
    assert(le_u32(x) =~= seq![b0, b1, b2, b3]);
}

/// The little-endian bytes of `x`.
pub fn u16_to_le(x: u16) -> (r: [u8; 2])
    ensures
        r@ == le_u16(x),
{
    let r = [(x & 0xff) as u8, ((x >> 8u16) & 0xff) as u8];
    assert(r@ =~= le_u16(x));
    r
}

/// The little-endian bytes of `x`.
pub fn u32_to_le(x: u32) -> (r: [u8; 4])
    ensures
        r@ == le_u32(x),
{
    let r = [
        (x & 0xff) as u8,
        ((x >> 8u32) & 0xff) as u8,
        ((x >> 16u32) & 0xff) as u8,
        ((x >> 24u32) & 0xff) as u8,
    ];
    assert(r@ =~= le_u32(x));
    r
}

/// The little-endian bytes of `x`.
pub fn u64_to_le(x: u64) -> (r: [u8; 8])
    ensures
        r@ == le_u64(x),
{
    let r = [
        (x & 0xff) as u8,
        ((x >> 8u64) & 0xff) as u8,
        ((x >> 16u64) & 0xff) as u8,
        ((x >> 24u64) & 0xff) as u8,
        ((x >> 32u64) & 0xff) as u8,
        ((x >> 40u64) & 0xff) as u8,
        ((x >> 48u64) & 0xff) as u8,
        ((x >> 56u64) & 0xff) as u8,
    ];
    assert(r@ =~= le_u64(x));
    r
}

/// Reads a little-endian `u16` from `bytes[at..at + 2]`.
pub fn read_u16_le(bytes: &[u8], at: usize) -> (r: u16)
    requires
        at + 2 <= bytes@.len(),
    ensures
        r == u16_from_le(bytes@[at as int], bytes@[at + 1]),
{
    (bytes[at] as u16) | ((bytes[at + 1] as u16) << 8u16)
}

/// Reads a little-endian `u32` from `bytes[at..at + 4]`.
pub fn read_u32_le(bytes: &[u8], at: usize) -> (r: u32)
    requires
        at + 4 <= bytes@.len(),
    ensures
        r == u32_from_le(bytes@[at as int], bytes@[at + 1], bytes@[at + 2], bytes@[at + 3]),
{
    (bytes[at] as u32) | ((bytes[at + 1] as u32) << 8u32) | ((bytes[at + 2] as u32) << 16u32)
        | ((bytes[at + 3] as u32) << 24u32)
}

/// Reads a little-endian `u64` from `bytes[at..at + 8]`.
pub fn read_u64_le(bytes: &[u8], at: usize) -> (r: u64)
    requires
        at + 8 <= bytes@.len(),
    ensures
        r == u64_from_le(
            bytes@[at as int],
            bytes@[at + 1],
            bytes@[at + 2],
            bytes@[at + 3],
            bytes@[at + 4],
            bytes@[at + 5],
            bytes@[at + 6],
            bytes@[at + 7],
        ),
{
    (bytes[at] as u64) | ((bytes[at + 1] as u64) << 8u64) | ((bytes[at + 2] as u64) << 16u64)
        | ((bytes[at + 3] as u64) << 24u64) | ((bytes[at + 4] as u64) << 32u64) | ((bytes[at
        + 5] as u64) << 40u64) | ((bytes[at + 6] as u64) << 48u64) | ((bytes[at + 7] as u64)
        << 56u64)
}

/// Law: little-endian digits. The bytes of `x` are its base-256 digits, lowest first.
pub proof fn lemma_le_digits(a: u16, x: u32, y: u64)
    ensures
        le_u16(a) == seq![(a % 256) as u8, (a / 256) as u8],
        le_u32(x) == seq![
            (x % 256) as u8,
            ((x / 256) % 256) as u8,
            ((x / 65536) % 256) as u8,
            (x / 16777216) as u8,
        ],
        le_u64(y) == seq![
            (y % 256) as u8,
            ((y / 0x100) % 256) as u8,
            ((y / 0x10000) % 256) as u8,
            ((y / 0x1000000) % 256) as u8,
            ((y / 0x100000000) % 256) as u8,
            ((y / 0x10000000000) % 256) as u8,
            ((y / 0x1000000000000) % 256) as u8,
            (y / 0x100000000000000) as u8,
        ],
{
    assert((a & 0xff) as u8 == (a % 256) as u8 && ((a >> 8u16) & 0xff) as u8 == (a / 256) as u8)
        by (bit_vector);
    assert((x & 0xff) as u8 == (x % 256) as u8 && ((x >> 8u32) & 0xff) as u8 == ((x / 256) % 256) as u8
        && ((x >> 16u32) & 0xff) as u8 == ((x / 65536) % 256) as u8 && ((x >> 24u32) & 0xff) as u8
        == (x / 16777216) as u8) by (bit_vector);
    assert((y & 0xff) as u8 == (y % 256) as u8 && ((y >> 8u64) & 0xff) as u8 == ((y / 0x100) % 256) as u8
        && ((y >> 16u64) & 0xff) as u8 == ((y / 0x10000) % 256) as u8 && ((y >> 24u64) & 0xff) as u8
        == ((y / 0x1000000) % 256) as u8) by (bit_vector);
    assert(((y >> 32u64) & 0xff) as u8 == ((y / 0x100000000) % 256) as u8 && ((y >> 40u64) & 0xff) as u8
        == ((y / 0x10000000000) % 256) as u8 && ((y >> 48u64) & 0xff) as u8 == ((y / 0x1000000000000)
        % 256) as u8 && ((y >> 56u64) & 0xff) as u8 == (y / 0x100000000000000) as u8) by (bit_vector);
    assert(le_u16(a) =~= seq![(a % 256) as u8, (a / 256) as u8]);
}

} // verus!
