//! Little-endian integers, byte-string comparison and UTF-8 text.
use vstd::prelude::*;
use byteorder::ByteOrder;
use vstd::string::StringSliceAdditionalSpecFns;

verus! {

/// The value of the first four bytes of `b`, least significant first.
pub open spec fn le_u32(b: Seq<u8>) -> int {
    b[0] as int + 0x100 * b[1] as int + 0x1_0000 * b[2] as int + 0x100_0000 * b[3] as int
}

/// The value of the first eight bytes of `b`, least significant first.
pub open spec fn le_u64(b: Seq<u8>) -> int {
    le_u32(b) + 0x1_0000_0000 * le_u32(b.subrange(4, 8))
}

/// A timestamp stored as two little-endian `u32` (seconds, then nanoseconds),
/// in nanoseconds.
pub open spec fn time_of(b: Seq<u8>) -> int {
    1_000_000_000 * le_u32(b) + le_u32(b.subrange(4, 8))
}

/// The four bytes that encode `x` little-endian.
pub open spec fn le_bytes_u32(x: int) -> Seq<u8> {
    seq![
        (x % 0x100) as u8,
        ((x / 0x100) % 0x100) as u8,
        ((x / 0x1_0000) % 0x100) as u8,
        ((x / 0x100_0000) % 0x100) as u8,
    ]
}

/// Encoding the value of four bytes gives the bytes back.
pub proof fn lemma_le_bytes_u32_of(b: Seq<u8>)
    requires
        b.len() == 4,
    ensures
        le_bytes_u32(le_u32(b)) == b,
{
    let b0 = b[0] as int;
    let b1 = b[1] as int;
    let b2 = b[2] as int;
    let b3 = b[3] as int;
    let x = le_u32(b);
    assert(x % 0x100 == b0 && (x / 0x100) % 0x100 == b1 && (x / 0x1_0000) % 0x100 == b2
        && (x / 0x100_0000) % 0x100 == b3) by (nonlinear_arith)
        requires
            x == b0 + 0x100 * b1 + 0x1_0000 * b2 + 0x100_0000 * b3,
            0 <= b0 < 0x100,
            0 <= b1 < 0x100,
            0 <= b2 < 0x100,
            0 <= b3 < 0x100,
    ;
    assert(le_bytes_u32(x) =~= b);
}

/// Relies on `byteorder::LittleEndian::read_u32`: the first four bytes, least
/// significant first (it panics on fewer than four).
#[verifier::external_body]
pub(crate) fn read_u32_le(b: &[u8]) -> (r: u32)
    requires
        b@.len() >= 4,
    ensures
        r == le_u32(b@),
{
    byteorder::LittleEndian::read_u32(b)
}

/// Relies on `byteorder::LittleEndian::read_u64`: the first eight bytes, least
/// significant first (it panics on fewer than eight).
#[verifier::external_body]
pub(crate) fn read_u64_le(b: &[u8]) -> (r: u64)
    requires
        b@.len() >= 8,
    ensures
        r == le_u64(b@),
{
    byteorder::LittleEndian::read_u64(b)
}

/// Relies on `std::str::from_utf8`: `Some` exactly when the bytes are valid
/// UTF-8, and then a string with those bytes.
#[verifier::external_body]
pub(crate) fn utf8_text<'a>(b: &'a [u8]) -> (r: Option<&'a str>)
    ensures
        r is Some <==> vstd::utf8::valid_utf8(b@),
        r matches Some(s) ==> s.spec_bytes() == b@,
{
    std::str::from_utf8(b).ok()
}

/// Compares two byte strings.
pub fn bytes_eq(a: &[u8], b: &[u8]) -> (r: bool)
    ensures
        r == (a@ == b@),
{
    if a.len() != b.len() {
        return false;
    }
    let mut i: usize = 0;
    while i < a.len()
        invariant
            a@.len() == b@.len(),
            0 <= i <= a@.len(),
            a@.subrange(0, i as int) == b@.subrange(0, i as int),
        decreases a@.len() - i,
    {
        if a[i] != b[i] {
            assert(a@[i as int] != b@[i as int]);
            return false;
        }
        assert(a@.subrange(0, i + 1) == a@.subrange(0, i as int).push(a@[i as int]));
        assert(b@.subrange(0, i + 1) == b@.subrange(0, i as int).push(b@[i as int]));
        i = i + 1;
    }
    assert(a@ == a@.subrange(0, a@.len() as int));
    assert(b@ == b@.subrange(0, b@.len() as int));
    true
}

/// Tells whether `a` holds exactly the bytes of the text `s`.
pub fn bytes_are(a: &[u8], s: &str) -> (r: bool)
    ensures
        r == (a@ == s.spec_bytes()),
{
    bytes_eq(a, s.as_bytes())
}

} // verus!
