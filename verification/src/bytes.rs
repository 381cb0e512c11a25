//! Little-endian readers and writers over byte buffers, with exact
//! mathematical contracts.  All PE header fields are read through these.

use vstd::prelude::*;

verus! {

/// Little-endian value of the two bytes at `i`.
pub open spec fn le16(b: Seq<u8>, i: int) -> int {
    b[i] + 0x100 * b[i + 1]
}

/// Little-endian value of the four bytes at `i`.
pub open spec fn le32(b: Seq<u8>, i: int) -> int {
    b[i] + 0x100 * b[i + 1] + 0x1_0000 * b[i + 2] + 0x100_0000 * b[i + 3]
}

/// Little-endian value of the eight bytes at `i`.
pub open spec fn le64(b: Seq<u8>, i: int) -> int {
    le32(b, i) + 0x1_0000_0000 * le32(b, i + 4)
}

pub fn read_u16(b: &[u8], i: usize) -> (r: u16)
    requires
        i + 2 <= b@.len(),
    ensures
        r as int == le16(b@, i as int),
{
    b[i] as u16 + (b[i + 1] as u16) * 0x100
}

pub fn read_u32(b: &[u8], i: usize) -> (r: u32)
    requires
        i + 4 <= b@.len(),
    ensures
        r as int == le32(b@, i as int),
{
    b[i] as u32 + (b[i + 1] as u32) * 0x100 + (b[i + 2] as u32) * 0x1_0000 + (b[i + 3] as u32)
        * 0x100_0000
}

pub fn read_u64(b: &[u8], i: usize) -> (r: u64)
    requires
        i + 8 <= b@.len(),
    ensures
        r as int == le64(b@, i as int),
{
    let n = b.len();
    assert(i + 8 <= n);
    read_u32(b, i) as u64 + (read_u32(b, i + 4) as u64) * 0x1_0000_0000
}

/// The eight little-endian bytes of `v`.
pub open spec fn u64_le_bytes(v: u64) -> Seq<u8> {
    Seq::new(8, |k: int| (v >> (8 * k)) as u8)
}

/// `m` with the range starting at `off` overwritten by `s`; everything else
/// keeps its old value.
pub open spec fn splice(m: Seq<u8>, off: int, s: Seq<u8>) -> Seq<u8> {
    Seq::new(m.len(), |j: int| if off <= j && j < off + s.len() { s[j - off] } else { m[j] })
}

/// Writes `v` little-endian into the eight bytes at `i`.
pub fn write_u64_at(m: &mut Vec<u8>, i: usize, v: u64)
    requires
        i + 8 <= old(m)@.len(),
        old(m)@.len() <= usize::MAX,
    ensures
        final(m)@ == splice(old(m)@, i as int, u64_le_bytes(v)),
{
    m[i] = #[verifier::truncate] (v as u8);
    m[i + 1] = #[verifier::truncate] ((v >> 8) as u8);
    m[i + 2] = #[verifier::truncate] ((v >> 16) as u8);
    m[i + 3] = #[verifier::truncate] ((v >> 24) as u8);
    m[i + 4] = #[verifier::truncate] ((v >> 32) as u8);
    m[i + 5] = #[verifier::truncate] ((v >> 40) as u8);
    m[i + 6] = #[verifier::truncate] ((v >> 48) as u8);
    m[i + 7] = #[verifier::truncate] ((v >> 56) as u8);
    assert(m@ =~= splice(old(m)@, i as int, u64_le_bytes(v))) by {
        assert(v >> 0u64 == v) by (bit_vector);
    };
}

} // verus!
