//! Little-endian fields inside byte buffers (sectors, descriptors, firmware tables).
use vstd::prelude::*;

verus! {

/// The 16-bit little-endian value at `i`.
pub open spec fn le16(d: Seq<u8>, i: int) -> nat {
    d[i] as nat + 256 * d[i + 1] as nat
}

/// The 32-bit little-endian value at `i`.
pub open spec fn le32(d: Seq<u8>, i: int) -> nat {
    le16(d, i) + 65536 * le16(d, i + 2)
}

/// The 64-bit little-endian value at `i`.
pub open spec fn le64(d: Seq<u8>, i: int) -> nat {
    le32(d, i) + 0x1_0000_0000 * le32(d, i + 4)
}

pub fn get_le16(d: &[u8], off: usize) -> (r: u16)
    requires
        off + 2 <= d@.len(),
    ensures
        r as nat == le16(d@, off as int),
{
    let _n = d.len();
    d[off] as u16 + 256 * (d[off + 1] as u16)
}

pub fn get_le32(d: &[u8], off: usize) -> (r: u32)
    requires
        off + 4 <= d@.len(),
    ensures
        r as nat == le32(d@, off as int),
{
    let _n = d.len();
    let lo = get_le16(d, off) as u32;
    let hi = get_le16(d, off + 2) as u32;
    lo + 65536 * hi
}

pub fn get_le64(d: &[u8], off: usize) -> (r: u64)
    requires
        off + 8 <= d@.len(),
    ensures
        r as nat == le64(d@, off as int),
{
    let _n = d.len();
    let lo = get_le32(d, off) as u64;
    let hi = get_le32(d, off + 4) as u64;
    lo + 0x1_0000_0000 * hi
}

/// `d` with the four bytes at `off` replaced by `x` in little-endian order.
pub open spec fn with_le32(d: Seq<u8>, off: int, x: u32) -> Seq<u8> {
    d.update(off, (x % 256) as u8)
        .update(off + 1, (x / 256 % 256) as u8)
        .update(off + 2, (x / 65536 % 256) as u8)
        .update(off + 3, (x / 16777216) as u8)
}

/// `d` with the eight bytes at `off` replaced by `x` in little-endian order.
pub open spec fn with_le64(d: Seq<u8>, off: int, x: u64) -> Seq<u8> {
    with_le32(with_le32(d, off, (x % 0x1_0000_0000) as u32), off + 4, (x / 0x1_0000_0000) as u32)
}

/// Stores `x` at `off` in little-endian order.
pub fn set_le32(d: &mut Vec<u8>, off: usize, x: u32)
    requires
        off + 4 <= old(d)@.len(),
    ensures
        final(d)@ == with_le32(old(d)@, off as int, x),
{
    let _n = d.len();
    d.set(off, (x % 256) as u8);
    d.set(off + 1, (x / 256 % 256) as u8);
    d.set(off + 2, (x / 65536 % 256) as u8);
    d.set(off + 3, (x / 16777216) as u8);
}

/// Stores `x` at `off` in little-endian order.
pub fn set_le64(d: &mut Vec<u8>, off: usize, x: u64)
    requires
        off + 8 <= old(d)@.len(),
    ensures
        final(d)@ == with_le64(old(d)@, off as int, x),
{
    let _n = d.len();
    set_le32(d, off, (x % 0x1_0000_0000) as u32);
    set_le32(d, off + 4, (x / 0x1_0000_0000) as u32);
}

/// What is stored by `with_le32` reads back.
pub proof fn lemma_le32_roundtrip(d: Seq<u8>, off: int, x: u32)
    requires
        0 <= off,
        off + 4 <= d.len(),
    ensures
        le32(with_le32(d, off, x), off) == x,
        with_le32(d, off, x).len() == d.len(),
        forall|k: int| 0 <= k < d.len() && !(off <= k < off + 4) ==> #[trigger] with_le32(d, off, x)[k] == d[k],
{
    let e = with_le32(d, off, x);
    assert(e[off] == x % 256);
    assert(e[off + 1] == x / 256 % 256);
    assert(e[off + 2] == x / 65536 % 256);
    assert(e[off + 3] == x / 16777216);
    assert(x % 256 + 256 * (x / 256 % 256) + 65536 * (x / 65536 % 256 + 256 * (x / 16777216)) == x) by (nonlinear_arith)
        requires 0 <= x < 0x1_0000_0000;
}

/// What is stored by `with_le64` reads back.
pub proof fn lemma_le64_roundtrip(d: Seq<u8>, off: int, x: u64)
    requires
        0 <= off,
        off + 8 <= d.len(),
    ensures
        le64(with_le64(d, off, x), off) == x,
        with_le64(d, off, x).len() == d.len(),
        forall|k: int| 0 <= k < d.len() && !(off <= k < off + 8) ==> #[trigger] with_le64(d, off, x)[k] == d[k],
{
    let lo = (x % 0x1_0000_0000) as u32;
    let hi = (x / 0x1_0000_0000) as u32;
    let d1 = with_le32(d, off, lo);
    lemma_le32_roundtrip(d, off, lo);
    lemma_le32_roundtrip(d1, off + 4, hi);
    let d2 = with_le32(d1, off + 4, hi);
    assert(le32(d2, off) == le32(d1, off)) by {
        assert(d2[off] == d1[off]);
        assert(d2[off + 1] == d1[off + 1]);
        assert(d2[off + 2] == d1[off + 2]);
        assert(d2[off + 3] == d1[off + 3]);
    }
    assert(lo + 0x1_0000_0000 * hi == x) by (nonlinear_arith)
        requires lo == x % 0x1_0000_0000, hi == x / 0x1_0000_0000;
}

} // verus!
