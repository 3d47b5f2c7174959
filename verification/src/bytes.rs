//! Little-endian integer encoding and byte-region updates.

use vstd::prelude::*;

verus! {

/// The four little-endian bytes of `x`.
pub open spec fn le_bytes_u32(x: u32) -> Seq<u8> {
    seq![x as u8, (x >> 8u32) as u8, (x >> 16u32) as u8, (x >> 24u32) as u8]
}

/// The eight little-endian bytes of `x`.
pub open spec fn le_bytes_u64(x: u64) -> Seq<u8> {
    seq![
        x as u8,
        (x >> 8u64) as u8,
        (x >> 16u64) as u8,
        (x >> 24u64) as u8,
        (x >> 32u64) as u8,
        (x >> 40u64) as u8,
        (x >> 48u64) as u8,
        (x >> 56u64) as u8,
    ]
}

/// The value of four little-endian bytes.
pub open spec fn le_u32(b0: u8, b1: u8, b2: u8, b3: u8) -> u32 {
    (b0 as u32) | ((b1 as u32) << 8u32) | ((b2 as u32) << 16u32) | ((b3 as u32) << 24u32)
}

/// The value of eight little-endian bytes.
pub open spec fn le_u64(b: Seq<u8>) -> u64 {
    (b[0] as u64) | ((b[1] as u64) << 8u64) | ((b[2] as u64) << 16u64) | ((b[3] as u64) << 24u64)
        | ((b[4] as u64) << 32u64) | ((b[5] as u64) << 40u64) | ((b[6] as u64) << 48u64) | ((
    b[7] as u64) << 56u64)
}

/// The `u32` stored little-endian at `offset` of `region`.
pub open spec fn read_le_u32(region: Seq<u8>, offset: int) -> u32 {
    le_u32(region[offset], region[offset + 1], region[offset + 2], region[offset + 3])
}

/// The `u64` stored little-endian at `offset` of `region`.
pub open spec fn read_le_u64(region: Seq<u8>, offset: int) -> u64 {
    le_u64(region.subrange(offset, offset + 8))
}

/// Little-endian order: the first byte counts ones, each later byte 256 times
/// the one before it.
pub proof fn law_little_endian_place_values(b0: u8, b1: u8, b2: u8, b3: u8, b: Seq<u8>)
    requires
        b.len() == 8,
    ensures
        le_u32(b0, b1, b2, b3) as int == b0 + 0x100 * b1 + 0x1_0000 * b2 + 0x100_0000 * b3,
        le_u64(b) as int == b[0] + 0x100 * b[1] + 0x1_0000 * b[2] + 0x100_0000 * b[3]
            + 0x1_0000_0000 * b[4] + 0x100_0000_0000 * b[5] + 0x1_0000_0000_0000 * b[6]
            + 0x100_0000_0000_0000 * b[7],
{
    assert((b0 as u32) | ((b1 as u32) << 8u32) | ((b2 as u32) << 16u32) | ((b3 as u32) << 24u32)
        == b0 as u32 + 0x100u32 * b1 as u32 + 0x1_0000u32 * b2 as u32 + 0x100_0000u32 * b3 as u32)
        by (bit_vector);
    let (c0, c1, c2, c3, c4, c5, c6, c7) = (b[0], b[1], b[2], b[3], b[4], b[5], b[6], b[7]);
    assert((c0 as u64) | ((c1 as u64) << 8u64) | ((c2 as u64) << 16u64) | ((c3 as u64) << 24u64)
        | ((c4 as u64) << 32u64) | ((c5 as u64) << 40u64) | ((c6 as u64) << 48u64) | ((c7 as u64)
        << 56u64) == c0 as u64 + 0x100u64 * c1 as u64 + 0x1_0000u64 * c2 as u64 + 0x100_0000u64
        * c3 as u64 + 0x1_0000_0000u64 * c4 as u64 + 0x100_0000_0000u64 * c5 as u64
        + 0x1_0000_0000_0000u64 * c6 as u64 + 0x100_0000_0000_0000u64 * c7 as u64) by (bit_vector);
}

/// Reading back the little-endian bytes of a `u32` gives it again.
pub proof fn lemma_le_u32_roundtrip(x: u32)
    ensures
        le_u32(x as u8, (x >> 8u32) as u8, (x >> 16u32) as u8, (x >> 24u32) as u8) == x,
{
    assert(((x as u8) as u32) | ((((x >> 8u32) as u8) as u32) << 8u32) | ((((x >> 16u32) as u8)
        as u32) << 16u32) | ((((x >> 24u32) as u8) as u32) << 24u32) == x) by (bit_vector);
}

/// Reading back the little-endian bytes of a `u64` gives it again.
pub proof fn lemma_le_u64_roundtrip(x: u64)
    ensures
        le_u64(le_bytes_u64(x)) == x,
{
    let b = le_bytes_u64(x);
    assert(b[0] == x as u8 && b[1] == (x >> 8u64) as u8 && b[2] == (x >> 16u64) as u8 && b[3] == (x
        >> 24u64) as u8 && b[4] == (x >> 32u64) as u8 && b[5] == (x >> 40u64) as u8 && b[6] == (x
        >> 48u64) as u8 && b[7] == (x >> 56u64) as u8);
    assert(((x as u8) as u64) | ((((x >> 8u64) as u8) as u64) << 8u64) | ((((x >> 16u64) as u8)
        as u64) << 16u64) | ((((x >> 24u64) as u8) as u64) << 24u64) | ((((x >> 32u64) as u8)
        as u64) << 32u64) | ((((x >> 40u64) as u8) as u64) << 40u64) | ((((x >> 48u64) as u8)
        as u64) << 48u64) | ((((x >> 56u64) as u8) as u64) << 56u64) == x) by (bit_vector);
}

/// Encodes `x` as four little-endian bytes.
pub fn u32_to_le(x: u32) -> (r: Vec<u8>)
    ensures
        r@ == le_bytes_u32(x),
{
    let mut r: Vec<u8> = Vec::new();
    r.push(x as u8);
    r.push((x >> 8u32) as u8);
    r.push((x >> 16u32) as u8);
    r.push((x >> 24u32) as u8);
    assert(r@ =~= le_bytes_u32(x));
    r
}

/// Encodes `x` as eight little-endian bytes.
pub fn u64_to_le(x: u64) -> (r: Vec<u8>)
    ensures
        r@ == le_bytes_u64(x),
{
    let mut r: Vec<u8> = Vec::new();
    r.push(x as u8);
    r.push((x >> 8u64) as u8);
    r.push((x >> 16u64) as u8);
    r.push((x >> 24u64) as u8);
    r.push((x >> 32u64) as u8);
    r.push((x >> 40u64) as u8);
    r.push((x >> 48u64) as u8);
    r.push((x >> 56u64) as u8);
    assert(r@ =~= le_bytes_u64(x));
    r
}

/// Reads the little-endian `u32` at `offset` of `region`.
pub fn read_u32(region: &[u8], offset: usize) -> (r: u32)
    requires
        offset + 4 <= region@.len(),
    ensures
        r == read_le_u32(region@, offset as int),
{
    (region[offset] as u32) | ((region[offset + 1] as u32) << 8u32) | ((region[offset + 2] as u32)
        << 16u32) | ((region[offset + 3] as u32) << 24u32)
}

/// Reads the little-endian `u64` at `offset` of `region`.
pub fn read_u64(region: &[u8], offset: usize) -> (r: u64)
    requires
        offset + 8 <= region@.len(),
    ensures
        r == read_le_u64(region@, offset as int),
{
    let ghost s = region@.subrange(offset as int, offset + 8);
    assert(s[0] == region@[offset as int] && s[1] == region@[offset + 1] && s[2] == region@[offset
        + 2] && s[3] == region@[offset + 3] && s[4] == region@[offset + 4] && s[5] == region@[offset
        + 5] && s[6] == region@[offset + 6] && s[7] == region@[offset + 7]);
    (region[offset] as u64) | ((region[offset + 1] as u64) << 8u64) | ((region[offset + 2] as u64)
        << 16u64) | ((region[offset + 3] as u64) << 24u64) | ((region[offset + 4] as u64) << 32u64)
        | ((region[offset + 5] as u64) << 40u64) | ((region[offset + 6] as u64) << 48u64) | ((
    region[offset + 7] as u64) << 56u64)
}

/// One write of `bytes` into a byte region, starting at `offset`.
pub struct RegionWrite {
    pub offset: usize,
    pub bytes: Vec<u8>,
}

/// `region` with `bytes` written at `offset`.
pub open spec fn splice(region: Seq<u8>, offset: int, bytes: Seq<u8>) -> Seq<u8> {
    region.take(offset) + bytes + region.skip(offset + bytes.len())
}

/// `region` after each of `writes`, in order.
pub open spec fn apply_writes(region: Seq<u8>, writes: Seq<RegionWrite>) -> Seq<u8>
    decreases writes.len(),
{
    if writes.len() == 0 {
        region
    } else {
        let w = writes.last();
        splice(apply_writes(region, writes.drop_last()), w.offset as int, w.bytes@)
    }
}

/// The bytes of a region after one write: the written bytes inside the
/// written range, the old bytes elsewhere.
pub proof fn lemma_splice(region: Seq<u8>, offset: int, bytes: Seq<u8>)
    requires
        0 <= offset,
        offset + bytes.len() <= region.len(),
    ensures
        splice(region, offset, bytes).len() == region.len(),
        forall|i: int|
            0 <= i < region.len() ==> #[trigger] splice(region, offset, bytes)[i] == if offset <= i
                < offset + bytes.len() {
                bytes[i - offset]
            } else {
                region[i]
            },
{
    let s = splice(region, offset, bytes);
    assert forall|i: int| 0 <= i < region.len() implies #[trigger] s[i] == if offset <= i < offset
        + bytes.len() {
        bytes[i - offset]
    } else {
        region[i]
    } by {
        if i < offset {
            assert(s[i] == region.take(offset)[i]);
        } else if i < offset + bytes.len() {
            assert(s[i] == (region.take(offset) + bytes)[i]);
        } else {
            assert(s[i] == region.skip(offset + bytes.len())[i - offset - bytes.len()]);
        }
    }
}

impl RegionWrite {
    /// Copies this write's bytes into `region` at its offset.
    pub fn apply(&self, region: &mut [u8])
        requires
            self.offset + self.bytes@.len() <= old(region)@.len(),
        ensures
            final(region)@ == splice(old(region)@, self.offset as int, self.bytes@),
    {
        let n = self.bytes.len();
        let region_len = region.len();
        let mut i: usize = 0;
        while i < n
            invariant
                n == self.bytes@.len(),
                region_len == region@.len(),
                i <= n,
                self.offset + n <= region@.len(),
                region@.len() == old(region)@.len(),
                forall|j: int| 0 <= j < self.offset ==> region@[j] == old(region)@[j],
                forall|j: int| self.offset + n <= j < region@.len() ==> region@[j] == old(region)@[j],
                forall|j: int| 0 <= j < i ==> region@[self.offset + j] == self.bytes@[j],
            decreases n - i,
        {
            region[self.offset + i] = self.bytes[i];
            i = i + 1;
        }
        assert(region@ =~= splice(old(region)@, self.offset as int, self.bytes@));
    }
}

} // verus!
