//! The shared-memory feed protocols: a frame feed carrying RGB frames, an
//! input feed carrying key events and an audio feed carrying sample blocks.
//!
//! Each feed is one byte region with a fixed 32-byte header followed by the
//! payload. A writer describes its update as a list of region writes: the data
//! writes first, then the single write that publishes the new generation
//! counter, which must become visible after the data writes. A reader compares
//! the published generation with the last one it consumed, then checks the
//! header, copies the payload and reads the generation again to detect a write
//! that raced with the copy.

use vstd::prelude::*;
use crate::bytes::{
    apply_writes, lemma_le_u32_roundtrip, lemma_le_u64_roundtrip, lemma_splice, le_u32, splice,
    le_bytes_u32, le_bytes_u64, read_le_u32, read_le_u64, read_u32, read_u64, u32_to_le, u64_to_le,
    RegionWrite,
};

verus! {

pub const DEFAULT_FEED_CAPACITY: usize = 16 * 1024 * 1024;
pub const DEFAULT_INPUT_CAPACITY: usize = 4096;
pub const DEFAULT_AUDIO_CAPACITY: usize = 4 * 1024 * 1024;

pub const FRAME_WIDTH_OFFSET: usize = 4;
pub const FRAME_HEIGHT_OFFSET: usize = 8;
pub const FRAME_LEN_OFFSET: usize = 12;
pub const FRAME_GENERATION_OFFSET: usize = 16;
pub const FRAME_HEADER_SIZE: usize = 32;

/// The frame feed's magic bytes, `RBF1`.
pub open spec fn frame_magic() -> Seq<u8> {
    seq![0x52u8, 0x42u8, 0x46u8, 0x31u8]
}

/// Why a feed operation was refused.
#[derive(Debug, Clone, PartialEq, Eq)]
pub enum FeedError {
    /// The feed's capacity cannot hold its header.
    CapacityTooSmall { capacity: usize },
    /// A frame with a zero width or height.
    EmptyFrame,
    /// The pixel data does not hold `width * height * 3` bytes.
    PixelLengthMismatch { len: usize, width: u32, height: u32, expected: usize },
    /// Header and payload together exceed the feed's capacity.
    PayloadTooLarge { total: usize, capacity: usize },
    /// An input event longer than the input feed's payload area.
    EventTooLarge { len: usize, payload: usize },
    /// An audio event without a sample rate or without samples.
    EmptyAudio,
    /// The mapped feed is shorter than its header.
    RegionTooSmall { len: usize },
    /// The mapped feed does not start with the feed's magic bytes.
    MissingMagic,
    /// The header announces a payload that runs past the end of the mapping.
    LengthExceedsRegion { len: usize, region: usize },
    /// The header's frame length disagrees with its dimensions.
    FrameLengthMismatch { len: usize, width: u32, height: u32 },
    /// The header's audio length disagrees with its sample count.
    AudioLengthMismatch { len: usize, count: usize },
}

/// One published update of a feed: the data writes, then the generation write.
pub struct FeedUpdate {
    pub data: Vec<RegionWrite>,
    pub publish: RegionWrite,
}

impl FeedUpdate {
    /// All writes of the update in the order they take effect.
    pub open spec fn writes(self) -> Seq<RegionWrite> {
        self.data@.push(self.publish)
    }
}

/// The generation that follows `g`, wrapping at `u64::MAX`.
pub open spec fn next_generation(g: u64) -> u64 {
    if g == u64::MAX {
        0
    } else {
        (g + 1) as u64
    }
}

proof fn lemma_u32_product_bound(a: u32, b: u32)
    ensures
        a as int * b as int <= 0xffff_ffff_ffff_ffff_ffff_ffff_ffff,
{
    assert(a as int * b as int <= 0xffff_ffff as int * 0xffff_ffff as int) by (nonlinear_arith)
        requires
            a <= 0xffff_ffff,
            b <= 0xffff_ffff,
    ;
}

/// The generation a writer continues from on a region whose header is
/// `header`: the one stored at `offset` when the header starts with `magic`,
/// 0 otherwise.
pub open spec fn resumed_generation(header: Seq<u8>, magic: Seq<u8>, offset: int) -> u64 {
    if header.take(4) == magic {
        read_le_u64(header, offset)
    } else {
        0
    }
}

/// A writer opened again on a feed publishes a generation that differs from
/// the one the feed holds: readers that consumed the stored generation see
/// the next write as new.
pub proof fn law_reopened_writer_publishes_new_generation(header: Seq<u8>, magic: Seq<u8>, offset: int)
    ensures
        next_generation(resumed_generation(header, magic, offset)) != resumed_generation(
            header,
            magic,
            offset,
        ),
{
}

/// `Ok` exactly when `capacity` can hold a header of `header_size` bytes.
pub fn require_capacity(capacity: usize, header_size: usize) -> (r: Result<(), FeedError>)
    ensures
        r == (if capacity < header_size {
            Err(FeedError::CapacityTooSmall { capacity })
        } else {
            Ok(())
        }),
{
    if capacity < header_size {
        Err(FeedError::CapacityTooSmall { capacity })
    } else {
        Ok(())
    }
}

fn magic_bytes(b0: u8, b1: u8, b2: u8, b3: u8) -> (r: Vec<u8>)
    ensures
        r@ == seq![b0, b1, b2, b3],
{
    let mut r: Vec<u8> = Vec::new();
    r.push(b0);
    r.push(b1);
    r.push(b2);
    r.push(b3);
    assert(r@ =~= seq![b0, b1, b2, b3]);
    r
}

fn zeros(n: usize) -> (r: Vec<u8>)
    ensures
        r@ == Seq::new(n as nat, |i: int| 0u8),
{
    let mut r: Vec<u8> = Vec::new();
    let mut i: usize = 0;
    while i < n
        invariant
            i <= n,
            r@ == Seq::new(i as nat, |k: int| 0u8),
        decreases n - i,
    {
        r.push(0u8);
        i = i + 1;
        assert(r@ =~= Seq::new(i as nat, |k: int| 0u8));
    }
    r
}

fn copy_bytes(data: &[u8]) -> (r: Vec<u8>)
    ensures
        r@ == data@,
{
    let mut r: Vec<u8> = Vec::new();
    let n = data.len();
    let mut i: usize = 0;
    while i < n
        invariant
            n == data@.len(),
            i <= n,
            r@ == data@.take(i as int),
        decreases n - i,
    {
        r.push(data[i]);
        i = i + 1;
        assert(r@ =~= data@.take(i as int));
    }
    assert(data@.take(n as int) =~= data@);
    r
}

fn starts_with_magic(prefix: &[u8], b0: u8, b1: u8, b2: u8, b3: u8) -> (r: bool)
    requires
        prefix@.len() >= 4,
    ensures
        r == (prefix@.take(4) == seq![b0, b1, b2, b3]),
{
    let r = prefix[0] == b0 && prefix[1] == b1 && prefix[2] == b2 && prefix[3] == b3;
    assert(r ==> prefix@.take(4) =~= seq![b0, b1, b2, b3]);
    assert(prefix@.take(4) == seq![b0, b1, b2, b3] ==> prefix@.take(4)[0] == b0
        && prefix@.take(4)[1] == b1 && prefix@.take(4)[2] == b2 && prefix@.take(4)[3] == b3);
    r
}

/// An RGB frame: `width * height` pixels of three bytes each, row by row.
#[derive(Debug, Clone)]
pub struct FrameData {
    pub width: u32,
    pub height: u32,
    pub pixels: Vec<u8>,
}

/// The writes that mark a fresh region as a frame feed, given its first four
/// bytes: nothing when the magic is already there, otherwise the magic and a
/// zeroed header.
pub open spec fn frame_init_ok(prefix: Seq<u8>, writes: Seq<RegionWrite>) -> bool {
    if prefix.take(4) == frame_magic() {
        writes.len() == 0
    } else {
        &&& writes.len() == 5
        &&& writes[0].offset == 0 && writes[0].bytes@ == frame_magic()
        &&& writes[1].offset == FRAME_WIDTH_OFFSET && writes[1].bytes@ == Seq::new(4, |i: int| 0u8)
        &&& writes[2].offset == FRAME_HEIGHT_OFFSET && writes[2].bytes@ == Seq::new(4, |i: int| 0u8)
        &&& writes[3].offset == FRAME_LEN_OFFSET && writes[3].bytes@ == Seq::new(4, |i: int| 0u8)
        &&& writes[4].offset == FRAME_GENERATION_OFFSET && writes[4].bytes@ == Seq::new(
            8,
            |i: int| 0u8,
        )
    }
}

/// The writes of one frame update: magic, width, height, the length truncated
/// to 32 bits, the pixels after the header, then the new generation.
pub open spec fn frame_update_ok(u: FeedUpdate, width: u32, height: u32, rgb: Seq<u8>, generation: u64) -> bool {
    &&& u.data@.len() == 5
    &&& u.data@[0].offset == 0 && u.data@[0].bytes@ == frame_magic()
    &&& u.data@[1].offset == FRAME_WIDTH_OFFSET && u.data@[1].bytes@ == le_bytes_u32(width)
    &&& u.data@[2].offset == FRAME_HEIGHT_OFFSET && u.data@[2].bytes@ == le_bytes_u32(height)
    &&& u.data@[3].offset == FRAME_LEN_OFFSET && u.data@[3].bytes@ == le_bytes_u32(rgb.len() as u32)
    &&& u.data@[4].offset == FRAME_HEADER_SIZE && u.data@[4].bytes@ == rgb
    &&& u.publish.offset == FRAME_GENERATION_OFFSET && u.publish.bytes@ == le_bytes_u64(generation)
}

/// The writing side of a frame feed of a given capacity.
pub struct FrameFeedWriter {
    capacity: usize,
    generation: u64,
}

impl FrameFeedWriter {
    pub closed spec fn spec_capacity(&self) -> usize {
        self.capacity
    }

    pub closed spec fn spec_generation(&self) -> u64 {
        self.generation
    }

    /// A writer for a feed of `capacity` bytes whose mapped region starts
    /// with `header`. It continues from the generation the header holds when
    /// the feed is already marked with its magic bytes, so that a writer that
    /// is opened again keeps publishing generations its readers have not
    /// seen; on an unmarked region, whose header the initial writes zero, it
    /// starts at 0.
    pub fn open(capacity: usize, header: &[u8]) -> (r: Result<Self, FeedError>)
        requires
            capacity >= FRAME_HEADER_SIZE ==> header@.len() >= FRAME_HEADER_SIZE,
        ensures
            capacity < FRAME_HEADER_SIZE ==> r == Err::<Self, FeedError>(
                FeedError::CapacityTooSmall { capacity },
            ),
            capacity >= FRAME_HEADER_SIZE ==> (r matches Ok(w) && w.spec_capacity() == capacity
                && w.spec_generation() == resumed_generation(
                header@,
                frame_magic(),
                FRAME_GENERATION_OFFSET as int,
            )),
    {
        match require_capacity(capacity, FRAME_HEADER_SIZE) {
            Err(e) => Err(e),
            Ok(()) => {
                let generation = if starts_with_magic(header, 0x52, 0x42, 0x46, 0x31) {
                    read_u64(header, FRAME_GENERATION_OFFSET)
                } else {
                    0
                };
                Ok(FrameFeedWriter { capacity, generation })
            },
        }
    }

    /// The writes that prepare a freshly mapped region whose first four bytes
    /// are `prefix`.
    pub fn initial_writes(prefix: &[u8]) -> (r: Vec<RegionWrite>)
        requires
            prefix@.len() >= 4,
        ensures
            frame_init_ok(prefix@, r@),
    {
        let mut r: Vec<RegionWrite> = Vec::new();
        if !starts_with_magic(prefix, 0x52, 0x42, 0x46, 0x31) {
            r.push(RegionWrite { offset: 0, bytes: magic_bytes(0x52, 0x42, 0x46, 0x31) });
            r.push(RegionWrite { offset: FRAME_WIDTH_OFFSET, bytes: zeros(4) });
            r.push(RegionWrite { offset: FRAME_HEIGHT_OFFSET, bytes: zeros(4) });
            r.push(RegionWrite { offset: FRAME_LEN_OFFSET, bytes: zeros(4) });
            r.push(RegionWrite { offset: FRAME_GENERATION_OFFSET, bytes: zeros(8) });
        }
        r
    }

    /// Describes the publication of one `width` x `height` frame of RGB bytes.
    pub fn write_frame(&mut self, width: u32, height: u32, rgb: &[u8]) -> (r: Result<FeedUpdate, FeedError>)
        requires
            width as int * height as int * 3 <= usize::MAX,
            FRAME_HEADER_SIZE + rgb@.len() <= usize::MAX,
        ensures
            final(self).spec_capacity() == old(self).spec_capacity(),
            width == 0 || height == 0 ==> r == Err::<FeedUpdate, FeedError>(FeedError::EmptyFrame),
            width != 0 && height != 0 && width * height * 3 != rgb@.len() ==> r == Err::<
                FeedUpdate,
                FeedError,
            >(
                FeedError::PixelLengthMismatch {
                    len: rgb@.len() as usize,
                    width,
                    height,
                    expected: (width * height * 3) as usize,
                },
            ),
            width != 0 && height != 0 && width * height * 3 == rgb@.len() && FRAME_HEADER_SIZE
                + rgb@.len() > old(self).spec_capacity() ==> r == Err::<FeedUpdate, FeedError>(
                FeedError::PayloadTooLarge {
                    total: (FRAME_HEADER_SIZE + rgb@.len()) as usize,
                    capacity: old(self).spec_capacity(),
                },
            ),
            r is Err ==> final(self).spec_generation() == old(self).spec_generation(),
            width != 0 && height != 0 && width * height * 3 == rgb@.len() && FRAME_HEADER_SIZE
                + rgb@.len() <= old(self).spec_capacity() ==> {
                &&& r matches Ok(u)
                &&& final(self).spec_generation() == next_generation(old(self).spec_generation())
                &&& frame_update_ok(u, width, height, rgb@, final(self).spec_generation())
            },
    {
        if width == 0 || height == 0 {
            return Err(FeedError::EmptyFrame);
        }
        let expected = width as usize * height as usize * 3;
        if expected != rgb.len() {
            return Err(
                FeedError::PixelLengthMismatch { len: rgb.len(), width, height, expected },
            );
        }
        let total = FRAME_HEADER_SIZE + rgb.len();
        if total > self.capacity {
            return Err(FeedError::PayloadTooLarge { total, capacity: self.capacity });
        }
        let mut data: Vec<RegionWrite> = Vec::new();
        data.push(RegionWrite { offset: 0, bytes: magic_bytes(0x52, 0x42, 0x46, 0x31) });
        data.push(RegionWrite { offset: FRAME_WIDTH_OFFSET, bytes: u32_to_le(width) });
        data.push(RegionWrite { offset: FRAME_HEIGHT_OFFSET, bytes: u32_to_le(height) });
        data.push(RegionWrite { offset: FRAME_LEN_OFFSET, bytes: u32_to_le(rgb.len() as u32) });
        data.push(RegionWrite { offset: FRAME_HEADER_SIZE, bytes: copy_bytes(rgb) });
        self.generation = self.generation.wrapping_add(1);
        let publish = RegionWrite {
            offset: FRAME_GENERATION_OFFSET,
            bytes: u64_to_le(self.generation),
        };
        Ok(FeedUpdate { data, publish })
    }
}

/// What a frame-feed header announces, once checked.
#[derive(Debug, Clone, Copy, PartialEq, Eq)]
pub struct PendingFrame {
    pub generation: u64,
    pub width: u32,
    pub height: u32,
    pub len: usize,
}

/// The outcome of looking at a frame-feed header.
#[derive(Debug, Clone, Copy, PartialEq, Eq)]
pub enum FramePoll {
    /// The generation is the one last consumed: nothing new.
    Unchanged,
    /// A new generation without a frame in it; it counts as consumed.
    Empty,
    /// A new frame whose `len` payload bytes are to be copied.
    Ready(PendingFrame),
}

/// The result of checking a 32-byte frame header against the last consumed
/// generation `last` and a mapping of `mapped` bytes, with the generation the
/// reader holds afterwards.
pub open spec fn frame_poll_spec(last: u64, mapped: usize, header: Seq<u8>) -> (Result<FramePoll, FeedError>, u64) {
    let generation = read_le_u64(header, FRAME_GENERATION_OFFSET as int);
    let width = read_le_u32(header, FRAME_WIDTH_OFFSET as int);
    let height = read_le_u32(header, FRAME_HEIGHT_OFFSET as int);
    let len = read_le_u32(header, FRAME_LEN_OFFSET as int);
    if generation == last {
        (Ok(FramePoll::Unchanged), last)
    } else if width == 0 || height == 0 || len == 0 {
        (Ok(FramePoll::Empty), generation)
    } else if FRAME_HEADER_SIZE + len > mapped {
        (Err(FeedError::LengthExceedsRegion { len: len as usize, region: mapped }), last)
    } else if width * height * 3 != len {
        (Err(FeedError::FrameLengthMismatch { len: len as usize, width, height }), last)
    } else {
        (
            Ok(
                FramePoll::Ready(
                    PendingFrame { generation, width, height, len: len as usize },
                ),
            ),
            last,
        )
    }
}

/// The frame a completed read yields, and the generation the reader holds
/// afterwards.
pub open spec fn frame_complete_spec(pending: PendingFrame, pixels: Seq<u8>, generation_check: u64) -> (Option<(u32, u32, Seq<u8>)>, u64) {
    if generation_check != pending.generation {
        (None, generation_check)
    } else {
        (Some((pending.width, pending.height, pixels)), pending.generation)
    }
}

/// A frame as width, height and pixel bytes.
pub open spec fn frame_view(f: Option<FrameData>) -> Option<(u32, u32, Seq<u8>)> {
    match f {
        Some(f) => Some((f.width, f.height, f.pixels@)),
        None => None,
    }
}

/// The reading side of a frame feed mapped as `mapped_len` bytes.
pub struct FrameFeedReader {
    last_generation: u64,
    mapped_len: usize,
}

impl FrameFeedReader {
    pub closed spec fn spec_last_generation(&self) -> u64 {
        self.last_generation
    }

    pub closed spec fn spec_mapped_len(&self) -> usize {
        self.mapped_len
    }

    /// A reader of a feed of `capacity` bytes whose mapping holds `mapped_len`
    /// bytes, of which `header` is the first `min(mapped_len, 32)`.
    pub fn open(capacity: usize, mapped_len: usize, header: &[u8]) -> (r: Result<Self, FeedError>)
        requires
            header@.len() == if mapped_len < FRAME_HEADER_SIZE {
                mapped_len
            } else {
                FRAME_HEADER_SIZE
            },
        ensures
            capacity < FRAME_HEADER_SIZE ==> r == Err::<Self, FeedError>(
                FeedError::CapacityTooSmall { capacity },
            ),
            capacity >= FRAME_HEADER_SIZE && mapped_len < FRAME_HEADER_SIZE ==> r == Err::<
                Self,
                FeedError,
            >(FeedError::RegionTooSmall { len: mapped_len }),
            capacity >= FRAME_HEADER_SIZE && mapped_len >= FRAME_HEADER_SIZE && header@.take(4)
                != frame_magic() ==> r == Err::<Self, FeedError>(FeedError::MissingMagic),
            capacity >= FRAME_HEADER_SIZE && mapped_len >= FRAME_HEADER_SIZE && header@.take(4)
                == frame_magic() ==> (r matches Ok(reader) && reader.spec_mapped_len()
                == mapped_len && reader.spec_last_generation() == read_le_u64(
                header@,
                FRAME_GENERATION_OFFSET as int,
            )),
    {
        match require_capacity(capacity, FRAME_HEADER_SIZE) {
            Err(e) => {
                return Err(e);
            },
            Ok(()) => {},
        }
        if mapped_len < FRAME_HEADER_SIZE {
            return Err(FeedError::RegionTooSmall { len: mapped_len });
        }
        if !starts_with_magic(header, 0x52, 0x42, 0x46, 0x31) {
            return Err(FeedError::MissingMagic);
        }
        let last_generation = read_u64(header, FRAME_GENERATION_OFFSET);
        Ok(FrameFeedReader { last_generation, mapped_len })
    }

    /// Checks the 32-byte `header` read from the feed.
    pub fn poll_frame(&mut self, header: &[u8]) -> (r: Result<FramePoll, FeedError>)
        requires
            header@.len() == FRAME_HEADER_SIZE,
        ensures
            (r, final(self).spec_last_generation()) == frame_poll_spec(
                old(self).spec_last_generation(),
                old(self).spec_mapped_len(),
                header@,
            ),
            final(self).spec_mapped_len() == old(self).spec_mapped_len(),
    {
        let generation = read_u64(header, FRAME_GENERATION_OFFSET);
        if generation == self.last_generation {
            return Ok(FramePoll::Unchanged);
        }
        let width = read_u32(header, FRAME_WIDTH_OFFSET);
        let height = read_u32(header, FRAME_HEIGHT_OFFSET);
        let len = read_u32(header, FRAME_LEN_OFFSET);
        if width == 0 || height == 0 || len == 0 {
            self.last_generation = generation;
            return Ok(FramePoll::Empty);
        }
        if len as u64 + FRAME_HEADER_SIZE as u64 > self.mapped_len as u64 {
            return Err(FeedError::LengthExceedsRegion { len: len as usize, region: self.mapped_len });
        }
        proof {
            lemma_u32_product_bound(width, height);
        }
        let area = width as u128 * height as u128;
        if area * 3 != len as u128 {
            return Err(FeedError::FrameLengthMismatch { len: len as usize, width, height });
        }
        Ok(FramePoll::Ready(PendingFrame { generation, width, height, len: len as usize }))
    }

    /// Finishes a read: `pixels` are the payload bytes copied after `pending`
    /// was announced and `generation_check` the generation read after the copy.
    /// A changed generation means the copy raced with a write and is dropped.
    pub fn complete_frame(&mut self, pending: PendingFrame, pixels: Vec<u8>, generation_check: u64) -> (r: Option<FrameData>)
        ensures
            final(self).spec_mapped_len() == old(self).spec_mapped_len(),
            (frame_view(r), final(self).spec_last_generation()) == frame_complete_spec(
                pending,
                pixels@,
                generation_check,
            ),
    {
        if generation_check != pending.generation {
            self.last_generation = generation_check;
            return None;
        }
        self.last_generation = pending.generation;
        Some(FrameData { width: pending.width, height: pending.height, pixels })
    }
}

/// A frame reader reports each frame once: a header whose generation the
/// reader holds answers `Unchanged`, an announced frame carries the header's
/// new generation, and once the reader holds that generation the same header
/// answers `Unchanged`.
pub proof fn law_frame_reported_once(last: u64, mapped: usize, header: Seq<u8>)
    ensures
        read_le_u64(header, FRAME_GENERATION_OFFSET as int) == last ==> frame_poll_spec(
            last,
            mapped,
            header,
        ) == (Ok::<FramePoll, FeedError>(FramePoll::Unchanged), last),
        frame_poll_spec(last, mapped, header).0 matches Ok(FramePoll::Ready(p)) ==> p.generation
            != last && p.generation == read_le_u64(header, FRAME_GENERATION_OFFSET as int)
            && frame_poll_spec(p.generation, mapped, header).0 == Ok::<FramePoll, FeedError>(
            FramePoll::Unchanged,
        ),
{
}

/// Law: a frame published by a writer is read back unchanged. After the
/// writer's update is applied to the mapped region, a reader whose last
/// consumed generation differs from the published one sees the announced frame,
/// and copying its payload and re-reading the generation yields exactly the
/// written width, height and pixels.
pub proof fn law_frame_roundtrip(
    region: Seq<u8>,
    u: FeedUpdate,
    width: u32,
    height: u32,
    rgb: Seq<u8>,
    generation: u64,
    last: u64,
)
    requires
        FRAME_HEADER_SIZE + rgb.len() <= region.len() <= usize::MAX,
        width != 0,
        height != 0,
        width * height * 3 == rgb.len(),
        rgb.len() <= u32::MAX,
        frame_update_ok(u, width, height, rgb, generation),
        last != generation,
    ensures
        ({
            let after = apply_writes(region, u.writes());
            let pending = PendingFrame { generation, width, height, len: rgb.len() as usize };
            &&& after.len() == region.len()
            &&& frame_poll_spec(last, region.len() as usize, after.take(FRAME_HEADER_SIZE as int))
                == (Ok::<FramePoll, FeedError>(FramePoll::Ready(pending)), last)
            &&& after.subrange(FRAME_HEADER_SIZE as int, FRAME_HEADER_SIZE + rgb.len()) == rgb
            &&& read_le_u64(after, FRAME_GENERATION_OFFSET as int) == generation
            &&& frame_complete_spec(
                pending,
                after.subrange(FRAME_HEADER_SIZE as int, FRAME_HEADER_SIZE + rgb.len()),
                read_le_u64(after, FRAME_GENERATION_OFFSET as int),
            ) == (Some((width, height, rgb)), generation)
        }),
{
    let d = u.data@;
    let r1 = splice(region, 0, d[0].bytes@);
    let r2 = splice(r1, 4, d[1].bytes@);
    let r3 = splice(r2, 8, d[2].bytes@);
    let r4 = splice(r3, 12, d[3].bytes@);
    let r5 = splice(r4, 32, d[4].bytes@);
    let after = splice(r5, 16, u.publish.bytes@);
    lemma_splice(region, 0, d[0].bytes@);
    lemma_splice(r1, 4, d[1].bytes@);
    lemma_splice(r2, 8, d[2].bytes@);
    lemma_splice(r3, 12, d[3].bytes@);
    lemma_splice(r4, 32, d[4].bytes@);
    lemma_splice(r5, 16, u.publish.bytes@);
    let w = u.writes();
    assert(w.drop_last() =~= d);
    assert(d.drop_last().drop_last().drop_last().drop_last().drop_last() =~= Seq::<
        RegionWrite,
    >::empty());
    assert(d.drop_last().drop_last().drop_last().drop_last() =~= seq![d[0]]);
    assert(d.drop_last().drop_last().drop_last() =~= seq![d[0], d[1]]);
    assert(d.drop_last().drop_last() =~= seq![d[0], d[1], d[2]]);
    assert(d.drop_last() =~= seq![d[0], d[1], d[2], d[3]]);
    reveal_with_fuel(apply_writes, 7);
    assert(apply_writes(region, w) == after);
    let header = after.take(FRAME_HEADER_SIZE as int);
    lemma_le_u32_roundtrip(width);
    lemma_le_u32_roundtrip(height);
    lemma_le_u32_roundtrip(rgb.len() as u32);
    assert(read_le_u32(header, 4) == width);
    assert(read_le_u32(header, 8) == height);
    assert(read_le_u32(header, 12) == rgb.len() as u32);
    assert(header.subrange(16, 24) =~= le_bytes_u64(generation));
    assert(after.subrange(16, 24) =~= le_bytes_u64(generation));
    lemma_le_u64_roundtrip(generation);
    assert(after.subrange(FRAME_HEADER_SIZE as int, FRAME_HEADER_SIZE + rgb.len()) =~= rgb);
    assert(rgb.len() > 0) by (nonlinear_arith)
        requires
            width != 0,
            height != 0,
            width * height * 3 == rgb.len(),
    ;
}


/// A producer that reopens a frame feed and writes a frame is picked up by a
/// reader that already consumed what the feed held: the writer continues from
/// the stored generation `g`, its frame is published as the next generation,
/// and a reader whose last generation is `g` finds the frame ready and reads
/// it back unchanged.
pub proof fn law_reopened_frame_writer_is_seen(
    region: Seq<u8>,
    u: FeedUpdate,
    width: u32,
    height: u32,
    rgb: Seq<u8>,
)
    requires
        FRAME_HEADER_SIZE + rgb.len() <= region.len() <= usize::MAX,
        width != 0,
        height != 0,
        width * height * 3 == rgb.len(),
        rgb.len() <= u32::MAX,
        frame_update_ok(
            u,
            width,
            height,
            rgb,
            next_generation(
                resumed_generation(region, frame_magic(), FRAME_GENERATION_OFFSET as int),
            ),
        ),
    ensures
        ({
            let g = resumed_generation(region, frame_magic(), FRAME_GENERATION_OFFSET as int);
            let after = apply_writes(region, u.writes());
            let pending = PendingFrame {
                generation: next_generation(g),
                width,
                height,
                len: rgb.len() as usize,
            };
            &&& frame_poll_spec(g, region.len() as usize, after.take(FRAME_HEADER_SIZE as int))
                == (Ok::<FramePoll, FeedError>(FramePoll::Ready(pending)), g)
            &&& frame_complete_spec(
                pending,
                after.subrange(FRAME_HEADER_SIZE as int, FRAME_HEADER_SIZE + rgb.len()),
                read_le_u64(after, FRAME_GENERATION_OFFSET as int),
            ) == (Some((width, height, rgb)), next_generation(g))
        }),
{
    let g = resumed_generation(region, frame_magic(), FRAME_GENERATION_OFFSET as int);
    law_reopened_writer_publishes_new_generation(region, frame_magic(), FRAME_GENERATION_OFFSET as int);
    law_frame_roundtrip(region, u, width, height, rgb, next_generation(g), g);
}

// ----------------------------------------------------------------------------
// Shared reader checks

/// The checks a reader makes when it opens a feed of `capacity` bytes whose
/// mapping holds `mapped_len` bytes starting with `header`.
pub open spec fn open_check_spec(capacity: usize, mapped_len: usize, header: Seq<u8>, magic: Seq<u8>) -> Result<(), FeedError> {
    if capacity < 32 {
        Err(FeedError::CapacityTooSmall { capacity })
    } else if mapped_len < 32 {
        Err(FeedError::RegionTooSmall { len: mapped_len })
    } else if header.take(4) != magic {
        Err(FeedError::MissingMagic)
    } else {
        Ok(())
    }
}

fn open_checks(capacity: usize, mapped_len: usize, header: &[u8], m0: u8, m1: u8, m2: u8, m3: u8) -> (r: Result<(), FeedError>)
    requires
        header@.len() == if mapped_len < 32 {
            mapped_len
        } else {
            32
        },
    ensures
        r == open_check_spec(capacity, mapped_len, header@, seq![m0, m1, m2, m3]),
{
    match require_capacity(capacity, 32) {
        Err(e) => {
            return Err(e);
        },
        Ok(()) => {},
    }
    if mapped_len < 32 {
        return Err(FeedError::RegionTooSmall { len: mapped_len });
    }
    if !starts_with_magic(header, m0, m1, m2, m3) {
        return Err(FeedError::MissingMagic);
    }
    Ok(())
}

// ----------------------------------------------------------------------------
// Input feed

pub const INPUT_LEN_OFFSET: usize = 4;
pub const INPUT_GENERATION_OFFSET: usize = 8;
pub const INPUT_HEADER_SIZE: usize = 32;

/// The input feed's magic bytes, `KBD1`.
pub open spec fn input_magic() -> Seq<u8> {
    seq![0x4bu8, 0x42u8, 0x44u8, 0x31u8]
}

/// The writes that mark a fresh region as an input feed.
pub open spec fn input_init_ok(prefix: Seq<u8>, writes: Seq<RegionWrite>) -> bool {
    if prefix.take(4) == input_magic() {
        writes.len() == 0
    } else {
        &&& writes.len() == 3
        &&& writes[0].offset == 0 && writes[0].bytes@ == input_magic()
        &&& writes[1].offset == INPUT_LEN_OFFSET && writes[1].bytes@ == Seq::new(4, |i: int| 0u8)
        &&& writes[2].offset == INPUT_GENERATION_OFFSET && writes[2].bytes@ == Seq::new(
            8,
            |i: int| 0u8,
        )
    }
}

/// The writes of one input event: magic, the length truncated to 32 bits, the
/// event bytes after the header, then the new generation.
pub open spec fn input_update_ok(u: FeedUpdate, data: Seq<u8>, generation: u64) -> bool {
    &&& u.data@.len() == 3
    &&& u.data@[0].offset == 0 && u.data@[0].bytes@ == input_magic()
    &&& u.data@[1].offset == INPUT_LEN_OFFSET && u.data@[1].bytes@ == le_bytes_u32(data.len() as u32)
    &&& u.data@[2].offset == INPUT_HEADER_SIZE && u.data@[2].bytes@ == data
    &&& u.publish.offset == INPUT_GENERATION_OFFSET && u.publish.bytes@ == le_bytes_u64(generation)
}

/// The payload bytes an input feed of `capacity` bytes can hold.
pub open spec fn input_payload(capacity: usize) -> usize {
    if capacity < INPUT_HEADER_SIZE {
        0
    } else {
        (capacity - INPUT_HEADER_SIZE) as usize
    }
}

/// The writing side of an input feed.
pub struct InputFeedWriter {
    capacity: usize,
    generation: u64,
}

impl InputFeedWriter {
    pub closed spec fn spec_capacity(&self) -> usize {
        self.capacity
    }

    pub closed spec fn spec_generation(&self) -> u64 {
        self.generation
    }

    /// A writer for an input feed of `capacity` bytes. Its generation starts
    /// at 0, whatever the region already holds.
    pub fn open(capacity: usize) -> (r: Result<Self, FeedError>)
        ensures
            capacity < INPUT_HEADER_SIZE ==> r == Err::<Self, FeedError>(
                FeedError::CapacityTooSmall { capacity },
            ),
            capacity >= INPUT_HEADER_SIZE ==> (r matches Ok(w) && w.spec_capacity() == capacity
                && w.spec_generation() == 0),
    {
        match require_capacity(capacity, INPUT_HEADER_SIZE) {
            Err(e) => Err(e),
            Ok(()) => Ok(InputFeedWriter { capacity, generation: 0 }),
        }
    }

    /// The writes that prepare a freshly mapped region whose first four bytes
    /// are `prefix`.
    pub fn initial_writes(prefix: &[u8]) -> (r: Vec<RegionWrite>)
        requires
            prefix@.len() >= 4,
        ensures
            input_init_ok(prefix@, r@),
    {
        let mut r: Vec<RegionWrite> = Vec::new();
        if !starts_with_magic(prefix, 0x4b, 0x42, 0x44, 0x31) {
            r.push(RegionWrite { offset: 0, bytes: magic_bytes(0x4b, 0x42, 0x44, 0x31) });
            r.push(RegionWrite { offset: INPUT_LEN_OFFSET, bytes: zeros(4) });
            r.push(RegionWrite { offset: INPUT_GENERATION_OFFSET, bytes: zeros(8) });
        }
        r
    }

    /// Describes the publication of the event bytes `data`.
    pub fn write_event(&mut self, data: &[u8]) -> (r: Result<FeedUpdate, FeedError>)
        ensures
            final(self).spec_capacity() == old(self).spec_capacity(),
            data@.len() > input_payload(old(self).spec_capacity()) ==> r == Err::<
                FeedUpdate,
                FeedError,
            >(
                FeedError::EventTooLarge {
                    len: data@.len() as usize,
                    payload: input_payload(old(self).spec_capacity()),
                },
            ) && final(self).spec_generation() == old(self).spec_generation(),
            data@.len() <= input_payload(old(self).spec_capacity()) ==> {
                &&& r matches Ok(u)
                &&& final(self).spec_generation() == next_generation(old(self).spec_generation())
                &&& input_update_ok(u, data@, final(self).spec_generation())
            },
    {
        let payload = self.capacity.saturating_sub(INPUT_HEADER_SIZE);
        if data.len() > payload {
            return Err(FeedError::EventTooLarge { len: data.len(), payload });
        }
        let mut writes: Vec<RegionWrite> = Vec::new();
        writes.push(RegionWrite { offset: 0, bytes: magic_bytes(0x4b, 0x42, 0x44, 0x31) });
        writes.push(RegionWrite { offset: INPUT_LEN_OFFSET, bytes: u32_to_le(data.len() as u32) });
        writes.push(RegionWrite { offset: INPUT_HEADER_SIZE, bytes: copy_bytes(data) });
        self.generation = self.generation.wrapping_add(1);
        let publish = RegionWrite {
            offset: INPUT_GENERATION_OFFSET,
            bytes: u64_to_le(self.generation),
        };
        Ok(FeedUpdate { data: writes, publish })
    }
}

/// What an input-feed header announces, once checked.
#[derive(Debug, Clone, Copy, PartialEq, Eq)]
pub struct PendingEvent {
    pub generation: u64,
    pub len: usize,
}

/// The outcome of looking at an input-feed header.
#[derive(Debug, Clone, Copy, PartialEq, Eq)]
pub enum EventPoll {
    Unchanged,
    Empty,
    Ready(PendingEvent),
}

/// The result of checking a 32-byte input header, with the generation the
/// reader holds afterwards.
pub open spec fn event_poll_spec(last: u64, mapped: usize, header: Seq<u8>) -> (Result<EventPoll, FeedError>, u64) {
    let generation = read_le_u64(header, INPUT_GENERATION_OFFSET as int);
    let len = read_le_u32(header, INPUT_LEN_OFFSET as int);
    if generation == last {
        (Ok(EventPoll::Unchanged), last)
    } else if len == 0 {
        (Ok(EventPoll::Empty), generation)
    } else if INPUT_HEADER_SIZE + len > mapped {
        (Err(FeedError::LengthExceedsRegion { len: len as usize, region: mapped }), last)
    } else {
        (Ok(EventPoll::Ready(PendingEvent { generation, len: len as usize })), last)
    }
}

/// The event a completed read yields, and the generation held afterwards.
pub open spec fn event_complete_spec(pending: PendingEvent, data: Seq<u8>, generation_check: u64) -> (Option<Seq<u8>>, u64) {
    if generation_check != pending.generation {
        (None, generation_check)
    } else {
        (Some(data), pending.generation)
    }
}

/// An optional event as its bytes.
pub open spec fn event_view(e: Option<Vec<u8>>) -> Option<Seq<u8>> {
    match e {
        Some(v) => Some(v@),
        None => None,
    }
}

/// The reading side of an input feed.
pub struct InputFeedReader {
    last_generation: u64,
    mapped_len: usize,
}

impl InputFeedReader {
    pub closed spec fn spec_last_generation(&self) -> u64 {
        self.last_generation
    }

    pub closed spec fn spec_mapped_len(&self) -> usize {
        self.mapped_len
    }

    /// A reader of an input feed of `capacity` bytes whose mapping holds
    /// `mapped_len` bytes, of which `header` is the first `min(mapped_len, 32)`.
    pub fn open(capacity: usize, mapped_len: usize, header: &[u8]) -> (r: Result<Self, FeedError>)
        requires
            header@.len() == if mapped_len < INPUT_HEADER_SIZE {
                mapped_len
            } else {
                INPUT_HEADER_SIZE
            },
        ensures
            open_check_spec(capacity, mapped_len, header@, input_magic()) matches Err(e) ==> r
                == Err::<Self, FeedError>(e),
            open_check_spec(capacity, mapped_len, header@, input_magic()) is Ok ==> (r matches Ok(
                reader,
            ) && reader.spec_mapped_len() == mapped_len && reader.spec_last_generation()
                == read_le_u64(header@, INPUT_GENERATION_OFFSET as int)),
    {
        match open_checks(capacity, mapped_len, header, 0x4b, 0x42, 0x44, 0x31) {
            Err(e) => Err(e),
            Ok(()) => {
                let last_generation = read_u64(header, INPUT_GENERATION_OFFSET);
                Ok(InputFeedReader { last_generation, mapped_len })
            },
        }
    }

    /// Checks the 32-byte `header` read from the feed.
    pub fn poll_event(&mut self, header: &[u8]) -> (r: Result<EventPoll, FeedError>)
        requires
            header@.len() == INPUT_HEADER_SIZE,
        ensures
            (r, final(self).spec_last_generation()) == event_poll_spec(
                old(self).spec_last_generation(),
                old(self).spec_mapped_len(),
                header@,
            ),
            final(self).spec_mapped_len() == old(self).spec_mapped_len(),
    {
        let generation = read_u64(header, INPUT_GENERATION_OFFSET);
        if generation == self.last_generation {
            return Ok(EventPoll::Unchanged);
        }
        let len = read_u32(header, INPUT_LEN_OFFSET);
        if len == 0 {
            self.last_generation = generation;
            return Ok(EventPoll::Empty);
        }
        if len as u64 + INPUT_HEADER_SIZE as u64 > self.mapped_len as u64 {
            return Err(FeedError::LengthExceedsRegion { len: len as usize, region: self.mapped_len });
        }
        Ok(EventPoll::Ready(PendingEvent { generation, len: len as usize }))
    }

    /// Finishes a read of the event bytes `data`, copied after `pending` was
    /// announced, given the generation `generation_check` read after the copy.
    pub fn complete_event(&mut self, pending: PendingEvent, data: Vec<u8>, generation_check: u64) -> (r: Option<Vec<u8>>)
        ensures
            final(self).spec_mapped_len() == old(self).spec_mapped_len(),
            (event_view(r), final(self).spec_last_generation()) == event_complete_spec(
                pending,
                data@,
                generation_check,
            ),
    {
        if generation_check != pending.generation {
            self.last_generation = generation_check;
            return None;
        }
        self.last_generation = pending.generation;
        Some(data)
    }
}

/// An input reader reports each event once. Polling a header whose
/// generation the reader already holds answers `Unchanged`; an event it
/// announces carries the header's generation, which differs from the one
/// held; and once that event is read back intact, polling the same header
/// again answers `Unchanged`.
pub proof fn law_event_reported_once(last: u64, mapped: usize, header: Seq<u8>, data: Seq<u8>)
    ensures
        read_le_u64(header, INPUT_GENERATION_OFFSET as int) == last ==> event_poll_spec(
            last,
            mapped,
            header,
        ) == (Ok::<EventPoll, FeedError>(EventPoll::Unchanged), last),
        event_poll_spec(last, mapped, header).0 matches Ok(EventPoll::Ready(p)) ==> p.generation
            != last && p.generation == read_le_u64(header, INPUT_GENERATION_OFFSET as int),
        event_poll_spec(last, mapped, header).0 matches Ok(EventPoll::Ready(p)) ==> ({
            let done = event_complete_spec(p, data, read_le_u64(header, INPUT_GENERATION_OFFSET as int));
            done == (Some(data), p.generation) && event_poll_spec(done.1, mapped, header).0
                == Ok::<EventPoll, FeedError>(EventPoll::Unchanged)
        }),
{
}

/// Law: an input event published by a writer is read back unchanged by a
/// reader whose last consumed generation differs from the published one.
pub proof fn law_input_roundtrip(
    region: Seq<u8>,
    u: FeedUpdate,
    data: Seq<u8>,
    generation: u64,
    last: u64,
)
    requires
        INPUT_HEADER_SIZE + data.len() <= region.len() <= usize::MAX,
        0 < data.len() <= u32::MAX,
        input_update_ok(u, data, generation),
        last != generation,
    ensures
        ({
            let after = apply_writes(region, u.writes());
            let pending = PendingEvent { generation, len: data.len() as usize };
            let payload = after.subrange(INPUT_HEADER_SIZE as int, INPUT_HEADER_SIZE + data.len());
            &&& after.len() == region.len()
            &&& event_poll_spec(last, region.len() as usize, after.take(INPUT_HEADER_SIZE as int))
                == (Ok::<EventPoll, FeedError>(EventPoll::Ready(pending)), last)
            &&& payload == data
            &&& read_le_u64(after, INPUT_GENERATION_OFFSET as int) == generation
            &&& event_complete_spec(
                pending,
                payload,
                read_le_u64(after, INPUT_GENERATION_OFFSET as int),
            ) == (Some(data), generation)
        }),
{
    let d = u.data@;
    let r1 = splice(region, 0, d[0].bytes@);
    let r2 = splice(r1, 4, d[1].bytes@);
    let r3 = splice(r2, 32, d[2].bytes@);
    let after = splice(r3, 8, u.publish.bytes@);
    lemma_splice(region, 0, d[0].bytes@);
    lemma_splice(r1, 4, d[1].bytes@);
    lemma_splice(r2, 32, d[2].bytes@);
    lemma_splice(r3, 8, u.publish.bytes@);
    let w = u.writes();
    assert(w.drop_last() =~= d);
    assert(d.drop_last().drop_last().drop_last() =~= Seq::<RegionWrite>::empty());
    assert(d.drop_last().drop_last() =~= seq![d[0]]);
    assert(d.drop_last() =~= seq![d[0], d[1]]);
    reveal_with_fuel(apply_writes, 5);
    assert(apply_writes(region, w) == after);
    let header = after.take(INPUT_HEADER_SIZE as int);
    lemma_le_u32_roundtrip(data.len() as u32);
    assert(read_le_u32(header, 4) == data.len() as u32);
    assert(header.subrange(8, 16) =~= le_bytes_u64(generation));
    assert(after.subrange(8, 16) =~= le_bytes_u64(generation));
    lemma_le_u64_roundtrip(generation);
    assert(after.subrange(INPUT_HEADER_SIZE as int, INPUT_HEADER_SIZE + data.len()) =~= data);
}


// ----------------------------------------------------------------------------
// Audio feed

pub const AUDIO_RATE_OFFSET: usize = 4;
pub const AUDIO_COUNT_OFFSET: usize = 8;
pub const AUDIO_LEN_OFFSET: usize = 12;
pub const AUDIO_VOLUME_OFFSET: usize = 16;
pub const AUDIO_SEP_OFFSET: usize = 17;
pub const AUDIO_FLAGS_OFFSET: usize = 18;
pub const AUDIO_GENERATION_OFFSET: usize = 20;
pub const AUDIO_HEADER_SIZE: usize = 32;

/// The audio feed's magic bytes, `AUD1`.
pub open spec fn audio_magic() -> Seq<u8> {
    seq![0x41u8, 0x55u8, 0x44u8, 0x31u8]
}

/// The order of the two bytes of a sample in memory.
#[derive(Debug, Clone, Copy, PartialEq, Eq)]
pub enum ByteOrder {
    Little,
    Big,
}

/// The two bytes of `x` in `order`.
pub open spec fn sample_bytes(x: i16, order: ByteOrder) -> Seq<u8> {
    let u = x as u16;
    match order {
        ByteOrder::Little => seq![u as u8, (u >> 8u16) as u8],
        ByteOrder::Big => seq![(u >> 8u16) as u8, u as u8],
    }
}

/// The sample whose two bytes in `order` are `b0`, `b1`.
pub open spec fn sample_of(b0: u8, b1: u8, order: ByteOrder) -> i16 {
    match order {
        ByteOrder::Little => (((b1 as u16) << 8u16) | (b0 as u16)) as i16,
        ByteOrder::Big => (((b0 as u16) << 8u16) | (b1 as u16)) as i16,
    }
}

/// A sample's two bytes: the low byte counts ones and the high byte 256s
/// (the high byte second in little-endian order, first in big-endian order),
/// read as a two's complement number, so the sample is negative exactly when
/// the high byte's top bit is set.
pub proof fn law_sample_bytes_place_values(lo: u8, hi: u8)
    ensures
        (sample_of(lo, hi, ByteOrder::Little) as u16) as int == lo + 0x100 * hi,
        (sample_of(hi, lo, ByteOrder::Big) as u16) as int == lo + 0x100 * hi,
        sample_of(lo, hi, ByteOrder::Little) < 0 <==> hi >= 0x80,
        sample_of(hi, lo, ByteOrder::Big) < 0 <==> hi >= 0x80,
{
    assert((((((hi as u16) << 8u16) | (lo as u16)) as i16) as u16) == lo as u16 + 0x100u16
        * hi as u16 && (((((hi as u16) << 8u16) | (lo as u16)) as i16) < 0 <==> hi >= 0x80))
        by (bit_vector);
}

/// The in-memory bytes of `samples` in `order`.
pub open spec fn encode_samples(samples: Seq<i16>, order: ByteOrder) -> Seq<u8> {
    Seq::new(2 * samples.len(), |j: int| sample_bytes(samples[j / 2], order)[j % 2])
}

/// The samples stored in `bytes` in `order`.
pub open spec fn decode_samples(bytes: Seq<u8>, order: ByteOrder) -> Seq<i16> {
    Seq::new(bytes.len() / 2, |i: int| sample_of(bytes[2 * i], bytes[2 * i + 1], order))
}

/// The bytes of `samples` as they lie in memory.
///
/// Calls `bytemuck::cast_slice`, which reinterprets the samples in the
/// machine's own byte order; the contract states that the bytes are the
/// samples in one of the two byte orders and leaves open which one.
#[verifier::external_body]
fn samples_as_bytes(samples: &[i16]) -> (r: Vec<u8>)
    ensures
        r@ == encode_samples(samples@, ByteOrder::Little) || r@ == encode_samples(
            samples@,
            ByteOrder::Big,
        ),
{
    bytemuck::cast_slice::<i16, u8>(samples).to_vec()
}

/// The samples that `bytes` hold in memory.
///
/// Calls `bytemuck::pod_collect_to_vec`, which copies the bytes into samples
/// in the machine's own byte order; the contract states that the samples are
/// read in one of the two byte orders and leaves open which one.
#[verifier::external_body]
fn samples_from_bytes(bytes: &[u8]) -> (r: Vec<i16>)
    requires
        bytes@.len() % 2 == 0,
    ensures
        r@ == decode_samples(bytes@, ByteOrder::Little) || r@ == decode_samples(
            bytes@,
            ByteOrder::Big,
        ),
{
    bytemuck::pod_collect_to_vec::<u8, i16>(bytes)
}

/// Reading back the two bytes of a sample in the same byte order gives it
/// again.
pub proof fn lemma_sample_roundtrip(x: i16, order: ByteOrder)
    ensures
        sample_of(sample_bytes(x, order)[0], sample_bytes(x, order)[1], order) == x,
{
    let u = x as u16;
    assert(((((u >> 8u16) as u8) as u16) << 8u16) | ((u as u8) as u16) == u) by (bit_vector);
    assert(u as i16 == x) by (bit_vector)
        requires
            u == x as u16,
    ;
}

/// Decoding the in-memory bytes of samples in the order they were written
/// gives the samples back.
pub proof fn lemma_samples_roundtrip(samples: Seq<i16>, order: ByteOrder)
    ensures
        decode_samples(encode_samples(samples, order), order) == samples,
{
    let b = encode_samples(samples, order);
    let r = decode_samples(b, order);
    assert(r.len() == samples.len());
    assert forall|i: int| 0 <= i < samples.len() implies r[i] == samples[i] by {
        assert((2 * i) / 2 == i && (2 * i) % 2 == 0);
        assert((2 * i + 1) / 2 == i && (2 * i + 1) % 2 == 1);
        lemma_sample_roundtrip(samples[i], order);
    }
    assert(r =~= samples);
}

/// A block of audio samples with its playback parameters.
#[derive(Debug, Clone)]
pub struct AudioEvent {
    pub sample_rate: u32,
    pub volume: u8,
    pub separation: u8,
    pub samples: Vec<i16>,
}

/// The writes that mark a fresh region as an audio feed.
pub open spec fn audio_init_ok(prefix: Seq<u8>, writes: Seq<RegionWrite>) -> bool {
    if prefix.take(4) == audio_magic() {
        writes.len() == 0
    } else {
        &&& writes.len() == 8
        &&& writes[0].offset == 0 && writes[0].bytes@ == audio_magic()
        &&& writes[1].offset == AUDIO_RATE_OFFSET && writes[1].bytes@ == Seq::new(4, |i: int| 0u8)
        &&& writes[2].offset == AUDIO_COUNT_OFFSET && writes[2].bytes@ == Seq::new(4, |i: int| 0u8)
        &&& writes[3].offset == AUDIO_LEN_OFFSET && writes[3].bytes@ == Seq::new(4, |i: int| 0u8)
        &&& writes[4].offset == AUDIO_VOLUME_OFFSET && writes[4].bytes@ == seq![0u8]
        &&& writes[5].offset == AUDIO_SEP_OFFSET && writes[5].bytes@ == seq![0u8]
        &&& writes[6].offset == AUDIO_FLAGS_OFFSET && writes[6].bytes@ == Seq::new(2, |i: int| 0u8)
        &&& writes[7].offset == AUDIO_GENERATION_OFFSET && writes[7].bytes@ == Seq::new(
            8,
            |i: int| 0u8,
        )
    }
}

/// The writes of one audio event whose samples lie in memory in `order`:
/// magic, rate, the sample count and byte length truncated to 32 bits, volume,
/// separation, zeroed flags, the sample bytes, then the new generation.
pub open spec fn audio_update_ok(
    u: FeedUpdate,
    sample_rate: u32,
    volume: u8,
    separation: u8,
    samples: Seq<i16>,
    order: ByteOrder,
    generation: u64,
) -> bool {
    &&& u.data@.len() == 8
    &&& u.data@[0].offset == 0 && u.data@[0].bytes@ == audio_magic()
    &&& u.data@[1].offset == AUDIO_RATE_OFFSET && u.data@[1].bytes@ == le_bytes_u32(sample_rate)
    &&& u.data@[2].offset == AUDIO_COUNT_OFFSET && u.data@[2].bytes@ == le_bytes_u32(
        samples.len() as u32,
    )
    &&& u.data@[3].offset == AUDIO_LEN_OFFSET && u.data@[3].bytes@ == le_bytes_u32(
        (2 * samples.len()) as u32,
    )
    &&& u.data@[4].offset == AUDIO_VOLUME_OFFSET && u.data@[4].bytes@ == seq![volume]
    &&& u.data@[5].offset == AUDIO_SEP_OFFSET && u.data@[5].bytes@ == seq![separation]
    &&& u.data@[6].offset == AUDIO_FLAGS_OFFSET && u.data@[6].bytes@ == seq![0u8, 0u8]
    &&& u.data@[7].offset == AUDIO_HEADER_SIZE && u.data@[7].bytes@ == encode_samples(
        samples,
        order,
    )
    &&& u.publish.offset == AUDIO_GENERATION_OFFSET && u.publish.bytes@ == le_bytes_u64(generation)
}

fn one_byte(b: u8) -> (r: Vec<u8>)
    ensures
        r@ == seq![b],
{
    let mut r: Vec<u8> = Vec::new();
    r.push(b);
    assert(r@ =~= seq![b]);
    r
}

/// The writing side of an audio feed.
pub struct AudioFeedWriter {
    capacity: usize,
    generation: u64,
}

impl AudioFeedWriter {
    pub closed spec fn spec_capacity(&self) -> usize {
        self.capacity
    }

    pub closed spec fn spec_generation(&self) -> u64 {
        self.generation
    }

    /// A writer for an audio feed of `capacity` bytes. Its generation starts
    /// at 0, whatever the region already holds.
    pub fn open(capacity: usize) -> (r: Result<Self, FeedError>)
        ensures
            capacity < AUDIO_HEADER_SIZE ==> r == Err::<Self, FeedError>(
                FeedError::CapacityTooSmall { capacity },
            ),
            capacity >= AUDIO_HEADER_SIZE ==> (r matches Ok(w) && w.spec_capacity() == capacity
                && w.spec_generation() == 0),
    {
        match require_capacity(capacity, AUDIO_HEADER_SIZE) {
            Err(e) => Err(e),
            Ok(()) => Ok(AudioFeedWriter { capacity, generation: 0 }),
        }
    }

    /// The writes that prepare a freshly mapped region whose first four bytes
    /// are `prefix`.
    pub fn initial_writes(prefix: &[u8]) -> (r: Vec<RegionWrite>)
        requires
            prefix@.len() >= 4,
        ensures
            audio_init_ok(prefix@, r@),
    {
        let mut r: Vec<RegionWrite> = Vec::new();
        if !starts_with_magic(prefix, 0x41, 0x55, 0x44, 0x31) {
            r.push(RegionWrite { offset: 0, bytes: magic_bytes(0x41, 0x55, 0x44, 0x31) });
            r.push(RegionWrite { offset: AUDIO_RATE_OFFSET, bytes: zeros(4) });
            r.push(RegionWrite { offset: AUDIO_COUNT_OFFSET, bytes: zeros(4) });
            r.push(RegionWrite { offset: AUDIO_LEN_OFFSET, bytes: zeros(4) });
            r.push(RegionWrite { offset: AUDIO_VOLUME_OFFSET, bytes: zeros(1) });
            r.push(RegionWrite { offset: AUDIO_SEP_OFFSET, bytes: zeros(1) });
            r.push(RegionWrite { offset: AUDIO_FLAGS_OFFSET, bytes: zeros(2) });
            r.push(RegionWrite { offset: AUDIO_GENERATION_OFFSET, bytes: zeros(8) });
            assert(r@[4].bytes@ =~= seq![0u8]);
            assert(r@[5].bytes@ =~= seq![0u8]);
        }
        r
    }

    /// Describes the publication of one block of `samples` played at
    /// `sample_rate` with the given volume and stereo separation.
    pub fn write_event(&mut self, sample_rate: u32, volume: u8, separation: u8, samples: &[i16]) -> (r: Result<FeedUpdate, FeedError>)
        requires
            AUDIO_HEADER_SIZE + 2 * samples@.len() <= usize::MAX,
        ensures
            final(self).spec_capacity() == old(self).spec_capacity(),
            sample_rate == 0 || samples@.len() == 0 ==> r == Err::<FeedUpdate, FeedError>(
                FeedError::EmptyAudio,
            ),
            sample_rate != 0 && samples@.len() != 0 && AUDIO_HEADER_SIZE + 2 * samples@.len()
                > old(self).spec_capacity() ==> r == Err::<FeedUpdate, FeedError>(
                FeedError::PayloadTooLarge {
                    total: (AUDIO_HEADER_SIZE + 2 * samples@.len()) as usize,
                    capacity: old(self).spec_capacity(),
                },
            ),
            r is Err ==> final(self).spec_generation() == old(self).spec_generation(),
            sample_rate != 0 && samples@.len() != 0 && AUDIO_HEADER_SIZE + 2 * samples@.len()
                <= old(self).spec_capacity() ==> r is Ok && final(self).spec_generation()
                == next_generation(old(self).spec_generation()),
            r matches Ok(u) ==> audio_update_ok(
                u,
                sample_rate,
                volume,
                separation,
                samples@,
                ByteOrder::Little,
                final(self).spec_generation(),
            ) || audio_update_ok(
                u,
                sample_rate,
                volume,
                separation,
                samples@,
                ByteOrder::Big,
                final(self).spec_generation(),
            ),
    {
        if sample_rate == 0 || samples.len() == 0 {
            return Err(FeedError::EmptyAudio);
        }
        let data_len = samples.len() * 2;
        let total = AUDIO_HEADER_SIZE + data_len;
        if total > self.capacity {
            return Err(FeedError::PayloadTooLarge { total, capacity: self.capacity });
        }
        let mut data: Vec<RegionWrite> = Vec::new();
        data.push(RegionWrite { offset: 0, bytes: magic_bytes(0x41, 0x55, 0x44, 0x31) });
        data.push(RegionWrite { offset: AUDIO_RATE_OFFSET, bytes: u32_to_le(sample_rate) });
        data.push(RegionWrite { offset: AUDIO_COUNT_OFFSET, bytes: u32_to_le(samples.len() as u32) });
        data.push(RegionWrite { offset: AUDIO_LEN_OFFSET, bytes: u32_to_le(data_len as u32) });
        data.push(RegionWrite { offset: AUDIO_VOLUME_OFFSET, bytes: one_byte(volume) });
        data.push(RegionWrite { offset: AUDIO_SEP_OFFSET, bytes: one_byte(separation) });
        data.push(RegionWrite { offset: AUDIO_FLAGS_OFFSET, bytes: zeros(2) });
        let bytes = samples_as_bytes(samples);
        data.push(RegionWrite { offset: AUDIO_HEADER_SIZE, bytes });
        self.generation = self.generation.wrapping_add(1);
        let publish = RegionWrite {
            offset: AUDIO_GENERATION_OFFSET,
            bytes: u64_to_le(self.generation),
        };
        let u = FeedUpdate { data, publish };
        assert(u.data@[6].bytes@ =~= seq![0u8, 0u8]);
        assert(samples.len() as u32 == samples@.len() as u32);
        assert(data_len as u32 == (2 * samples@.len()) as u32);
        assert(u.data@[2].bytes@ == le_bytes_u32(samples@.len() as u32));
        assert(u.data@[3].bytes@ == le_bytes_u32((2 * samples@.len()) as u32));
        proof {
            if bytes@ == encode_samples(samples@, ByteOrder::Little) {
                assert(audio_update_ok(
                    u,
                    sample_rate,
                    volume,
                    separation,
                    samples@,
                    ByteOrder::Little,
                    self.spec_generation(),
                ));
            } else {
                assert(audio_update_ok(
                    u,
                    sample_rate,
                    volume,
                    separation,
                    samples@,
                    ByteOrder::Big,
                    self.spec_generation(),
                ));
            }
        }
        Ok(u)
    }
}

/// What an audio-feed header announces, once checked.
#[derive(Debug, Clone, Copy, PartialEq, Eq)]
pub struct PendingAudio {
    pub generation: u64,
    pub sample_rate: u32,
    pub count: usize,
    pub len: usize,
}

/// The outcome of looking at an audio-feed header.
#[derive(Debug, Clone, Copy, PartialEq, Eq)]
pub enum AudioPoll {
    Unchanged,
    Empty,
    Ready(PendingAudio),
}

/// The result of checking a 32-byte audio header, with the generation the
/// reader holds afterwards.
pub open spec fn audio_poll_spec(last: u64, mapped: usize, header: Seq<u8>) -> (Result<AudioPoll, FeedError>, u64) {
    let generation = read_le_u64(header, AUDIO_GENERATION_OFFSET as int);
    let rate = read_le_u32(header, AUDIO_RATE_OFFSET as int);
    let count = read_le_u32(header, AUDIO_COUNT_OFFSET as int);
    let len = read_le_u32(header, AUDIO_LEN_OFFSET as int);
    if generation == last {
        (Ok(AudioPoll::Unchanged), last)
    } else if rate == 0 || len == 0 || count == 0 {
        (Ok(AudioPoll::Empty), generation)
    } else if AUDIO_HEADER_SIZE + len > mapped {
        (Err(FeedError::LengthExceedsRegion { len: len as usize, region: mapped }), last)
    } else if 2 * count != len {
        (Err(FeedError::AudioLengthMismatch { len: len as usize, count: count as usize }), last)
    } else {
        (
            Ok(
                AudioPoll::Ready(
                    PendingAudio {
                        generation,
                        sample_rate: rate,
                        count: count as usize,
                        len: len as usize,
                    },
                ),
            ),
            last,
        )
    }
}

/// The event a completed audio read yields when its samples are read in
/// `order`, and the generation held afterwards.
pub open spec fn audio_complete_spec(
    pending: PendingAudio,
    payload: Seq<u8>,
    generation_check: u64,
    volume: u8,
    separation: u8,
    order: ByteOrder,
) -> (Option<(u32, u8, u8, Seq<i16>)>, u64) {
    if generation_check != pending.generation {
        (None, generation_check)
    } else {
        (
            Some((pending.sample_rate, volume, separation, decode_samples(payload, order))),
            pending.generation,
        )
    }
}

/// An optional audio event as rate, volume, separation and samples.
pub open spec fn audio_view(e: Option<AudioEvent>) -> Option<(u32, u8, u8, Seq<i16>)> {
    match e {
        Some(e) => Some((e.sample_rate, e.volume, e.separation, e.samples@)),
        None => None,
    }
}

/// The reading side of an audio feed.
pub struct AudioFeedReader {
    last_generation: u64,
    mapped_len: usize,
}

impl AudioFeedReader {
    pub closed spec fn spec_last_generation(&self) -> u64 {
        self.last_generation
    }

    pub closed spec fn spec_mapped_len(&self) -> usize {
        self.mapped_len
    }

    /// A reader of an audio feed of `capacity` bytes whose mapping holds
    /// `mapped_len` bytes, of which `header` is the first `min(mapped_len, 32)`.
    pub fn open(capacity: usize, mapped_len: usize, header: &[u8]) -> (r: Result<Self, FeedError>)
        requires
            header@.len() == if mapped_len < AUDIO_HEADER_SIZE {
                mapped_len
            } else {
                AUDIO_HEADER_SIZE
            },
        ensures
            open_check_spec(capacity, mapped_len, header@, audio_magic()) matches Err(e) ==> r
                == Err::<Self, FeedError>(e),
            open_check_spec(capacity, mapped_len, header@, audio_magic()) is Ok ==> (r matches Ok(
                reader,
            ) && reader.spec_mapped_len() == mapped_len && reader.spec_last_generation()
                == read_le_u64(header@, AUDIO_GENERATION_OFFSET as int)),
    {
        match open_checks(capacity, mapped_len, header, 0x41, 0x55, 0x44, 0x31) {
            Err(e) => Err(e),
            Ok(()) => {
                let last_generation = read_u64(header, AUDIO_GENERATION_OFFSET);
                Ok(AudioFeedReader { last_generation, mapped_len })
            },
        }
    }

    /// Checks the 32-byte `header` read from the feed.
    pub fn poll_event(&mut self, header: &[u8]) -> (r: Result<AudioPoll, FeedError>)
        requires
            header@.len() == AUDIO_HEADER_SIZE,
        ensures
            (r, final(self).spec_last_generation()) == audio_poll_spec(
                old(self).spec_last_generation(),
                old(self).spec_mapped_len(),
                header@,
            ),
            final(self).spec_mapped_len() == old(self).spec_mapped_len(),
    {
        let generation = read_u64(header, AUDIO_GENERATION_OFFSET);
        if generation == self.last_generation {
            return Ok(AudioPoll::Unchanged);
        }
        let sample_rate = read_u32(header, AUDIO_RATE_OFFSET);
        let count = read_u32(header, AUDIO_COUNT_OFFSET);
        let len = read_u32(header, AUDIO_LEN_OFFSET);
        if sample_rate == 0 || len == 0 || count == 0 {
            self.last_generation = generation;
            return Ok(AudioPoll::Empty);
        }
        if len as u64 + AUDIO_HEADER_SIZE as u64 > self.mapped_len as u64 {
            return Err(FeedError::LengthExceedsRegion { len: len as usize, region: self.mapped_len });
        }
        if count as u64 * 2 != len as u64 {
            return Err(FeedError::AudioLengthMismatch { len: len as usize, count: count as usize });
        }
        Ok(
            AudioPoll::Ready(
                PendingAudio { generation, sample_rate, count: count as usize, len: len as usize },
            ),
        )
    }

    /// Finishes a read: `payload` holds the sample bytes copied after `pending`
    /// was announced, `generation_check` the generation read after the copy,
    /// and `volume` and `separation` the header bytes read last.
    pub fn complete_event(
        &mut self,
        pending: PendingAudio,
        payload: &[u8],
        generation_check: u64,
        volume: u8,
        separation: u8,
    ) -> (r: Option<AudioEvent>)
        requires
            payload@.len() % 2 == 0,
        ensures
            final(self).spec_mapped_len() == old(self).spec_mapped_len(),
            exists|order: ByteOrder|
                (#[trigger] audio_view(r), final(self).spec_last_generation())
                    == audio_complete_spec(
                    pending,
                    payload@,
                    generation_check,
                    volume,
                    separation,
                    order,
                ),
    {
        if generation_check != pending.generation {
            self.last_generation = generation_check;
            assert((audio_view(None), generation_check) == audio_complete_spec(
                pending,
                payload@,
                generation_check,
                volume,
                separation,
                ByteOrder::Little,
            ));
            return None;
        }
        let samples = samples_from_bytes(payload);
        self.last_generation = pending.generation;
        let r = Some(
            AudioEvent { sample_rate: pending.sample_rate, volume, separation, samples },
        );
        proof {
            if samples@ == decode_samples(payload@, ByteOrder::Little) {
                assert((audio_view(r), self.last_generation) == audio_complete_spec(
                    pending,
                    payload@,
                    generation_check,
                    volume,
                    separation,
                    ByteOrder::Little,
                ));
            } else {
                assert((audio_view(r), self.last_generation) == audio_complete_spec(
                    pending,
                    payload@,
                    generation_check,
                    volume,
                    separation,
                    ByteOrder::Big,
                ));
            }
        }
        r
    }
}

/// An audio reader reports each event once: a header whose generation the
/// reader holds answers `Unchanged`, an announced event carries the header's
/// new generation, and once the reader holds that generation the same header
/// answers `Unchanged`.
pub proof fn law_audio_reported_once(last: u64, mapped: usize, header: Seq<u8>)
    ensures
        read_le_u64(header, AUDIO_GENERATION_OFFSET as int) == last ==> audio_poll_spec(
            last,
            mapped,
            header,
        ) == (Ok::<AudioPoll, FeedError>(AudioPoll::Unchanged), last),
        audio_poll_spec(last, mapped, header).0 matches Ok(AudioPoll::Ready(p)) ==> p.generation
            != last && p.generation == read_le_u64(header, AUDIO_GENERATION_OFFSET as int)
            && audio_poll_spec(p.generation, mapped, header).0 == Ok::<AudioPoll, FeedError>(
            AudioPoll::Unchanged,
        ),
{
}

/// Law: an audio event published by a writer is read back unchanged by a
/// reader whose last consumed generation differs from the published one,
/// when the reader reads the samples in the byte order the writer wrote them.
pub proof fn law_audio_roundtrip(
    region: Seq<u8>,
    u: FeedUpdate,
    sample_rate: u32,
    volume: u8,
    separation: u8,
    samples: Seq<i16>,
    order: ByteOrder,
    generation: u64,
    last: u64,
)
    requires
        AUDIO_HEADER_SIZE + 2 * samples.len() <= region.len() <= usize::MAX,
        sample_rate != 0,
        0 < 2 * samples.len() <= u32::MAX,
        audio_update_ok(u, sample_rate, volume, separation, samples, order, generation),
        last != generation,
    ensures
        ({
            let after = apply_writes(region, u.writes());
            let pending = PendingAudio {
                generation,
                sample_rate,
                count: samples.len() as usize,
                len: (2 * samples.len()) as usize,
            };
            let payload = after.subrange(
                AUDIO_HEADER_SIZE as int,
                AUDIO_HEADER_SIZE + 2 * samples.len(),
            );
            &&& after.len() == region.len()
            &&& audio_poll_spec(last, region.len() as usize, after.take(AUDIO_HEADER_SIZE as int))
                == (Ok::<AudioPoll, FeedError>(AudioPoll::Ready(pending)), last)
            &&& read_le_u64(after, AUDIO_GENERATION_OFFSET as int) == generation
            &&& after[AUDIO_VOLUME_OFFSET as int] == volume
            &&& after[AUDIO_SEP_OFFSET as int] == separation
            &&& audio_complete_spec(
                pending,
                payload,
                read_le_u64(after, AUDIO_GENERATION_OFFSET as int),
                after[AUDIO_VOLUME_OFFSET as int],
                after[AUDIO_SEP_OFFSET as int],
                order,
            ) == (Some((sample_rate, volume, separation, samples)), generation)
        }),
{
    let d = u.data@;
    let r1 = splice(region, 0, d[0].bytes@);
    let r2 = splice(r1, 4, d[1].bytes@);
    let r3 = splice(r2, 8, d[2].bytes@);
    let r4 = splice(r3, 12, d[3].bytes@);
    let r5 = splice(r4, 16, d[4].bytes@);
    let r6 = splice(r5, 17, d[5].bytes@);
    let r7 = splice(r6, 18, d[6].bytes@);
    let r8 = splice(r7, 32, d[7].bytes@);
    let after = splice(r8, 20, u.publish.bytes@);
    lemma_splice(region, 0, d[0].bytes@);
    lemma_splice(r1, 4, d[1].bytes@);
    lemma_splice(r2, 8, d[2].bytes@);
    lemma_splice(r3, 12, d[3].bytes@);
    lemma_splice(r4, 16, d[4].bytes@);
    lemma_splice(r5, 17, d[5].bytes@);
    lemma_splice(r6, 18, d[6].bytes@);
    lemma_splice(r7, 32, d[7].bytes@);
    lemma_splice(r8, 20, u.publish.bytes@);
    let w = u.writes();
    assert(w.drop_last() =~= d);
    assert(d.drop_last().drop_last().drop_last().drop_last().drop_last().drop_last().drop_last()
        =~= seq![d[0]]);
    assert(d.drop_last().drop_last().drop_last().drop_last().drop_last().drop_last() =~= seq![
        d[0],
        d[1],
    ]);
    assert(d.drop_last().drop_last().drop_last().drop_last().drop_last() =~= seq![
        d[0],
        d[1],
        d[2],
    ]);
    assert(d.drop_last().drop_last().drop_last().drop_last() =~= seq![d[0], d[1], d[2], d[3]]);
    assert(d.drop_last().drop_last().drop_last() =~= seq![d[0], d[1], d[2], d[3], d[4]]);
    assert(d.drop_last().drop_last() =~= seq![d[0], d[1], d[2], d[3], d[4], d[5]]);
    assert(d.drop_last() =~= seq![d[0], d[1], d[2], d[3], d[4], d[5], d[6]]);
    assert(seq![d[0]].drop_last() =~= Seq::<RegionWrite>::empty());
    reveal_with_fuel(apply_writes, 10);
    assert(apply_writes(region, w) == after);
    let header = after.take(AUDIO_HEADER_SIZE as int);
    lemma_le_u32_roundtrip(sample_rate);
    lemma_le_u32_roundtrip(samples.len() as u32);
    lemma_le_u32_roundtrip((2 * samples.len()) as u32);
    assert(read_le_u32(header, 4) == sample_rate);
    assert(read_le_u32(header, 8) == samples.len() as u32);
    assert(read_le_u32(header, 12) == (2 * samples.len()) as u32);
    assert(header.subrange(20, 28) =~= le_bytes_u64(generation));
    assert(after.subrange(20, 28) =~= le_bytes_u64(generation));
    lemma_le_u64_roundtrip(generation);
    let payload = after.subrange(AUDIO_HEADER_SIZE as int, AUDIO_HEADER_SIZE + 2 * samples.len());
    assert(payload =~= encode_samples(samples, order));
    lemma_samples_roundtrip(samples, order);
}

} // verus!
