use tui_gpu::bytes::{read_u64, RegionWrite};
use tui_gpu::feed::{
    AudioFeedReader, AudioFeedWriter, AudioPoll, EventPoll, FeedError, FeedUpdate,
    FrameFeedReader, FrameFeedWriter, FramePoll, InputFeedReader, InputFeedWriter,
    AUDIO_GENERATION_OFFSET, AUDIO_SEP_OFFSET, AUDIO_VOLUME_OFFSET, FRAME_GENERATION_OFFSET,
    FRAME_HEADER_SIZE, INPUT_GENERATION_OFFSET,
};

fn apply_all(region: &mut Vec<u8>, writes: &[RegionWrite]) {
    for w in writes {
        w.apply(region.as_mut_slice());
    }
}

fn publish(region: &mut Vec<u8>, update: &FeedUpdate) {
    apply_all(region, &update.data);
    update.publish.apply(region.as_mut_slice());
}

fn frame_region(capacity: usize) -> (Vec<u8>, FrameFeedWriter) {
    let mut region = vec![0u8; capacity];
    let writer = FrameFeedWriter::open(capacity, &region[..32]).unwrap();
    let init = FrameFeedWriter::initial_writes(&region[..4]);
    apply_all(&mut region, &init);
    (region, writer)
}

#[test]
fn writer_reader_roundtrip() {
    let (mut region, mut writer) = frame_region(256 * 1024);
    let mut reader = FrameFeedReader::open(256 * 1024, region.len(), &region[..32]).unwrap();
    let width = 4;
    let height = 2;
    let mut pixels = Vec::new();
    for i in 0..(width * height) {
        pixels.extend_from_slice(&[i as u8, (i * 2) as u8, (i * 3) as u8]);
    }
    let update = writer.write_frame(width, height, &pixels).unwrap();
    publish(&mut region, &update);
    let pending = match reader.poll_frame(&region[..32]).unwrap() {
        FramePoll::Ready(p) => p,
        other => panic!("expected a frame, got {other:?}"),
    };
    let payload = region[FRAME_HEADER_SIZE..FRAME_HEADER_SIZE + pending.len].to_vec();
    let check = read_u64(&region, FRAME_GENERATION_OFFSET);
    let frame = reader.complete_frame(pending, payload, check).expect("frame");
    assert_eq!(frame.width, width);
    assert_eq!(frame.height, height);
    assert_eq!(frame.pixels, pixels);
}

#[test]
fn input_feed_roundtrip() {
    let mut region = vec![0u8; 4096];
    let mut writer = InputFeedWriter::open(4096).unwrap();
    let init = InputFeedWriter::initial_writes(&region[..4]);
    apply_all(&mut region, &init);
    let mut reader = InputFeedReader::open(4096, region.len(), &region[..32]).unwrap();
    let update = writer.write_event(b"hello").unwrap();
    publish(&mut region, &update);
    let pending = match reader.poll_event(&region[..32]).unwrap() {
        EventPoll::Ready(p) => p,
        other => panic!("expected an event, got {other:?}"),
    };
    let data = region[32..32 + pending.len].to_vec();
    let check = read_u64(&region, INPUT_GENERATION_OFFSET);
    let event = reader.complete_event(pending, data, check).expect("event");
    assert_eq!(event, b"hello");
}

#[test]
fn audio_feed_roundtrip() {
    let mut region = vec![0u8; 64 * 1024];
    let mut writer = AudioFeedWriter::open(64 * 1024).unwrap();
    let init = AudioFeedWriter::initial_writes(&region[..4]);
    apply_all(&mut region, &init);
    let mut reader = AudioFeedReader::open(64 * 1024, region.len(), &region[..32]).unwrap();
    let samples: Vec<i16> = (0..64).map(|i| (i as i16) * 32).collect();
    let update = writer.write_event(44100, 100, 200, &samples).unwrap();
    publish(&mut region, &update);
    let pending = match reader.poll_event(&region[..32]).unwrap() {
        AudioPoll::Ready(p) => p,
        other => panic!("expected an event, got {other:?}"),
    };
    let payload = region[32..32 + pending.len].to_vec();
    let check = read_u64(&region, AUDIO_GENERATION_OFFSET);
    let event = reader
        .complete_event(
            pending,
            &payload,
            check,
            region[AUDIO_VOLUME_OFFSET],
            region[AUDIO_SEP_OFFSET],
        )
        .expect("event");
    assert_eq!(event.sample_rate, 44100);
    assert_eq!(event.volume, 100);
    assert_eq!(event.separation, 200);
    assert_eq!(event.samples, samples);
}

#[test]
fn frame_reader_skips_an_unchanged_generation() {
    let (mut region, mut writer) = frame_region(1024);
    let mut reader = FrameFeedReader::open(1024, region.len(), &region[..32]).unwrap();
    assert_eq!(reader.poll_frame(&region[..32]).unwrap(), FramePoll::Unchanged);
    let update = writer.write_frame(1, 1, &[1, 2, 3]).unwrap();
    publish(&mut region, &update);
    let pending = match reader.poll_frame(&region[..32]).unwrap() {
        FramePoll::Ready(p) => p,
        other => panic!("expected a frame, got {other:?}"),
    };
    let check = read_u64(&region, FRAME_GENERATION_OFFSET);
    let frame = reader.complete_frame(pending, region[32..35].to_vec(), check).unwrap();
    assert_eq!(frame.pixels, vec![1, 2, 3]);
    assert_eq!(reader.poll_frame(&region[..32]).unwrap(), FramePoll::Unchanged);
}

#[test]
fn frame_read_racing_a_write_is_dropped() {
    let (mut region, mut writer) = frame_region(1024);
    let mut reader = FrameFeedReader::open(1024, region.len(), &region[..32]).unwrap();
    let first = writer.write_frame(1, 1, &[9, 9, 9]).unwrap();
    publish(&mut region, &first);
    let pending = match reader.poll_frame(&region[..32]).unwrap() {
        FramePoll::Ready(p) => p,
        other => panic!("expected a frame, got {other:?}"),
    };
    let payload = region[32..35].to_vec();
    let second = writer.write_frame(1, 1, &[7, 7, 7]).unwrap();
    publish(&mut region, &second);
    let check = read_u64(&region, FRAME_GENERATION_OFFSET);
    assert!(reader.complete_frame(pending, payload, check).is_none());
    assert_eq!(reader.poll_frame(&region[..32]).unwrap(), FramePoll::Unchanged);
}

#[test]
fn frame_writer_refusals() {
    assert_eq!(
        FrameFeedWriter::open(31, &[]).err(),
        Some(FeedError::CapacityTooSmall { capacity: 31 })
    );
    let mut writer = FrameFeedWriter::open(64, &[0u8; 32]).unwrap();
    assert_eq!(writer.write_frame(0, 4, &[]).err(), Some(FeedError::EmptyFrame));
    assert_eq!(
        writer.write_frame(2, 2, &[0u8; 5]).err(),
        Some(FeedError::PixelLengthMismatch { len: 5, width: 2, height: 2, expected: 12 })
    );
    assert_eq!(
        writer.write_frame(4, 4, &[0u8; 48]).err(),
        Some(FeedError::PayloadTooLarge { total: 80, capacity: 64 })
    );
    let update = writer.write_frame(2, 2, &[0u8; 12]).unwrap();
    assert_eq!(update.publish.bytes, 1u64.to_le_bytes().to_vec());
}

#[test]
fn frame_reader_refusals() {
    let region = vec![0u8; 64];
    assert_eq!(
        FrameFeedReader::open(64, region.len(), &region[..32]).err(),
        Some(FeedError::MissingMagic)
    );
    assert_eq!(
        FrameFeedReader::open(64, 16, &region[..16]).err(),
        Some(FeedError::RegionTooSmall { len: 16 })
    );
    let (mut region, _) = frame_region(64);
    let mut reader = FrameFeedReader::open(64, region.len(), &region[..32]).unwrap();
    region[4] = 2;
    region[8] = 2;
    region[12] = 13;
    region[16] = 5;
    assert_eq!(
        reader.poll_frame(&region[..32]).unwrap_err(),
        FeedError::FrameLengthMismatch { len: 13, width: 2, height: 2 }
    );
    region[12] = 40;
    assert_eq!(
        reader.poll_frame(&region[..32]).unwrap_err(),
        FeedError::LengthExceedsRegion { len: 40, region: 64 }
    );
    region[12] = 0;
    assert_eq!(reader.poll_frame(&region[..32]).unwrap(), FramePoll::Empty);
    assert_eq!(reader.poll_frame(&region[..32]).unwrap(), FramePoll::Unchanged);
}

#[test]
fn input_event_too_large_is_refused() {
    let mut writer = InputFeedWriter::open(64).unwrap();
    assert_eq!(
        writer.write_event(&[1u8; 33]).err(),
        Some(FeedError::EventTooLarge { len: 33, payload: 32 })
    );
    assert!(writer.write_event(&[1u8; 32]).is_ok());
}

#[test]
fn empty_audio_is_refused() {
    let mut writer = AudioFeedWriter::open(1024).unwrap();
    assert_eq!(writer.write_event(0, 1, 1, &[1, 2]).err(), Some(FeedError::EmptyAudio));
    assert_eq!(writer.write_event(44100, 1, 1, &[]).err(), Some(FeedError::EmptyAudio));
}

#[test]
fn reopened_writer_is_seen_by_an_open_reader() {
    let capacity = 1024;
    let (mut region, mut w1) = frame_region(capacity);
    let first = w1.write_frame(1, 1, &[1, 2, 3]).unwrap();
    publish(&mut region, &first);
    drop(w1);
    let mut reader = FrameFeedReader::open(capacity, region.len(), &region[..32]).unwrap();
    let mut w2 = FrameFeedWriter::open(capacity, &region[..32]).unwrap();
    let init = FrameFeedWriter::initial_writes(&region[..4]);
    assert!(init.is_empty());
    let second = w2.write_frame(1, 1, &[4, 5, 6]).unwrap();
    assert_eq!(second.publish.bytes, 2u64.to_le_bytes().to_vec());
    publish(&mut region, &second);
    let pending = match reader.poll_frame(&region[..32]).unwrap() {
        FramePoll::Ready(p) => p,
        other => panic!("expected a frame, got {other:?}"),
    };
    let check = read_u64(&region, FRAME_GENERATION_OFFSET);
    let frame = reader.complete_frame(pending, region[32..35].to_vec(), check).unwrap();
    assert_eq!((frame.width, frame.height, frame.pixels), (1, 1, vec![4, 5, 6]));
}

#[test]
fn writer_on_an_unmarked_region_starts_at_zero() {
    let mut header = vec![0xffu8; 32];
    let mut w = FrameFeedWriter::open(64, &header).unwrap();
    let u = w.write_frame(1, 1, &[0, 0, 0]).unwrap();
    assert_eq!(u.publish.bytes, 1u64.to_le_bytes().to_vec());
    header[..4].copy_from_slice(b"RBF1");
    header[16..24].copy_from_slice(&u64::MAX.to_le_bytes());
    let mut w = FrameFeedWriter::open(64, &header).unwrap();
    let u = w.write_frame(1, 1, &[0, 0, 0]).unwrap();
    assert_eq!(u.publish.bytes, 0u64.to_le_bytes().to_vec());
}

#[test]
fn input_and_audio_writers_start_from_zero() {
    let mut input = InputFeedWriter::open(64).unwrap();
    let u = input.write_event(b"k").unwrap();
    assert_eq!(u.publish.bytes, 1u64.to_le_bytes().to_vec());
    let mut audio = AudioFeedWriter::open(1024).unwrap();
    let u = audio.write_event(8000, 1, 1, &[1, 2]).unwrap();
    assert_eq!(u.publish.bytes, 1u64.to_le_bytes().to_vec());
}
