//! Recordings.

use hft_clob_core::domain::RecvTs;
use hft_clob_core::gateway::recorder::{append_record, read_records, RecordErrorKind};
use hft_clob_core::wire::framing::{Frame, MessageKind};

fn fixture_frame() -> Vec<u8> {
    let payload = [0x42u8; 8];
    let mut buf = Vec::new();
    Frame::write(MessageKind::CancelOrder, &payload, &mut buf).expect("fits");
    buf
}

#[test]
fn test_record_writes_frame_then_recv_ts() {
    let frame = fixture_frame();
    let mut bytes = Vec::new();
    append_record(&frame, RecvTs::new(123_456), &mut bytes);
    assert_eq!(&bytes[..frame.len()], &frame[..]);
    let ts_arr: [u8; 8] = bytes[frame.len()..].try_into().expect("8 bytes");
    assert_eq!(u64::from_le_bytes(ts_arr), 123_456);
}

#[test]
fn test_read_records_round_trips_count() {
    let frame = fixture_frame();
    let mut bytes = Vec::new();
    for i in 0..100 {
        append_record(&frame, RecvTs::new(1_000 + i), &mut bytes);
    }
    let (records, trailing) = read_records(&bytes).expect("decode");
    assert_eq!(records.len(), 100);
    assert_eq!(trailing, 0);
    assert_eq!(records[0].recv_ts.as_nanos(), 1_000);
    assert_eq!(records[99].recv_ts.as_nanos(), 1_099);
}

#[test]
fn test_read_records_tolerates_partial_final_record() {
    let mut bytes = Vec::new();
    let mut recorder_buf = Vec::new();
    // Manually pack 3 full records.
    for i in 0..3u64 {
        let frame = fixture_frame();
        recorder_buf.extend_from_slice(&frame);
        recorder_buf.extend_from_slice(&i.to_le_bytes());
    }
    bytes.extend_from_slice(&recorder_buf);
    // Append a partially-written 4th record: a length prefix
    // declaring a non-zero frame followed by only a few of the
    // declared bytes. The reader sees: len prefix is intact, but
    // the file ends before the full frame + 8-byte recv_ts is
    // available — the record is truncated cleanly.
    bytes.extend_from_slice(&20u32.to_le_bytes()); // declares 20-byte frame
    bytes.extend_from_slice(&[0u8; 5]); // only 5 bytes of frame body

    let (records, trailing) = read_records(&bytes).expect("decode");
    assert_eq!(records.len(), 3);
    assert_eq!(trailing, 4 + 5); // length prefix + partial body
}

#[test]
fn test_read_records_tolerates_truncated_length_prefix() {
    // 3 valid records followed by only 2 bytes of a length
    // prefix — the reader stops cleanly without misinterpreting.
    let mut bytes = Vec::new();
    for i in 0..3u64 {
        let frame = fixture_frame();
        bytes.extend_from_slice(&frame);
        bytes.extend_from_slice(&i.to_le_bytes());
    }
    bytes.extend_from_slice(&[0u8; 2]); // short of the 4-byte prefix
    let (records, trailing) = read_records(&bytes).expect("decode");
    assert_eq!(records.len(), 3);
    assert_eq!(trailing, 2);
}

#[test]
fn test_read_records_rejects_zero_length_frame() {
    let mut bytes = Vec::new();
    bytes.extend_from_slice(&0u32.to_le_bytes()); // length = 0
    bytes.extend_from_slice(&0u64.to_le_bytes()); // ts
    let result = read_records(&bytes);
    assert!(matches!(result, Err(e) if e.kind() == RecordErrorKind::InvalidData));
}

#[test]
fn test_recorder_no_op_when_not_constructed() {
    // A listener that was not asked to record holds no recorder: there is
    // nothing to run.
    let _ = ();
}
