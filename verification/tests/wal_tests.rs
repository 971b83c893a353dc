use agredadb::wal::entry::WalEntry;
use agredadb::wal::frame::{decode_frames, encode_frame, frame_size, FrameError};
use agredadb::wal::policy::{SyncPolicy, WriteCounter};

#[test]
fn test_basic() {
    // Basic test to ensure module compiles
    assert!(true);
}

#[test]
fn frames_roundtrip() {
    let records: Vec<Vec<u8>> = vec![b"first".to_vec(), Vec::new(), vec![0xff; 300]];
    let mut log = Vec::new();
    for r in &records {
        let f = encode_frame(r);
        assert_eq!(f.len() as u64, frame_size(r.len()));
        log.extend_from_slice(&f);
    }
    assert_eq!(&log[0..4], &[5, 0, 0, 0]);
    assert_eq!(decode_frames(&log).unwrap(), records);
    // A short tail (less than a length prefix) is ignored.
    log.extend_from_slice(&[1, 2]);
    assert_eq!(decode_frames(&log).unwrap(), records);
}

#[test]
fn frames_truncated_record() {
    let mut log = encode_frame(b"abc");
    log.extend_from_slice(&[10, 0, 0, 0, 1, 2]);
    assert_eq!(decode_frames(&log), Err(FrameError::TruncatedRecord { offset: 7, declared_len: 10 }));
    assert_eq!(decode_frames(&[]).unwrap(), Vec::<Vec<u8>>::new());
}

#[test]
fn write_counter_policies() {
    let mut every = WriteCounter::new(SyncPolicy::EveryWrite);
    assert!(every.record_append(0));
    assert!(every.record_append(0));
    assert_eq!(every.count(), 2);

    let mut batched = WriteCounter::new(SyncPolicy::Batched(3));
    assert!(!batched.record_append(0));
    assert!(!batched.record_append(0));
    assert!(batched.record_append(0));
    assert_eq!(batched.count(), 0);

    let mut adaptive = WriteCounter::new(SyncPolicy::Adaptive(50, 1000));
    assert!(!adaptive.record_append(10));
    assert!(adaptive.record_append(1000));
    assert_eq!(adaptive.count(), 0);

    let mut never = WriteCounter::new(SyncPolicy::Never);
    assert!(!never.record_append(u64::MAX));
    assert_eq!(never.count(), 1);
    assert_eq!(never.policy(), SyncPolicy::Never);
}

#[test]
fn wal_entry_table() {
    let e = WalEntry::Delete { table: "users".to_string(), id: "7".to_string() };
    assert_eq!(e.table(), "users");
    let u = WalEntry::Update { table: "t".to_string(), id: "1".to_string(), data: vec![1] };
    assert_eq!(u.table(), "t");
}
