use hello_espcx::error::SessionError;
use hello_espcx::protocol::bulk::CHUNK_SIZE;
use hello_espcx::protocol::fill_test_pattern;
use hello_espcx::stream::{BulkReceiver, ChunkPlan};

#[test]
fn chunk_plan_cuts_stream_into_att_sized_chunks() {
    let mut plan = ChunkPlan::new(300);
    let first = plan.next_chunk().unwrap();
    assert_eq!(first.len(), CHUNK_SIZE);
    assert_eq!(first[0], 29);
    assert_eq!(plan.offset(), 252);
    let second = plan.next_chunk().unwrap();
    assert_eq!(second.len(), 48);
    assert_eq!(second[0], 217);
    assert_eq!(plan.offset(), 300);
    assert!(plan.next_chunk().is_none());
    assert!(plan.next_chunk().is_none());
}

#[test]
fn empty_stream_has_no_chunks() {
    let mut plan = ChunkPlan::new(0);
    assert!(plan.next_chunk().is_none());
    assert!(BulkReceiver::new(0).is_complete());
}

#[test]
fn receiver_accepts_every_planned_chunk() {
    let total = 10 * 1024;
    let mut plan = ChunkPlan::new(total);
    let mut receiver = BulkReceiver::new(total);
    while let Some(chunk) = plan.next_chunk() {
        assert!(!receiver.is_complete());
        receiver.accept_chunk(&chunk).unwrap();
    }
    assert!(receiver.is_complete());
    assert_eq!(receiver.received(), total);
}

#[test]
fn receiver_rejects_wrong_size_and_wrong_data() {
    let mut receiver = BulkReceiver::new(300);
    let mut chunk = vec![0u8; CHUNK_SIZE];
    fill_test_pattern(0, &mut chunk);
    receiver.accept_chunk(&chunk).unwrap();
    assert_eq!(receiver.received(), 252);

    assert_eq!(
        receiver.accept_chunk(&[0u8; 10]),
        Err(SessionError::UnexpectedChunkSize { actual: 10, expected: 48 })
    );
    let mut tail = vec![0u8; 48];
    fill_test_pattern(252, &mut tail);
    tail[47] ^= 1;
    assert_eq!(receiver.accept_chunk(&tail), Err(SessionError::DataMismatch { offset: 252 }));
    assert_eq!(receiver.received(), 252);

    tail[47] ^= 1;
    assert_eq!(receiver.accept_chunk(&tail), Ok(()));
    assert!(receiver.is_complete());
}
