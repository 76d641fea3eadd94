use shm_ipc::fanout::{ShmLayout, MAX_CONSUMERS, RING_SIZE};

#[test]
fn fresh_layout_is_zeroed() {
    let layout = ShmLayout::new();
    assert_eq!(layout.write_pos, 0);
    assert_eq!(layout.next_msg_id, 0);
    assert_eq!(layout.consumer_pos, vec![0usize; MAX_CONSUMERS]);
    assert_eq!(layout.ring.len(), RING_SIZE);
    for slot in &layout.ring {
        assert_eq!(slot.msg_id, 0);
        assert_eq!(slot.len, 0);
    }
}

#[test]
fn publish_claims_slots_in_turn_and_stamps_them() {
    let mut layout = ShmLayout::new();
    let (id0, pos0) = layout.publish(b"hello-0".to_vec());
    assert_eq!((id0, pos0), (0, 0));
    let (id1, pos1) = layout.publish(b"hello-1".to_vec());
    assert_eq!((id1, pos1), (1, 1));
    assert_eq!(layout.write_pos, 2);
    assert_eq!(layout.next_msg_id, 2);
    assert_eq!(layout.ring[0].data, b"hello-0".to_vec());
    assert_eq!(layout.ring[1].len, 7);
}

#[test]
fn publish_wraps_and_reuses_the_oldest_slot() {
    let mut layout = ShmLayout::new();
    for i in 0..RING_SIZE {
        layout.publish(vec![i as u8]);
    }
    let (id, pos) = layout.publish(vec![0xee]);
    assert_eq!(id, RING_SIZE as u64);
    assert_eq!(pos, 0);
    assert_eq!(layout.ring[0].data, vec![0xee]);
    assert_eq!(layout.ring[1].data, vec![1u8]);
}

#[test]
fn poll_returns_messages_then_runs_dry() {
    let mut layout = ShmLayout::new();
    assert_eq!(layout.poll(0), None);
    layout.publish(b"one".to_vec());
    layout.publish(b"two".to_vec());
    assert_eq!(layout.poll(0), Some((0, b"one".to_vec())));
    assert_eq!(layout.poll(0), Some((1, b"two".to_vec())));
    assert_eq!(layout.poll(0), None);
}

#[test]
fn consumers_advance_independently() {
    let mut layout = ShmLayout::new();
    layout.publish(b"first".to_vec());
    assert_eq!(layout.poll(1), Some((0, b"first".to_vec())));
    assert_eq!(layout.poll(1), None);
    // Consumer 0 has not moved and still sees the message.
    assert_eq!(layout.poll(0), Some((0, b"first".to_vec())));
    assert_eq!(layout.consumer_pos[0], 1);
    assert_eq!(layout.consumer_pos[1], 1);
    assert_eq!(layout.consumer_pos[2], 0);
}
