use shm_ipc::channel::{Channel, ChannelError};
use shm_ipc::frame::{decode_header, encode_header, HEADER_BYTES};
use shm_ipc::gate::{gate_poll, GateVerdict};
use shm_ipc::ring::{data_available_of, free_space_of, RingBuffer};

#[test]
fn round_trip_returns_payload_byte_for_byte() {
    let mut ch = Channel::new(64);
    let payload = vec![1u8, 2, 3, 4, 5];
    ch.write(&payload).unwrap();
    assert_eq!(ch.read().unwrap(), payload);
}

#[test]
fn round_trip_empty_payload() {
    let mut ch = Channel::new(16);
    let empty: Vec<u8> = Vec::new();
    ch.write(&empty).unwrap();
    assert_eq!(ch.read().unwrap(), empty);
}

#[test]
fn round_trip_largest_payload() {
    let mut ch = Channel::new(16);
    let payload = vec![0xabu8; 11];
    ch.write(&payload).unwrap();
    assert_eq!(ch.read().unwrap(), payload);
}

#[test]
fn capacity_budget_holds_at_every_observation_point() {
    let mut ch = Channel::new(32);
    assert_eq!(ch.free_space() + ch.data_available(), 31);
    ch.write(&vec![9u8; 3]).unwrap();
    assert_eq!(ch.free_space() + ch.data_available(), 31);
    ch.write(&vec![8u8; 6]).unwrap();
    assert_eq!(ch.free_space() + ch.data_available(), 31);
    ch.read().unwrap();
    assert_eq!(ch.free_space() + ch.data_available(), 31);
    ch.read().unwrap();
    assert_eq!(ch.free_space() + ch.data_available(), 31);
    ch.close();
    assert_eq!(ch.free_space() + ch.data_available(), 31);
}

#[test]
fn single_producer_messages_come_back_in_order() {
    let mut ch = Channel::new(64);
    let first = vec![1u8, 1];
    let second = vec![2u8, 2, 2];
    let third = vec![3u8];
    ch.write(&first).unwrap();
    ch.write(&second).unwrap();
    ch.write(&third).unwrap();
    assert_eq!(ch.read().unwrap(), first);
    assert_eq!(ch.read().unwrap(), second);
    assert_eq!(ch.read().unwrap(), third);
}

#[test]
fn backpressure_blocks_until_a_read_frees_space() {
    let mut ch = Channel::new(16);
    ch.write(&vec![5u8; 5]).unwrap();
    assert_eq!(ch.free_space(), 6);
    let head_before = ch.head();
    let tail_before = ch.tail();
    // A 4-byte payload needs 8 bytes of room; only 6 are free.
    let blocked = vec![7u8; 4];
    assert_eq!(ch.write(&blocked), Err(ChannelError::WouldBlock));
    assert_eq!(ch.head(), head_before);
    assert_eq!(ch.tail(), tail_before);
    assert_eq!(ch.free_space(), 6);
    // The concurrent read frees enough space; the retried write completes.
    assert_eq!(ch.read().unwrap(), vec![5u8; 5]);
    ch.write(&blocked).unwrap();
    assert_eq!(ch.read().unwrap(), blocked);
}

#[test]
fn oversize_write_rejected_without_touching_cursors() {
    let mut ch = Channel::new(16);
    ch.write(&vec![1u8, 2]).unwrap();
    let head_before = ch.head();
    let tail_before = ch.tail();
    let oversize = vec![0u8; 12];
    assert_eq!(ch.write(&oversize), Err(ChannelError::OversizeMessage));
    assert_eq!(ch.head(), head_before);
    assert_eq!(ch.tail(), tail_before);
    assert_eq!(ch.read().unwrap(), vec![1u8, 2]);
}

#[test]
fn shutdown_turns_an_empty_read_into_a_distinct_outcome() {
    let mut ch = Channel::new(16);
    assert_eq!(ch.read(), Err(ChannelError::WouldBlock));
    ch.close();
    assert_eq!(ch.read(), Err(ChannelError::ShutdownObserved));
}

#[test]
fn shutdown_turns_a_full_write_into_a_distinct_outcome() {
    let mut ch = Channel::new(16);
    ch.write(&vec![1u8; 8]).unwrap();
    let parked = vec![2u8; 4];
    assert_eq!(ch.write(&parked), Err(ChannelError::WouldBlock));
    ch.close();
    assert_eq!(ch.write(&parked), Err(ChannelError::ShutdownObserved));
}

#[test]
fn close_is_idempotent_and_observable() {
    let mut ch = Channel::new(16);
    assert!(!ch.is_closed());
    ch.close();
    assert!(ch.is_closed());
    ch.close();
    assert!(ch.is_closed());
}

#[test]
fn write_still_completes_after_close_when_space_suffices() {
    let mut ch = Channel::new(32);
    ch.close();
    ch.write(&vec![4u8; 4]).unwrap();
    assert_eq!(ch.read().unwrap(), vec![4u8; 4]);
}

#[test]
fn interleaved_producers_lose_and_duplicate_nothing() {
    let producers: u8 = 2;
    let per_producer: u8 = 10;
    let mut ch = Channel::new(64);
    let mut received: Vec<Vec<u8>> = Vec::new();
    for i in 0..per_producer {
        for p in 0..producers {
            let msg = vec![p, i];
            loop {
                match ch.write(&msg) {
                    Ok(()) => break,
                    Err(ChannelError::WouldBlock) => {
                        received.push(ch.read().unwrap());
                    }
                    Err(e) => panic!("unexpected outcome: {:?}", e),
                }
            }
        }
    }
    loop {
        match ch.read() {
            Ok(msg) => received.push(msg),
            Err(ChannelError::WouldBlock) => break,
            Err(e) => panic!("unexpected outcome: {:?}", e),
        }
    }
    assert_eq!(received.len(), usize::from(producers) * usize::from(per_producer));
    for p in 0..producers {
        for i in 0..per_producer {
            let tag = vec![p, i];
            let count = received.iter().filter(|m| **m == tag).count();
            assert_eq!(count, 1);
        }
    }
}

#[test]
fn wraparound_never_corrupts_payloads() {
    let capacity: usize = 32;
    let mut ch = Channel::new(capacity);
    let mut bytes_through: usize = 0;
    for round in 0..30u8 {
        let payload = vec![round, round ^ 0xff, round.wrapping_mul(3), 0x5a];
        ch.write(&payload).unwrap();
        bytes_through += HEADER_BYTES + payload.len();
        assert!(ch.head() < capacity);
        assert!(ch.tail() < capacity);
        assert_eq!(ch.read().unwrap(), payload);
    }
    // The cursors travelled the ring several times over.
    assert!(bytes_through > 2 * capacity);
}

#[test]
fn header_codec_is_little_endian_and_round_trips() {
    assert_eq!(encode_header(5), vec![5u8, 0, 0, 0]);
    assert_eq!(encode_header(0x0102_0304), vec![4u8, 3, 2, 1]);
    assert_eq!(decode_header(&[4u8, 3, 2, 1]), 0x0102_0304);
    for len in [0u32, 1, 11, 255, 256, 65_535, 1_000_000] {
        assert_eq!(decode_header(&encode_header(len)), len);
    }
}

#[test]
fn gate_poll_decides_proceed_wait_or_shutdown() {
    assert_eq!(gate_poll(8, 8, false), GateVerdict::Proceed);
    assert_eq!(gate_poll(9, 8, true), GateVerdict::Proceed);
    assert_eq!(gate_poll(7, 8, false), GateVerdict::Wait);
    assert_eq!(gate_poll(7, 8, true), GateVerdict::ShutdownObserved);
    assert_eq!(gate_poll(0, 4, false), GateVerdict::Wait);
    assert_eq!(gate_poll(0, 4, true), GateVerdict::ShutdownObserved);
}

#[test]
fn cursor_arithmetic_matches_both_regimes() {
    // head ahead of tail
    assert_eq!(free_space_of(10, 4, 16), 9);
    assert_eq!(data_available_of(10, 4, 16), 6);
    // head wrapped behind tail
    assert_eq!(free_space_of(3, 12, 16), 8);
    assert_eq!(data_available_of(3, 12, 16), 7);
    // empty
    assert_eq!(free_space_of(0, 0, 16), 15);
    assert_eq!(data_available_of(0, 0, 16), 0);
}

#[test]
fn ring_buffer_splits_a_copy_across_the_seam() {
    let mut rb = RingBuffer::with_capacity(8);
    rb.write_bytes(&[1u8, 2, 3, 4, 5]);
    assert_eq!(rb.read_bytes(3), vec![1u8, 2, 3]);
    // head is at 5, tail at 3: this copy straddles the end of the block.
    rb.write_bytes(&[6u8, 7, 8, 9]);
    assert_eq!(rb.peek_bytes(2), vec![4u8, 5]);
    assert_eq!(rb.read_bytes(6), vec![4u8, 5, 6, 7, 8, 9]);
    assert_eq!(rb.data_available(), 0);
    assert_eq!(rb.free_space(), 7);
}
