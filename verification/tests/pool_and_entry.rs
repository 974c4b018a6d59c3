//! Buffer pool behaviour and the fixed-size entry format.

use io_channel::channel::Channel;
use io_channel::entry::{IoBuffer, Payload, QueueEntry, BLOCK_SIZE, CMD_NOOP_OK, PAYLOAD_SLOTS};
use io_channel::errors::ErrorCode;
use io_channel::registry::{Client, Registry, Server, POOL_BLOCKS};
use io_channel::transform::{buffer_is_filled, invert_buffer};

fn connected_channel(name: &str) -> Channel {
    let mut reg = Registry::new(false);
    let (mut server, mut chan) = Server::create(&mut reg, name).unwrap();
    let _client = Client::connect(&mut reg, name).unwrap();
    server.accept(&reg, &mut chan).unwrap();
    chan
}

#[test]
fn allocation_is_whole_blocks() {
    let mut chan = connected_channel("blocks");
    let one = chan.alloc_buffer(1).unwrap();
    assert_eq!(one.len_bytes(), BLOCK_SIZE);
    let three = chan.alloc_buffer(3).unwrap();
    assert_eq!(three.len_bytes(), 3 * BLOCK_SIZE);
    assert_eq!(BLOCK_SIZE, 512);
    chan.free_buffer(one).unwrap();
    chan.free_buffer(three).unwrap();
}

#[test]
fn exhaustion_is_transient_not_terminal() {
    let mut chan = connected_channel("exhaust");
    let all = chan.alloc_buffer(POOL_BLOCKS).unwrap();
    match chan.alloc_buffer(1) {
        Err(err) => assert_eq!(err, ErrorCode::NotReady),
        Ok(_) => panic!("allocated from an exhausted pool"),
    }
    chan.free_buffer(all).unwrap();
    assert!(chan.alloc_buffer(1).is_ok());
}

#[test]
fn contiguous_run_needed() {
    let mut chan = connected_channel("contig");
    // Carve the pool into three runs, free the middle one: a run of its
    // size fits, one block more does not fit there.
    let a = chan.alloc_buffer(50).unwrap();
    let b = chan.alloc_buffer(50).unwrap();
    let c = chan.alloc_buffer(POOL_BLOCKS - 100).unwrap();
    chan.free_buffer(b).unwrap();
    let again = chan.alloc_buffer(50).unwrap();
    match chan.alloc_buffer(1) {
        Err(err) => assert_eq!(err, ErrorCode::NotReady),
        Ok(_) => panic!("no free block should remain"),
    }
    chan.free_buffer(a).unwrap();
    chan.free_buffer(c).unwrap();
    chan.free_buffer(again).unwrap();
}

#[test]
fn distinct_buffers_do_not_alias() {
    let mut chan = connected_channel("alias");
    let a = chan.alloc_buffer(2).unwrap();
    let b = chan.alloc_buffer(2).unwrap();
    chan.fill_buffer(a, 0xAA);
    chan.fill_buffer(b, 0x55);
    assert!(buffer_is_filled(&chan, a, 0xAA));
    assert!(buffer_is_filled(&chan, b, 0x55));
    invert_buffer(&mut chan, a);
    assert!(buffer_is_filled(&chan, a, 0x55));
    assert!(buffer_is_filled(&chan, b, 0x55));
    chan.free_buffer(a).unwrap();
    chan.free_buffer(b).unwrap();
}

#[test]
fn byte_access_round_trip() {
    let mut chan = connected_channel("bytes");
    let t = chan.alloc_buffer(1).unwrap();
    chan.fill_buffer(t, 0);
    chan.write_buffer_byte(t, 0, 1);
    chan.write_buffer_byte(t, 511, 255);
    assert_eq!(chan.read_buffer_byte(t, 0), 1);
    assert_eq!(chan.read_buffer_byte(t, 1), 0);
    assert_eq!(chan.read_buffer_byte(t, 511), 255);
    let v = chan.buffer_to_vec(t);
    assert_eq!(v.len(), BLOCK_SIZE);
    assert_eq!(v[0], 1);
    assert_eq!(v[511], 255);
    chan.free_buffer(t).unwrap();
}

#[test]
fn transform_round_trip_every_block_count() {
    // The pattern round trip: block count k, pattern byte k, inverted to
    // k ^ 0xFF over exactly k * 512 bytes.
    let mut chan = connected_channel("roundtrip");
    for k in 1..11u16 {
        let t = chan.alloc_buffer(k).unwrap();
        chan.fill_buffer(t, k as u8);
        assert_eq!(t.len_bytes(), k as usize * 512);
        invert_buffer(&mut chan, t);
        assert!(buffer_is_filled(&chan, t, (k as u8) ^ 0xFF));
        let bytes = chan.buffer_to_vec(t);
        assert_eq!(bytes.len(), k as usize * 512);
        for b in bytes {
            assert_eq!(b, (k as u8) ^ 0xFF);
        }
        chan.free_buffer(t).unwrap();
    }
}

#[test]
fn fresh_entry_is_zeroed() {
    let e = QueueEntry::new();
    assert_eq!(e.id, 0);
    assert_eq!(e.command, CMD_NOOP_OK);
    assert!(e.status_is_ok());
    for i in 0..PAYLOAD_SLOTS {
        assert!(!e.payload.buffer(i).is_some());
    }
    assert_eq!(e.payload.arg(0), 0);
    assert_eq!(e.payload.arg(1), 0);
}

#[test]
fn payload_slots_are_independent() {
    let mut p = Payload::new();
    let t0 = IoBuffer { start_block: 3, num_blocks: 2 };
    let t1 = IoBuffer { start_block: 9, num_blocks: 1 };
    p.set_buffer(0, t0);
    p.set_buffer(1, t1);
    p.set_arg(0, 11);
    p.set_arg(1, 22);
    assert_eq!(p.buffer(0), t0);
    assert_eq!(p.buffer(1), t1);
    assert_eq!(p.arg(0), 11);
    assert_eq!(p.arg(1), 22);
    p.set_buffer(0, IoBuffer::none());
    assert!(!p.buffer(0).is_some());
    assert_eq!(p.buffer(1), t1);
    assert_eq!(p.arg(0), 11);
}
