//! Ring traffic between the two endpoints: echo, backpressure, drain,
//! conservation, and the full zero-copy scenario.

use io_channel::channel::Channel;
use io_channel::entry::{QueueEntry, BLOCK_SIZE};
use io_channel::errors::ErrorCode;
use io_channel::registry::{Client, Registry, Server, RING_SLOTS};
use io_channel::transform::{buffer_is_filled, invert_buffer};
use io_channel::wait::{wait_for_channel, WaitResult};

/// A connected channel for the tests below.
fn connected_channel(name: &str) -> Channel {
    let mut reg = Registry::new(false);
    let (mut server, mut chan) = Server::create(&mut reg, name).unwrap();
    let _client = Client::connect(&mut reg, name).unwrap();
    server.accept(&reg, &mut chan).unwrap();
    chan
}

/// One server pass: dequeue every pending submission, echo it back as a
/// successful completion.
fn serve_echo(chan: &mut Channel) {
    loop {
        match chan.get_sqe() {
            Ok(mut sqe) => {
                sqe.status = ErrorCode::Success;
                chan.complete_sqe(sqe).unwrap();
            }
            Err(err) => {
                assert_eq!(err, ErrorCode::NotReady);
                break;
            }
        }
    }
}

#[test]
fn submit_echo_poll() {
    let mut chan = connected_channel("echo");
    let mut sqe = QueueEntry::new();
    sqe.id = 42;
    sqe.command = 7;
    chan.submit_sqe(sqe).unwrap();
    assert!(!chan.is_empty());

    serve_echo(&mut chan);

    let cqe = chan.get_cqe().unwrap();
    assert_eq!(cqe.id, 42);
    assert_eq!(cqe.command, 7);
    assert!(cqe.status_is_ok());
    assert!(chan.is_empty());
}

#[test]
fn empty_rings_answer_not_ready() {
    let mut chan = connected_channel("idle");
    assert_eq!(chan.get_cqe(), Err(ErrorCode::NotReady));
    assert_eq!(chan.get_sqe(), Err(ErrorCode::NotReady));
    assert!(chan.is_empty());
}

#[test]
fn backpressure_and_recovery() {
    let mut chan = connected_channel("pressure");

    // Fill the submission ring to its capacity.
    for i in 0..RING_SLOTS as u64 {
        let mut sqe = QueueEntry::new();
        sqe.id = i;
        chan.submit_sqe(sqe).unwrap();
    }
    assert_eq!(chan.sub_free_slots(), 0);

    // The next submission is refused transiently, not terminally.
    let mut blocked = QueueEntry::new();
    blocked.id = 999;
    assert_eq!(chan.submit_sqe(blocked), Err(ErrorCode::NotReady));
    assert_eq!(chan.submit_sqe(blocked), Err(ErrorCode::NotReady));

    // Wait on the peer, let the server drain, drain completions: the same
    // entry must now go through.
    assert_eq!(wait_for_channel(&chan), WaitResult::Signaled);
    serve_echo(&mut chan);
    let mut received = 0u64;
    while let Ok(_cqe) = chan.get_cqe() {
        received += 1;
    }
    assert_eq!(received, RING_SLOTS as u64);
    chan.submit_sqe(blocked).unwrap();

    serve_echo(&mut chan);
    let cqe = chan.get_cqe().unwrap();
    assert_eq!(cqe.id, 999);
    assert!(chan.is_empty());
}

#[test]
fn is_empty_tracks_outstanding_entries() {
    let mut chan = connected_channel("drain");
    assert!(chan.is_empty());

    let mut sqe = QueueEntry::new();
    sqe.id = 5;
    chan.submit_sqe(sqe).unwrap();
    assert!(!chan.is_empty());

    // Dequeued but not completed: still outstanding.
    let held = chan.get_sqe().unwrap();
    assert!(!chan.is_empty());

    // Completed but not yet polled: still outstanding.
    chan.complete_sqe(held).unwrap();
    assert!(!chan.is_empty());

    // Polled: drained.
    let cqe = chan.get_cqe().unwrap();
    assert_eq!(cqe.id, 5);
    assert!(chan.is_empty());
}

#[test]
fn conservation_of_ids() {
    let mut chan = connected_channel("ledger");
    let mut sum_sent: u64 = 0;
    let mut sum_received: u64 = 0;

    // Repeated and distinct ids, submitted in several waves.
    let waves: [&[u64]; 3] = [&[1, 2, 3, 2, 1], &[10, 10, 10], &[7, 100, 9, 9]];
    for wave in waves.iter() {
        for &id in wave.iter() {
            let mut sqe = QueueEntry::new();
            sqe.id = id;
            chan.submit_sqe(sqe).unwrap();
            sum_sent += id;
        }
        serve_echo(&mut chan);
        while let Ok(cqe) = chan.get_cqe() {
            sum_received += cqe.id;
        }
    }

    assert!(chan.is_empty());
    assert_eq!(sum_sent, sum_received);
}

#[test]
fn end_to_end_two_block_transfer() {
    let mut chan = connected_channel("e2e");

    // Client: allocate two blocks, fill them with 0x02, submit under id 7.
    let buffer = chan.alloc_buffer(2).unwrap();
    assert_eq!(buffer.len_bytes(), 2 * BLOCK_SIZE);
    chan.fill_buffer(buffer, 0x02);
    let mut sqe = QueueEntry::new();
    sqe.id = 7;
    sqe.payload.set_buffer(0, buffer);
    chan.submit_sqe(sqe).unwrap();

    // Server: dequeue, verify the pattern, invert it, complete with id 7.
    let mut held = chan.get_sqe().unwrap();
    assert_eq!(held.id, 7);
    let token = held.payload.buffer(0);
    assert_eq!(token.len_bytes(), 2 * BLOCK_SIZE);
    assert!(buffer_is_filled(&chan, token, 0x02));
    invert_buffer(&mut chan, token);
    held.status = ErrorCode::Success;
    chan.complete_sqe(held).unwrap();

    // Client: poll, observe id 7 and every byte 0x02 ^ 0xFF == 0xFD.
    let cqe = chan.get_cqe().unwrap();
    assert_eq!(cqe.id, 7);
    assert!(cqe.status_is_ok());
    let back = cqe.payload.buffer(0);
    let bytes = chan.buffer_to_vec(back);
    assert_eq!(bytes.len(), 2 * BLOCK_SIZE);
    for b in bytes {
        assert_eq!(b, 0xFD);
    }
    chan.free_buffer(back).unwrap();
    assert!(chan.is_empty());
}

/// The full patterned exchange: for each block count `k`
/// from 1 to 10, the client fills a `k`-block buffer with the pattern byte
/// `k`, the server verifies it and inverts every byte, and the client checks
/// the inverted pattern. Both sides retry through `NotReady` by letting the
/// peer run — the in-process stand-in for waiting on the peer's handle.
#[test]
fn patterned_exchange_all_block_counts() {
    let mut chan = connected_channel("exchange");
    let iters: u64 = 3;
    let mut values_sent: u64 = 0;
    let mut values_received: u64 = 0;

    for iter in 0..iters {
        for num_blocks in 1..11u16 {
            let buffer = loop {
                match chan.alloc_buffer(num_blocks) {
                    Ok(buffer) => break buffer,
                    Err(err) => {
                        assert_eq!(err, ErrorCode::NotReady);
                        serve_patterned(&mut chan);
                        values_received += drain_and_check(&mut chan);
                    }
                }
            };
            let mut sqe = QueueEntry::new();
            sqe.id = (iter << 32) + (num_blocks as u64);
            chan.fill_buffer(buffer, num_blocks as u8);
            sqe.payload.set_buffer(0, buffer);
            values_sent += sqe.id;
            loop {
                match chan.submit_sqe(sqe) {
                    Ok(()) => break,
                    Err(err) => {
                        assert_eq!(err, ErrorCode::NotReady);
                        serve_patterned(&mut chan);
                        values_received += drain_and_check(&mut chan);
                    }
                }
            }
        }
    }

    while !chan.is_empty() {
        serve_patterned(&mut chan);
        values_received += drain_and_check(&mut chan);
    }
    assert_eq!(values_sent, values_received);
}

/// Server half of the patterned exchange: verify the pattern byte derived
/// from the id's low bits, invert the buffer, complete under the same id.
fn serve_patterned(chan: &mut Channel) {
    loop {
        let mut sqe = match chan.get_sqe() {
            Ok(sqe) => sqe,
            Err(err) => {
                assert_eq!(err, ErrorCode::NotReady);
                return;
            }
        };
        let token = sqe.payload.buffer(0);
        let num_blocks = (sqe.id & 0xFFFF) as u8;
        assert_eq!(token.len_bytes(), num_blocks as usize * BLOCK_SIZE);
        assert!(buffer_is_filled(chan, token, num_blocks));
        invert_buffer(chan, token);
        sqe.status = ErrorCode::Success;
        // Both rings have the same capacity and the client drains the
        // completion ring after every server pass, so there is always room.
        chan.complete_sqe(sqe).unwrap();
    }
}

/// Client half: poll every pending completion, check the inverted pattern,
/// free the buffer, and return the sum of received ids.
fn drain_and_check(chan: &mut Channel) -> u64 {
    let mut sum: u64 = 0;
    loop {
        match chan.get_cqe() {
            Ok(cqe) => {
                sum += cqe.id;
                let token = cqe.payload.buffer(0);
                let num_blocks = (cqe.id & 0xFFFF) as u8;
                let bytes = chan.buffer_to_vec(token);
                assert_eq!(bytes.len(), num_blocks as usize * BLOCK_SIZE);
                for b in bytes {
                    assert_eq!(b, num_blocks ^ 0xFF);
                }
                chan.free_buffer(token).unwrap();
            }
            Err(err) => {
                assert_eq!(err, ErrorCode::NotReady);
                return sum;
            }
        }
    }
}
