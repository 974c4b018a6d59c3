//! The cooperative executor: many logical operations over one channel.

use io_channel::channel::Channel;
use io_channel::entry::QueueEntry;
use io_channel::errors::ErrorCode;
use io_channel::executor::IoExecutor;
use io_channel::registry::{Client, Registry, Server};
use io_channel::transform::invert_buffer;

fn connected_channel(name: &str) -> Channel {
    let mut reg = Registry::new(false);
    let (mut server, mut chan) = Server::create(&mut reg, name).unwrap();
    let _client = Client::connect(&mut reg, name).unwrap();
    server.accept(&reg, &mut chan).unwrap();
    chan
}

/// One server pass: echo every pending submission as a success.
fn serve_echo(chan: &mut Channel) {
    while let Ok(mut sqe) = chan.get_sqe() {
        sqe.status = ErrorCode::Success;
        chan.complete_sqe(sqe).unwrap();
    }
}

#[test]
fn batch_without_buffers() {
    let mut chan = connected_channel("exec_plain");
    let mut exec = IoExecutor::new();

    let batch: u64 = 16;
    for id in 0..batch {
        let mut e = QueueEntry::new();
        e.id = id;
        let idx = exec.spawn(e, 0);
        assert_eq!(idx as u64, id);
    }
    assert!(!exec.all_done());

    // Drive the scheduler until every task has its completion; the server
    // runs between passes, as the wait bridge would arrange.
    let mut passes = 0;
    while !exec.all_done() {
        exec.step(&mut chan);
        serve_echo(&mut chan);
        passes += 1;
        assert!(passes < 100, "the executor made no progress");
    }

    for id in 0..batch {
        let done = exec.task_done(id as usize).unwrap();
        assert_eq!(done.id, id);
        assert!(done.status_is_ok());
    }
    assert!(chan.is_empty());
}

#[test]
fn batch_with_buffers() {
    let mut chan = connected_channel("exec_buf");
    let mut exec = IoExecutor::new();

    let batch: u64 = 8;
    for id in 0..batch {
        let mut e = QueueEntry::new();
        e.id = id;
        exec.spawn(e, 4);
    }

    let mut passes = 0;
    while !exec.all_done() {
        exec.step(&mut chan);
        // The server inverts each buffer before completing.
        while let Ok(mut sqe) = chan.get_sqe() {
            let token = sqe.payload.buffer(0);
            invert_buffer(&mut chan, token);
            sqe.status = ErrorCode::Success;
            chan.complete_sqe(sqe).unwrap();
        }
        passes += 1;
        assert!(passes < 100, "the executor made no progress");
    }

    for id in 0..batch {
        let done = exec.task_done(id as usize).unwrap();
        assert_eq!(done.id, id);
        assert!(done.status_is_ok());
        let token = done.payload.buffer(0);
        assert!(token.is_some());
        chan.free_buffer(token).unwrap();
    }
    assert!(chan.is_empty());
}

#[test]
fn one_pass_finishes_waiting_task() {
    // Per-pass progress: once the server has completed the entry, a single
    // scheduler pass drains it and finishes the waiting task.
    let mut chan = connected_channel("exec_one_pass");
    let mut exec = IoExecutor::new();
    let mut e = QueueEntry::new();
    e.id = 33;
    let idx = exec.spawn(e, 0);

    exec.step(&mut chan);
    assert!(exec.task_done(idx).is_none());
    serve_echo(&mut chan);

    exec.step(&mut chan);
    let done = exec.task_done(idx).unwrap();
    assert_eq!(done.id, 33);
    assert!(done.status_is_ok());
    assert!(chan.is_empty());
}

#[test]
fn more_tasks_than_ring_slots() {
    // More concurrent operations than the submission ring can hold at
    // once: tasks stay suspended on the full ring and finish over several
    // passes, without starvation.
    let mut chan = connected_channel("exec_many");
    let mut exec = IoExecutor::new();

    let batch: u64 = 200;
    for id in 0..batch {
        let mut e = QueueEntry::new();
        e.id = id;
        exec.spawn(e, 0);
    }

    let mut passes = 0;
    while !exec.all_done() {
        exec.step(&mut chan);
        serve_echo(&mut chan);
        passes += 1;
        assert!(passes < 1000, "the executor made no progress");
    }

    for id in 0..batch {
        let done = exec.task_done(id as usize).unwrap();
        assert_eq!(done.id, id);
    }
    assert!(chan.is_empty());
}
