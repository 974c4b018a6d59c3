//! Channel naming: reserved names, missing names, duplicates, and teardown.

use io_channel::channel::Channel;
use io_channel::errors::ErrorCode;
use io_channel::registry::{is_pow2, Client, Registry, Server, POOL_BLOCKS, RING_SLOTS};
use io_channel::wait::{wait_for_channel, WaitResult};

#[test]
fn reserved_name_rejected_for_unprivileged() {
    let mut reg = Registry::new(false);
    match Server::create(&mut reg, "sys-io") {
        Err(err) => assert_eq!(err, ErrorCode::NotAllowed),
        Ok(_) => panic!("an unprivileged caller bound the reserved name"),
    }
}

#[test]
fn reserved_name_allowed_for_privileged() {
    let mut reg = Registry::new(true);
    assert!(Server::create(&mut reg, "sys-io").is_ok());
}

#[test]
fn connect_without_server_fails_immediately() {
    let mut reg = Registry::new(false);
    match Client::connect(&mut reg, "systest_channel") {
        Err(err) => assert_eq!(err, ErrorCode::NotFound),
        Ok(_) => panic!("connected to a name nobody listens on"),
    }
}

#[test]
fn duplicate_name_rejected() {
    let mut reg = Registry::new(false);
    let first = Server::create(&mut reg, "dup");
    assert!(first.is_ok());
    match Server::create(&mut reg, "dup") {
        Err(err) => assert_eq!(err, ErrorCode::AlreadyInUse),
        Ok(_) => panic!("bound one name twice"),
    }
}

#[test]
fn second_client_rejected() {
    let mut reg = Registry::new(false);
    let _pair = Server::create(&mut reg, "single_peer").unwrap();
    assert!(Client::connect(&mut reg, "single_peer").is_ok());
    match Client::connect(&mut reg, "single_peer") {
        Err(err) => assert_eq!(err, ErrorCode::AlreadyInUse),
        Ok(_) => panic!("a second peer attached"),
    }
}

#[test]
fn accept_before_connect_is_not_ready() {
    let mut reg = Registry::new(false);
    let (mut server, mut chan) = Server::create(&mut reg, "early_accept").unwrap();
    match server.accept(&reg, &mut chan) {
        Err(err) => assert_eq!(err, ErrorCode::NotReady),
        Ok(()) => panic!("accepted without a peer"),
    }
    let _client = Client::connect(&mut reg, "early_accept").unwrap();
    assert!(server.accept(&reg, &mut chan).is_ok());
}

#[test]
fn fresh_channel_geometry() {
    let mut reg = Registry::new(false);
    let (_server, chan) = Server::create(&mut reg, "geometry").unwrap();
    assert_eq!(chan.sub_capacity(), RING_SLOTS);
    assert_eq!(chan.comp_capacity(), RING_SLOTS);
    assert_eq!(chan.pool_blocks(), POOL_BLOCKS);
    assert!(is_pow2(chan.sub_capacity()));
    assert!(is_pow2(chan.comp_capacity()));
}

#[test]
fn power_of_two_check() {
    assert!(!is_pow2(0));
    assert!(is_pow2(1));
    assert!(is_pow2(2));
    assert!(!is_pow2(3));
    assert!(is_pow2(64));
    assert!(!is_pow2(65));
    assert!(is_pow2(65536));
}

#[test]
fn shutdown_surfaces_peer_gone() {
    let mut reg = Registry::new(false);
    let (mut server, mut chan) = Server::create(&mut reg, "teardown").unwrap();
    let _client = Client::connect(&mut reg, "teardown").unwrap();
    server.accept(&reg, &mut chan).unwrap();

    let connected_wait = wait_for_channel(&chan);
    assert_eq!(connected_wait, WaitResult::Signaled);

    close_from_server(server, &mut reg, &mut chan);

    assert_eq!(wait_for_channel(&chan), WaitResult::PeerGone);
    let entry = io_channel::entry::QueueEntry::new();
    assert_eq!(chan.submit_sqe(entry), Err(ErrorCode::PeerGone));
    assert_eq!(chan.get_cqe(), Err(ErrorCode::PeerGone));
    assert_eq!(chan.get_sqe(), Err(ErrorCode::PeerGone));

    // The name is free again.
    assert!(Server::create(&mut reg, "teardown").is_ok());
}

fn close_from_server(server: Server, reg: &mut Registry, chan: &mut Channel) {
    server.shutdown(reg, chan);
}

#[test]
fn error_code_names() {
    assert!(ErrorCode::Success.is_ok());
    assert!(!ErrorCode::NotReady.is_ok());
    assert_eq!(ErrorCode::Success.as_str(), "ok");
    assert_eq!(ErrorCode::NotReady.as_str(), "not ready");
    assert_eq!(ErrorCode::NotAllowed.as_str(), "not allowed");
    assert_eq!(ErrorCode::NotFound.as_str(), "not found");
    assert_eq!(ErrorCode::AlreadyInUse.as_str(), "already in use");
    assert_eq!(ErrorCode::PeerGone.as_str(), "peer gone");
    assert_eq!(ErrorCode::InvalidArgument.as_str(), "invalid argument");
}
