use nrl_relay::address::Address;
use nrl_relay::cli::{parse_port, port_from_args};
use nrl_relay::frame::{parse_frame, Frame, MIN_FRAME_LEN};
use nrl_relay::registry::{same_id, ClientEntry, ClientId, Registry, RegistryError};
use nrl_relay::relay::{handle_packet, Outcome};
use nrl_relay::{DEFAULT_PORT, MAX_CLIENTS, TIMEOUT_NANOS};

const SECOND: u64 = 1_000_000_000;

fn v4(last_octet: u32, port: u16) -> Address {
    Address::V4 { ipv4: 0x0a00_0000 | last_octet, port }
}

fn id(n: u8) -> ClientId {
    [b'c', b'p', b'u', b'-', b'0', b'0', n]
}

fn frame(sender: ClientId, receiver: ClientId, payload: &[u8]) -> Vec<u8> {
    let mut b = b"NRL2".to_vec();
    b.extend_from_slice(&[0xAB, 0xCD]);
    b.extend_from_slice(&sender);
    b.extend_from_slice(&receiver);
    b.extend_from_slice(payload);
    b
}

#[test]
fn parse_reads_both_identifiers() {
    let b = frame(id(1), id(2), b"hello");
    assert_eq!(parse_frame(&b), Some(Frame { sender: id(1), receiver: id(2) }));
}

#[test]
fn parse_accepts_shortest_frame() {
    let b = frame(id(3), id(4), b"");
    assert_eq!(b.len(), MIN_FRAME_LEN);
    assert_eq!(parse_frame(&b), Some(Frame { sender: id(3), receiver: id(4) }));
}

#[test]
fn parse_rejects_one_byte_short() {
    let b = frame(id(3), id(4), b"");
    assert_eq!(parse_frame(&b[..19]), None);
}

#[test]
fn parse_rejects_ten_bytes() {
    assert_eq!(parse_frame(b"NRL2abcdef"), None);
}

#[test]
fn parse_rejects_wrong_tag() {
    let mut b = frame(id(1), id(2), b"xxxxx");
    assert_eq!(b.len(), 25);
    b[3] = b'3';
    assert_eq!(parse_frame(&b), None);
    b[3] = b'2';
    b[0] = b'n';
    assert_eq!(parse_frame(&b), None);
}

#[test]
fn parse_ignores_reserved_bytes() {
    let mut b = frame(id(5), id(6), b"");
    b[4] = 0;
    b[5] = 0xFF;
    assert_eq!(parse_frame(&b), Some(Frame { sender: id(5), receiver: id(6) }));
}

#[test]
fn same_id_compares_every_byte() {
    assert!(same_id(&id(1), &id(1)));
    assert!(!same_id(&id(1), &id(2)));
    let mut a = id(1);
    a[0] = b'C';
    assert!(!same_id(&a, &id(1)));
}

#[test]
fn new_registry_is_empty() {
    let r = Registry::new();
    assert_eq!(r.len(), 0);
    assert_eq!(r.capacity(), MAX_CLIENTS);
    assert_eq!(r.find_fresh(&id(1), 0, TIMEOUT_NANOS), None);
}

#[test]
fn refresh_creates_then_updates() {
    let mut r = Registry::new();
    let e = r.refresh_or_create(id(1), v4(1, 100), 5 * SECOND);
    assert_eq!(e, Ok(ClientEntry { id: id(1), address: v4(1, 100), last_seen: 5 * SECOND }));
    assert_eq!(r.len(), 1);
    let e = r.refresh_or_create(id(1), v4(2, 200), 9 * SECOND);
    assert_eq!(e, Ok(ClientEntry { id: id(1), address: v4(2, 200), last_seen: 9 * SECOND }));
    assert_eq!(r.len(), 1);
    let found = r.find_fresh(&id(1), 9 * SECOND, TIMEOUT_NANOS).unwrap();
    assert_eq!(found.address, v4(2, 200));
    assert_eq!(found.last_seen, 9 * SECOND);
}

#[test]
fn find_and_update_leaves_unknown_alone() {
    let mut r = Registry::new();
    assert_eq!(r.find_and_update(&id(1), v4(1, 1), 0), None);
    assert_eq!(r.len(), 0);
    r.refresh_or_create(id(1), v4(1, 1), 0).unwrap();
    let e = r.find_and_update(&id(1), v4(3, 3), 7).unwrap();
    assert_eq!(e.address, v4(3, 3));
    assert_eq!(e.last_seen, 7);
    assert_eq!(r.len(), 1);
}

#[test]
fn add_client_replaces_same_identifier() {
    let mut r = Registry::with_capacity(2);
    assert!(r.add_client(id(1), v4(1, 1), 1).is_some());
    assert!(r.add_client(id(1), v4(2, 2), 2).is_some());
    assert_eq!(r.len(), 1);
    assert_eq!(r.find_fresh(&id(1), 2, TIMEOUT_NANOS).unwrap().address, v4(2, 2));
    assert!(r.add_client(id(2), v4(3, 3), 3).is_some());
    assert_eq!(r.add_client(id(3), v4(4, 4), 4), None);
    assert_eq!(r.len(), 2);
}

#[test]
fn registry_full_rejects_new_keeps_old() {
    let mut r = Registry::with_capacity(2);
    r.refresh_or_create(id(1), v4(1, 1), 0).unwrap();
    r.refresh_or_create(id(2), v4(2, 2), 0).unwrap();
    assert_eq!(r.refresh_or_create(id(3), v4(3, 3), 0), Err(RegistryError::Full));
    assert_eq!(r.len(), 2);
    assert_eq!(r.find_fresh(&id(3), 0, TIMEOUT_NANOS), None);
    let e = r.refresh_or_create(id(2), v4(9, 9), 1).unwrap();
    assert_eq!(e.address, v4(9, 9));
    assert_eq!(r.len(), 2);
}

#[test]
fn zero_capacity_registers_nobody() {
    let mut r = Registry::with_capacity(0);
    assert_eq!(r.refresh_or_create(id(1), v4(1, 1), 0), Err(RegistryError::Full));
    assert_eq!(r.len(), 0);
}

#[test]
fn freshness_boundaries() {
    let mut r = Registry::new();
    let t = 1000 * SECOND;
    r.refresh_or_create(id(1), v4(1, 1), t).unwrap();
    assert!(r.find_fresh(&id(1), t + TIMEOUT_NANOS, TIMEOUT_NANOS).is_some());
    assert!(r.find_fresh(&id(1), t + TIMEOUT_NANOS + 1, TIMEOUT_NANOS).is_none());
    assert!(r.find_fresh(&id(1), t - 50 * SECOND, TIMEOUT_NANOS).is_some());
    assert!(r.find_fresh(&id(1), 0, 0).is_some());
    assert!(r.find_fresh(&id(1), t + 1, 0).is_none());
}

#[test]
fn timeout_is_one_hundred_seconds() {
    assert_eq!(TIMEOUT_NANOS, 100 * SECOND);
}

#[test]
fn new_sender_is_registered_at_source() {
    let mut r = Registry::new();
    let b = frame(id(1), id(2), b"payload");
    assert_eq!(handle_packet(&mut r, &b, v4(1, 4000), SECOND), Outcome::NoTarget);
    assert_eq!(r.len(), 1);
    let e = r.find_fresh(&id(1), SECOND, TIMEOUT_NANOS).unwrap();
    assert_eq!(e.address, v4(1, 4000));
    assert_eq!(e.last_seen, SECOND);
}

#[test]
fn known_sender_is_refreshed_without_duplicate() {
    let mut r = Registry::new();
    let b = frame(id(1), id(2), b"");
    handle_packet(&mut r, &b, v4(1, 4000), SECOND);
    handle_packet(&mut r, &b, v4(7, 5000), 3 * SECOND);
    assert_eq!(r.len(), 1);
    let e = r.find_fresh(&id(1), 3 * SECOND, TIMEOUT_NANOS).unwrap();
    assert_eq!(e.address, v4(7, 5000));
    assert_eq!(e.last_seen, 3 * SECOND);
}

fn numbered(n: u32) -> ClientId {
    let mut s = id(0);
    s[4] = (n >> 16) as u8;
    s[5] = (n >> 8) as u8;
    s[6] = n as u8;
    s
}

#[test]
fn capacity_plus_one_sender_is_refused() {
    let mut r = Registry::new();
    for n in 0..MAX_CLIENTS as u32 {
        let s = numbered(n);
        let b = frame(s, id(0xEE), b"");
        assert_eq!(handle_packet(&mut r, &b, v4(n, 1), SECOND), Outcome::NoTarget);
    }
    assert_eq!(r.len(), MAX_CLIENTS);
    let mut extra = id(0);
    extra[3] = b'X';
    let b = frame(extra, id(0xEE), b"");
    assert_eq!(handle_packet(&mut r, &b, v4(9, 9), SECOND), Outcome::RegistryFull);
    assert_eq!(r.len(), MAX_CLIENTS);
    assert!(r.find_fresh(&extra, SECOND, TIMEOUT_NANOS).is_none());
    let b = frame(numbered(0), id(0xEE), b"");
    assert_eq!(handle_packet(&mut r, &b, v4(8, 8), 2 * SECOND), Outcome::NoTarget);
    assert_eq!(r.find_fresh(&numbered(0), 2 * SECOND, TIMEOUT_NANOS).unwrap().address, v4(8, 8));
    assert_eq!(r.len(), MAX_CLIENTS);
}

#[test]
fn frame_to_fresh_receiver_is_forwarded() {
    let mut r = Registry::new();
    let x = v4(1, 1111);
    let y = v4(2, 2222);
    let z = v4(3, 3333);
    handle_packet(&mut r, &frame(id(2), id(9), b""), y, 10 * SECOND);
    handle_packet(&mut r, &frame(id(3), id(9), b""), z, 10 * SECOND);
    let b = frame(id(1), id(2), b"data for B");
    let before = b.clone();
    assert_eq!(handle_packet(&mut r, &b, x, 20 * SECOND), Outcome::Forward(y));
    assert_eq!(b, before);
    assert_eq!(r.len(), 3);
}

#[test]
fn frame_to_stale_receiver_is_dropped() {
    let mut r = Registry::new();
    handle_packet(&mut r, &frame(id(2), id(9), b""), v4(2, 2), 10 * SECOND);
    let b = frame(id(1), id(2), b"late");
    let now = 10 * SECOND + TIMEOUT_NANOS + 1;
    assert_eq!(handle_packet(&mut r, &b, v4(1, 1), now), Outcome::NoTarget);
    assert_eq!(handle_packet(&mut r, &b, v4(1, 1), 111 * SECOND), Outcome::NoTarget);
    assert_eq!(handle_packet(&mut r, &b, v4(1, 1), 110 * SECOND), Outcome::Forward(v4(2, 2)));
}

#[test]
fn stale_client_can_come_back() {
    let mut r = Registry::new();
    handle_packet(&mut r, &frame(id(2), id(9), b""), v4(2, 2), 0);
    let late = 500 * SECOND;
    assert_eq!(handle_packet(&mut r, &frame(id(1), id(2), b""), v4(1, 1), late), Outcome::NoTarget);
    handle_packet(&mut r, &frame(id(2), id(9), b""), v4(2, 3), late);
    assert_eq!(
        handle_packet(&mut r, &frame(id(1), id(2), b""), v4(1, 1), late),
        Outcome::Forward(v4(2, 3))
    );
    assert_eq!(r.len(), 2);
}

#[test]
fn malformed_frames_change_nothing() {
    let mut r = Registry::new();
    handle_packet(&mut r, &frame(id(2), id(9), b""), v4(2, 2), SECOND);
    let ten = [b'N', b'R', b'L', b'2', 0, 0, b'c', b'p', b'u', b'-'];
    assert_eq!(handle_packet(&mut r, &ten, v4(1, 1), SECOND), Outcome::Malformed);
    let mut bad = frame(id(1), id(2), b"abcde");
    bad[0] = b'X';
    assert_eq!(bad.len(), 25);
    assert_eq!(handle_packet(&mut r, &bad, v4(1, 1), SECOND), Outcome::Malformed);
    assert_eq!(handle_packet(&mut r, &[], v4(1, 1), SECOND), Outcome::Malformed);
    assert_eq!(r.len(), 1);
    assert!(r.find_fresh(&id(1), SECOND, TIMEOUT_NANOS).is_none());
}

#[test]
fn repeated_frame_keeps_one_entry() {
    let mut r = Registry::new();
    let b = frame(id(1), id(5), b"again");
    for k in 0..5u64 {
        assert_eq!(handle_packet(&mut r, &b, v4(1, 1), k * SECOND), Outcome::NoTarget);
        assert_eq!(r.len(), 1);
    }
}

#[test]
fn frame_to_self_goes_to_new_address() {
    let mut r = Registry::new();
    handle_packet(&mut r, &frame(id(1), id(9), b""), v4(1, 1), 0);
    let b = frame(id(1), id(1), b"loop");
    assert_eq!(handle_packet(&mut r, &b, v4(4, 4), SECOND), Outcome::Forward(v4(4, 4)));
}

#[test]
fn ipv6_addresses_are_kept_whole() {
    let mut r = Registry::new();
    let a = Address::V6 { ipv6: 0x2001_0db8 << 96 | 7, port: 60050, flowinfo: 3, scope_id: 2 };
    handle_packet(&mut r, &frame(id(2), id(9), b""), a, 0);
    assert_eq!(handle_packet(&mut r, &frame(id(1), id(2), b""), v4(1, 1), 0), Outcome::Forward(a));
}

#[test]
fn port_text_forms() {
    assert_eq!(parse_port("60050"), Some(60050));
    assert_eq!(parse_port("+8080"), Some(8080));
    assert_eq!(parse_port("0"), Some(0));
    assert_eq!(parse_port("65535"), Some(65535));
    assert_eq!(parse_port("007"), Some(7));
    assert_eq!(parse_port("65536"), None);
    assert_eq!(parse_port("999999999999"), None);
    assert_eq!(parse_port(""), None);
    assert_eq!(parse_port("+"), None);
    assert_eq!(parse_port("-1"), None);
    assert_eq!(parse_port("80a"), None);
    assert_eq!(parse_port(" 80"), None);
    assert_eq!(parse_port("99999x"), None);
}

#[test]
fn port_from_arguments() {
    let args = |v: &[&str]| v.iter().map(|s| s.to_string()).collect::<Vec<String>>();
    assert_eq!(port_from_args(&args(&["relay"])), DEFAULT_PORT);
    assert_eq!(port_from_args(&args(&["relay", "-p", "4000"])), 4000);
    assert_eq!(port_from_args(&args(&["relay", "-p", "x"])), DEFAULT_PORT);
    assert_eq!(port_from_args(&args(&["relay", "-p"])), DEFAULT_PORT);
    assert_eq!(port_from_args(&args(&["relay", "-q", "4000"])), DEFAULT_PORT);
    assert_eq!(port_from_args(&args(&["relay", "4000", "-p"])), DEFAULT_PORT);
    assert_eq!(DEFAULT_PORT, 60050);
}
