use spifyrfb::info::{license, srv_version};
use spifyrfb::input::{create_keysym_map, parse_keybutmask, x11_key_event, x11_pointer_event};
use spifyrfb::ipc::{
    construct_payload, daemon_reply, hello_payload, ip_update_payload, parse_message, parse_u32, worker_reply, DaemonSessions,
    IpcEvent, IpcMessage,
};
use spifyrfb::rfb::PointerButton;

#[test]
fn hello_then_ip_update() {
    let hello = hello_payload(4242, b"127.0.0.1:51000");
    assert_eq!(hello, b"4242\r\n127.0.0.1:51000".to_vec());
    let frame = construct_payload(IpcEvent::HELLO, &hello).unwrap();
    assert_eq!(frame[0], 0x00);
    assert_eq!(frame[1] as usize, "4242\r\n127.0.0.1:51000".len());
    assert_eq!(&frame[2..], &hello[..]);
    let update = ip_update_payload(4242, true, b"127.0.0.1:51001");
    assert_eq!(update, b"4242\r\nwss\r\n127.0.0.1:51001".to_vec());
    let frame2 = construct_payload(IpcEvent::IP_UPDATE, &update).unwrap();
    assert_eq!(frame2[0], 0x03);
    assert_eq!(frame2[1] as usize, update.len());

    let mut sessions = DaemonSessions::new();
    sessions.apply(parse_message(frame[0], &frame[2..]).unwrap());
    sessions.apply(parse_message(frame2[0], &frame2[2..]).unwrap());
    let entry = sessions.sessions.get(&4242).unwrap();
    assert_eq!(entry.ip, b"127.0.0.1:51000".to_vec());
    assert_eq!(entry.ws, b"127.0.0.1:51001".to_vec());
    assert!(entry.ws_secure);

    sessions.process_disconnect(4242);
    assert!(sessions.sessions.get(&4242).is_none());
}

#[test]
fn ip_update_plain_ws() {
    match parse_message(IpcEvent::IP_UPDATE, b"7\r\nws\r\n0.0.0.0:1") {
        Some(IpcMessage::IpUpdate { pid, secure, address }) => {
            assert_eq!(pid, 7);
            assert!(!secure);
            assert_eq!(address, b"0.0.0.0:1".to_vec());
        },
        other => panic!("unexpected {:?}", other),
    }
    assert!(parse_message(IpcEvent::IP_UPDATE, b"7\r\nwx\r\na").is_none());
}

#[test]
fn malformed_messages_are_refused() {
    assert!(parse_message(IpcEvent::HELLO, b"42").is_none());
    assert!(parse_message(IpcEvent::HELLO, b"4x2\r\na").is_none());
    assert!(parse_message(IpcEvent::HELLO, b"\r\na").is_none());
    assert!(parse_message(9, b"").is_none());
    assert!(matches!(parse_message(IpcEvent::PING, b"PING"), Some(IpcMessage::Ping(t)) if t == b"PING".to_vec()));
}

#[test]
fn pid_parsing_bounds() {
    assert_eq!(parse_u32(b"0"), Some(0));
    assert_eq!(parse_u32(b"4294967295"), Some(u32::MAX));
    assert_eq!(parse_u32(b"4294967296"), None);
    assert_eq!(parse_u32(b""), None);
    assert_eq!(parse_u32(b"12a"), None);
}

#[test]
fn oversized_payload_is_not_framed() {
    assert!(construct_payload(IpcEvent::PING, &vec![0u8; 255]).is_some());
    assert!(construct_payload(IpcEvent::PING, &vec![0u8; 256]).is_none());
}

#[test]
fn worker_answers_ping_with_pong() {
    assert_eq!(worker_reply(IpcEvent::PING), Some(vec![2, 4, b'P', b'O', b'N', b'G']));
    assert_eq!(worker_reply(IpcEvent::PONG), None);
}

#[test]
fn hello_keeps_bridge_address() {
    let mut sessions = DaemonSessions::new();
    sessions.process_ipupdate(5, false, b"a:1".to_vec());
    sessions.process_hello(5, b"b:2".to_vec());
    let entry = sessions.sessions.get(&5).unwrap();
    assert_eq!(entry.ip, b"b:2".to_vec());
    assert_eq!(entry.ws, b"a:1".to_vec());
}

#[test]
fn input_events_for_x11() {
    let e = x11_pointer_event(PointerButton::Right, 10, 40000);
    assert_eq!((e.dst_x, e.dst_y, e.button_mask), (10, 0, 3));
    let k = x11_key_event(true, 0xFF0D);
    assert_eq!((k.key_down, k.key_sym), (1, 0xFF0D));
}

#[test]
fn version_and_license() {
    assert_eq!(srv_version(), "0.1.0");
    assert!(license().contains("SpifyRFB"));
}

#[test]
fn keysym_map_keeps_last_keycode() {
    // Two keysyms per keycode, starting at keycode 8.
    let keysyms = vec![0x61, 0x41, 0, 0, 0x62, 0x61];
    let map = create_keysym_map(&keysyms, 2);
    assert_eq!(map.len(), 3);
    assert_eq!(map.get(&0x41), Some(&8));
    assert_eq!(map.get(&0x62), Some(&10));
    assert_eq!(map.get(&0x61), Some(&10));
    assert_eq!(map.get(&0), None);
}

#[test]
fn held_button_from_pointer_mask() {
    assert_eq!(parse_keybutmask(0x100), 1);
    assert_eq!(parse_keybutmask(0x400), 3);
    assert_eq!(parse_keybutmask(0x1000), 5);
    assert_eq!(parse_keybutmask(0), 1);
}

#[test]
fn daemon_answers_ping_and_acknowledges_updates() {
    assert_eq!(daemon_reply(IpcEvent::PING, b"PING"), Some(vec![2, 4, b'P', b'O', b'N', b'G']));
    let ack = daemon_reply(IpcEvent::IP_UPDATE, b"1\r\nws\r\na:1").unwrap();
    assert_eq!(ack[0], IpcEvent::PING);
    assert_eq!(&ack[2..], b"Received IP Update: 1\r\nws\r\na:1");
    assert_eq!(ack[1] as usize, ack.len() - 2);
    assert!(daemon_reply(IpcEvent::IP_UPDATE, &vec![b'x'; 250]).is_none());
    assert!(daemon_reply(IpcEvent::HELLO, b"1\r\na").is_none());
}
