use des::cipher::{BlockEncrypt, KeyInit};
use spifyrfb::rfb::{
    create_rfb_error, parse_button_mask, parse_pixel_format, version_message, write_pixel_format, PointerButton,
    RFBServer, RfbAction, RfbConnection, RfbState,
};
use spifyrfb::server::{PixelFormat, RFBEncodingType, RFBServerInit};
use spifyrfb::vnc_auth::{reverse_bits, vnc_auth_accepts, vnc_auth_response};

fn scenario_format() -> PixelFormat {
    PixelFormat {
        bits_per_pixel: 32,
        depth: 24,
        big_endian_flag: 0,
        true_color_flag: 1,
        red_max: 255,
        green_max: 255,
        blue_max: 255,
        red_shift: 16,
        green_shift: 8,
        blue_shift: 0,
        padding: [0, 0, 0],
    }
}

fn connection(password: Option<[u8; 8]>) -> RfbConnection {
    let init = RFBServerInit::new(1920, 1080, scenario_format(), String::from("spify"));
    RfbConnection::new(password, init)
}

fn feed(conn: &mut RfbConnection, bytes: &[u8]) -> RfbAction {
    assert_eq!(conn.bytes_wanted(), bytes.len());
    conn.receive(bytes)
}

fn sent(action: RfbAction) -> Vec<u8> {
    match action {
        RfbAction::Send(b) => b,
        other => panic!("expected bytes to send, got {:?}", other),
    }
}

#[test]
fn handshake_none_auth() {
    let mut conn = connection(None);
    assert_eq!(version_message(), b"RFB 003.008\n".to_vec());
    assert_eq!(sent(feed(&mut conn, b"RFB 003.008\n")), vec![0x01, 0x01]);
    assert_eq!(sent(feed(&mut conn, &[0x01])), vec![0x00, 0x00, 0x00, 0x00]);
    let init = sent(feed(&mut conn, &[0x01]));
    let mut expected = vec![0x07, 0x80, 0x04, 0x38];
    expected.extend_from_slice(&[32, 24, 0, 1, 0, 255, 0, 255, 0, 255, 16, 8, 0, 0, 0, 0]);
    expected.extend_from_slice(&[0, 0, 0, 5]);
    expected.extend_from_slice(b"spify");
    assert_eq!(init, expected);
    assert!(conn.shared);
    assert_eq!(conn.state, RfbState::AwaitOpcode);
}

#[test]
fn wrong_version_is_refused() {
    let mut conn = connection(None);
    match feed(&mut conn, b"RFB 003.003\n") {
        RfbAction::SendThenClose(b) => {
            let mut expected = vec![0, 0, 0, 21];
            expected.extend_from_slice(b"Version not Supported");
            assert_eq!(b, expected);
        },
        other => panic!("unexpected {:?}", other),
    }
    assert_eq!(conn.state, RfbState::Closed);
}

#[test]
fn unoffered_security_type_fails() {
    let mut conn = connection(None);
    feed(&mut conn, b"RFB 003.008\n");
    match feed(&mut conn, &[2]) {
        RfbAction::SendThenClose(b) => assert_eq!(&b[..4], &[0, 0, 0, 1]),
        other => panic!("unexpected {:?}", other),
    }
}

#[test]
fn vnc_auth_wrong_password() {
    let mut conn = connection(Some(*b"password"));
    assert_eq!(sent(feed(&mut conn, b"RFB 003.008\n")), vec![0x01, 0x02]);
    let challenge = sent(feed(&mut conn, &[0x02]));
    assert_eq!(challenge.len(), 16);
    let mut challenge_arr = [0u8; 16];
    challenge_arr.copy_from_slice(&challenge);
    let mut response = vnc_auth_response(b"password", &challenge_arr);
    response[0] ^= 0xFF;
    match feed(&mut conn, &response) {
        RfbAction::SendThenClose(b) => {
            let mut expected = vec![0, 0, 0, 1, 0, 0, 0, 21];
            expected.extend_from_slice(b"Authentication Failed");
            assert_eq!(b, expected);
        },
        other => panic!("unexpected {:?}", other),
    }
    assert_eq!(conn.state, RfbState::Closed);
}

#[test]
fn vnc_auth_right_password() {
    let mut conn = connection(Some(*b"password"));
    feed(&mut conn, b"RFB 003.008\n");
    let challenge = sent(feed(&mut conn, &[0x02]));
    let mut challenge_arr = [0u8; 16];
    challenge_arr.copy_from_slice(&challenge);
    let response = vnc_auth_response(b"password", &challenge_arr);
    assert_ne!(response.to_vec(), challenge);
    assert_eq!(sent(feed(&mut conn, &response)), vec![0, 0, 0, 0]);
    assert_eq!(conn.state, RfbState::AwaitClientInit);
}

#[test]
fn vnc_response_is_des_of_bit_reversed_key() {
    let password = *b"password";
    let challenge: [u8; 16] = core::array::from_fn(|i| (i * 17 + 1) as u8);
    let key: Vec<u8> = password.iter().map(|b| b.reverse_bits()).collect();
    let cipher = des::Des::new_from_slice(&key).unwrap();
    let mut expected = challenge;
    for block in expected.chunks_mut(8) {
        cipher.encrypt_block(block.into());
    }
    assert_eq!(vnc_auth_response(&password, &challenge), expected);
    assert!(vnc_auth_accepts(&password, &challenge, &expected));
    assert!(!vnc_auth_accepts(&password, &challenge, &challenge));
}

#[test]
fn reverse_bits_swaps_bit_order() {
    assert_eq!(reverse_bits(0b0000_0001), 0b1000_0000);
    assert_eq!(reverse_bits(0b1100_1010), 0b0101_0011);
    assert_eq!(reverse_bits(b'p'), b'p'.reverse_bits());
}

fn serving() -> RfbConnection {
    let mut conn = connection(None);
    feed(&mut conn, b"RFB 003.008\n");
    feed(&mut conn, &[1]);
    feed(&mut conn, &[0]);
    assert!(!conn.shared);
    conn
}

#[test]
fn framebuffer_update_request_defaults_to_zrle() {
    let mut conn = serving();
    assert!(matches!(feed(&mut conn, &[3]), RfbAction::Continue));
    match feed(&mut conn, &[0x00, 0x00, 0x00, 0x00, 0x00, 0x00, 0x10, 0x00, 0x10]) {
        RfbAction::Update { x_position, y_position, width, height, encoding_type } => {
            assert_eq!((x_position, y_position, width, height), (0, 0, 16, 16));
            assert_eq!(encoding_type, RFBEncodingType::ZRLE);
        },
        other => panic!("unexpected {:?}", other),
    }
}

#[test]
fn set_pixel_format_updates_session_and_requests_full_update() {
    let mut conn = serving();
    feed(&mut conn, &[0]);
    let mut payload = vec![0, 0, 0];
    payload.extend_from_slice(&[16, 16, 1, 1, 0, 31, 0, 63, 0, 31, 11, 5, 0, 0, 0, 0]);
    match feed(&mut conn, &payload) {
        RfbAction::Update { width, height, encoding_type, .. } => {
            assert_eq!((width, height), (1920, 1080));
            assert_eq!(encoding_type, RFBEncodingType::RAW);
        },
        other => panic!("unexpected {:?}", other),
    }
    assert_eq!(conn.pixel_format.bits_per_pixel, 16);
    assert_eq!(conn.pixel_format.green_max, 63);
    assert_eq!(conn.pixel_format.red_shift, 11);
}

#[test]
fn set_encodings_drains_its_list() {
    let mut conn = serving();
    feed(&mut conn, &[2]);
    assert!(matches!(feed(&mut conn, &[0, 0, 2]), RfbAction::Continue));
    assert_eq!(conn.bytes_wanted(), 8);
    assert!(matches!(feed(&mut conn, &[0, 0, 0, 16, 0, 0, 0, 0]), RfbAction::Continue));
    assert_eq!(conn.state, RfbState::AwaitOpcode);
}

#[test]
fn key_and_pointer_events() {
    let mut conn = serving();
    feed(&mut conn, &[4]);
    match feed(&mut conn, &[1, 0, 0, 0x00, 0x00, 0xFF, 0x0D]) {
        RfbAction::Key { down, key_sym } => {
            assert!(down);
            assert_eq!(key_sym, 0xFF0D);
        },
        other => panic!("unexpected {:?}", other),
    }
    feed(&mut conn, &[5]);
    match feed(&mut conn, &[4, 0x01, 0x00, 0x00, 0x20]) {
        RfbAction::Pointer { button, x_position, y_position } => {
            assert_eq!(button, PointerButton::Right);
            assert_eq!((x_position, y_position), (256, 32));
        },
        other => panic!("unexpected {:?}", other),
    }
}

#[test]
fn client_cut_text_is_read_whole() {
    let mut conn = serving();
    feed(&mut conn, &[6]);
    assert!(matches!(feed(&mut conn, &[0, 0, 0, 0, 0, 0, 3]), RfbAction::Continue));
    match feed(&mut conn, b"abc") {
        RfbAction::CutText(t) => assert_eq!(t, b"abc".to_vec()),
        other => panic!("unexpected {:?}", other),
    }
}

#[test]
fn unknown_opcode_closes() {
    let mut conn = serving();
    assert!(matches!(feed(&mut conn, &[9]), RfbAction::Close));
    assert_eq!(conn.state, RfbState::Closed);
    assert_eq!(conn.bytes_wanted(), 0);
}

#[test]
fn button_masks_normalise() {
    assert_eq!(parse_button_mask(0), PointerButton::Release);
    assert_eq!(parse_button_mask(1), PointerButton::Left);
    assert_eq!(parse_button_mask(2), PointerButton::Middle);
    assert_eq!(parse_button_mask(4), PointerButton::Right);
    assert_eq!(parse_button_mask(8), PointerButton::WheelUp);
    assert_eq!(parse_button_mask(16), PointerButton::WheelDown);
    assert_eq!(parse_button_mask(3), PointerButton::Release);
}

#[test]
fn pixel_format_round_trip() {
    let pf = scenario_format();
    let mut bytes = Vec::new();
    write_pixel_format(&mut bytes, &pf);
    assert_eq!(bytes.len(), 16);
    assert_eq!(parse_pixel_format(&bytes, 0), pf);
}

#[test]
fn rfb_error_carries_length() {
    assert_eq!(create_rfb_error("abc"), vec![0, 0, 0, 3, b'a', b'b', b'c']);
}

#[test]
fn server_constants() {
    let server = RFBServer::init();
    assert_eq!(&server.protocol_version, b"RFB 003.008\n");
    assert_eq!(server.supported_security_types, [1, 2]);
}
