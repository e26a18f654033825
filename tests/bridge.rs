use spifyrfb::api::{api_answer, ApiAnswer, bgra_to_rgba, screenshot_response, api_route, requires_pairkey, server, server_from_headers, ApiRoute, PowerAction, SpifyConfig, not_found_response};
use spifyrfb::http::{
    bad_request, classify_request, get_header, get_method, get_request_uri, get_version, get_websocket_key,
    response_from_headers, split_lines, switching_protocols, RequestKind,
};
use spifyrfb::websocket::{
    create_frame, create_frame_with_key, decode_frame, get_accept_key, mask_payload, unmask_payload, ProxyAction,
    WebSocketFrame, WsProxy, OPCODE,
};

const UPGRADE: &[u8] = b"GET /websockify HTTP/1.1\r\nHost: example\r\nUpgrade: websocket\r\nConnection: Upgrade\r\nSec-WebSocket-Key: dGhlIHNhbXBsZSBub25jZQ==\r\nSec-WebSocket-Version: 13\r\n\r\n";

#[test]
fn accept_key_of_sample_nonce() {
    assert_eq!(get_accept_key(b"dGhlIHNhbXBsZSBub25jZQ=="), "s3pPLMBiTxaQ9kYGzzhZRbK+xOo=");
}

#[test]
fn upgrade_then_binary_frame() {
    let lines = split_lines(UPGRADE);
    let key = match classify_request(&lines) {
        RequestKind::Upgrade { key } => key,
        other => panic!("unexpected {:?}", other),
    };
    assert_eq!(key, b"dGhlIHNhbXBsZSBub25jZQ==".to_vec());
    let accept = get_accept_key(&key);
    let response = switching_protocols(&accept);
    assert_eq!(
        response,
        b"HTTP/1.1 101 Switching Protocols\r\nUpgrade: websocket\r\nConnection: Upgrade\r\nSec-WebSocket-Accept: s3pPLMBiTxaQ9kYGzzhZRbK+xOo=\r\n\r\n".to_vec()
    );
    let request = vec![0x03, 0x00, 0x00, 0x00, 0x00, 0x00, 0x10, 0x00, 0x10];
    let frame = create_frame_with_key(request.clone(), OPCODE::BINARY_FRAME, Some([0x37, 0xFA, 0x21, 0x3D]));
    assert_eq!(frame[0], 0x82);
    assert_eq!(frame[1], 0x80 | 9);
    let decoded = decode_frame(&frame).unwrap();
    let mut proxy = WsProxy::new();
    match proxy.on_frame(decoded) {
        ProxyAction::Forward(p) => assert_eq!(p, request),
        other => panic!("unexpected {:?}", other),
    }
    let reply = create_frame(vec![1, 2, 3], OPCODE::BINARY_FRAME, false);
    assert_eq!(reply, vec![0x82, 3, 1, 2, 3]);
}

#[test]
fn frame_lengths_use_minimal_form() {
    let f = create_frame(vec![0; 125], OPCODE::BINARY_FRAME, false);
    assert_eq!(&f[..2], &[0x82, 125]);
    assert_eq!(f.len(), 127);
    let f = create_frame(vec![0; 126], OPCODE::BINARY_FRAME, false);
    assert_eq!(&f[..4], &[0x82, 126, 0, 126]);
    let f = create_frame(vec![0; 65535], OPCODE::TEXT_FRAME, false);
    assert_eq!(&f[..4], &[0x81, 126, 0xFF, 0xFF]);
    let f = create_frame(vec![0; 65536], OPCODE::BINARY_FRAME, false);
    assert_eq!(&f[..10], &[0x82, 127, 0, 0, 0, 0, 0, 1, 0, 0]);
    assert_eq!(f.len(), 10 + 65536);
}

#[test]
fn frames_decode_to_what_was_encoded() {
    for len in [0usize, 1, 125, 126, 127, 65535, 65536, 70000] {
        for opcode in [OPCODE::CONTINUATION_FRAME, OPCODE::TEXT_FRAME, OPCODE::BINARY_FRAME, OPCODE::PING, OPCODE::PONG, 0xF] {
            let payload: Vec<u8> = (0..len).map(|i| (i % 253) as u8).collect();
            let frame = create_frame(payload.clone(), opcode, false);
            let decoded = decode_frame(&frame).unwrap();
            assert!(decoded.fin);
            assert_eq!(decoded.opcode, opcode);
            assert!(decoded.mask_key.is_none());
            assert_eq!(decoded.payload, payload);
        }
    }
}

#[test]
fn secure_frames_are_masked() {
    let payload = b"hello".to_vec();
    let frame = create_frame(payload.clone(), OPCODE::TEXT_FRAME, true);
    assert_eq!(frame[1], 0x80 | 5);
    assert_eq!(frame.len(), 2 + 4 + 5);
    let decoded = decode_frame(&frame).unwrap();
    assert_eq!(decoded.payload, payload);
}

#[test]
fn masking_is_xor_with_key() {
    let key = [1u8, 2, 3, 4];
    let masked = mask_payload(key, vec![0, 0, 0, 0, 0xFF]);
    assert_eq!(masked, vec![1, 2, 3, 4, 0xFE]);
    assert_eq!(unmask_payload(key, masked), vec![0, 0, 0, 0, 0xFF]);
}

#[test]
fn truncated_frames_do_not_decode() {
    let frame = create_frame(vec![1, 2, 3], OPCODE::BINARY_FRAME, false);
    assert!(decode_frame(&frame[..4]).is_none());
    assert!(decode_frame(&[0x82]).is_none());
    let mut long = frame.clone();
    long.push(0);
    assert!(decode_frame(&long).is_none());
}

fn masked_frame(fin: bool, opcode: u8, payload: &[u8]) -> WebSocketFrame {
    WebSocketFrame { fin, opcode, mask_key: Some([9, 9, 9, 9]), payload: payload.to_vec() }
}

#[test]
fn unmasked_client_frame_is_policy_violation() {
    let mut proxy = WsProxy::new();
    let frame = WebSocketFrame { fin: true, opcode: OPCODE::BINARY_FRAME, mask_key: None, payload: vec![1] };
    match proxy.on_frame(frame) {
        ProxyAction::ReplyAndClose(b) => {
            let decoded = decode_frame(&b).unwrap();
            assert_eq!(decoded.opcode, OPCODE::CONNECTION_CLOSE);
            assert_eq!(&decoded.payload[..2], &[0x03, 0xF0]);
            assert_eq!(&decoded.payload[2..], b"Payload is not Masked");
        },
        other => panic!("unexpected {:?}", other),
    }
}

#[test]
fn fragments_take_first_opcode() {
    let mut proxy = WsProxy::new();
    assert!(matches!(proxy.on_frame(masked_frame(false, OPCODE::BINARY_FRAME, b"ab")), ProxyAction::Nothing));
    assert!(matches!(proxy.on_frame(masked_frame(false, OPCODE::CONTINUATION_FRAME, b"cd")), ProxyAction::Nothing));
    // A control frame may come between fragments.
    assert!(matches!(proxy.on_frame(masked_frame(true, OPCODE::PONG, b"")), ProxyAction::Nothing));
    match proxy.on_frame(masked_frame(true, OPCODE::CONTINUATION_FRAME, b"ef")) {
        ProxyAction::Forward(p) => assert_eq!(p, b"abcdef".to_vec()),
        other => panic!("unexpected {:?}", other),
    }
    assert!(proxy.fin_payload.is_empty());
}

#[test]
fn ping_gets_pong_and_close_shuts_remote() {
    let mut proxy = WsProxy::new();
    match proxy.on_frame(masked_frame(true, OPCODE::PING, b"x")) {
        ProxyAction::Reply(b) => {
            let decoded = decode_frame(&b).unwrap();
            assert_eq!(decoded.opcode, OPCODE::PONG);
            assert_eq!(decoded.payload, b"Pong".to_vec());
        },
        other => panic!("unexpected {:?}", other),
    }
    assert!(matches!(proxy.on_frame(masked_frame(true, OPCODE::CONNECTION_CLOSE, b"")), ProxyAction::ShutdownRemote));
    let closed = decode_frame(&spifyrfb::websocket::remote_closed_frame(true)).unwrap();
    assert_eq!(&closed.payload[..2], &[0x03, 0xE8]);
    let failed = decode_frame(&spifyrfb::websocket::remote_closed_frame(false)).unwrap();
    assert_eq!(&failed.payload[..2], &[0x03, 0xF3]);
    let unreachable = decode_frame(&spifyrfb::websocket::unreachable_frame()).unwrap();
    assert_eq!(&unreachable.payload[2..], b"Remote Host Connection Failed");
}

#[test]
fn request_lines_and_headers() {
    let lines = split_lines(UPGRADE);
    assert_eq!(lines.len(), 8);
    assert_eq!(lines[0], b"GET /websockify HTTP/1.1".to_vec());
    assert!(lines[7].is_empty());
    assert_eq!(get_version(&lines), b"HTTP/1.1".to_vec());
    assert_eq!(get_method(&lines), b"GET".to_vec());
    assert_eq!(get_websocket_key(&lines), b"dGhlIHNhbXBsZSBub25jZQ==".to_vec());
    assert_eq!(get_header(&lines, b"Host: "), Some(b"example".to_vec()));
    assert_eq!(get_header(&lines, b"pairkey: "), None);
    assert_eq!(get_request_uri(&lines), (b"GET".to_vec(), b"/websockify".to_vec()));
    assert_eq!(split_lines(b""), vec![Vec::<u8>::new()]);
}

#[test]
fn other_versions_get_400_and_plain_requests_go_to_api() {
    let old = split_lines(b"GET / HTTP/1.1\r\nSec-WebSocket-Version: 8\r\n\r\n");
    assert!(matches!(classify_request(&old), RequestKind::BadRequest));
    let http10 = split_lines(b"GET / HTTP/1.0\r\nSec-WebSocket-Version: 13\r\n\r\n");
    assert!(matches!(classify_request(&http10), RequestKind::BadRequest));
    let plain = split_lines(b"GET /api/status HTTP/1.1\r\nHost: x\r\n\r\n");
    match classify_request(&plain) {
        RequestKind::Api { method, uri } => {
            assert_eq!(method, b"GET".to_vec());
            assert_eq!(uri, b"/api/status".to_vec());
        },
        other => panic!("unexpected {:?}", other),
    }
    let body = b"Websocket/HTTP Versions Unsupported";
    let mut expected = b"HTTP/1.1 400 Bad Request\r\nContent-length: 35\r\nContent-type: text/plain\r\n\r\n".to_vec();
    expected.extend_from_slice(body);
    assert_eq!(bad_request(), expected);
}

#[test]
fn headers_end_with_blank_line() {
    let headers = vec![b"HTTP/1.1 200 OK".to_vec(), b"A: b".to_vec()];
    assert_eq!(response_from_headers(&headers), b"HTTP/1.1 200 OK\r\nA: b\r\n\r\n".to_vec());
    assert_eq!(response_from_headers(&vec![]), b"\r\n".to_vec());
}

#[test]
fn api_routes() {
    assert_eq!(api_route(b"GET", b"/"), ApiRoute::Banner);
    assert_eq!(api_route(b"GET", b"/api/status"), ApiRoute::Status);
    assert_eq!(api_route(b"GET", b"/api/sessions"), ApiRoute::Sessions);
    assert_eq!(api_route(b"GET", b"/api/screenshot"), ApiRoute::Screenshot);
    assert_eq!(api_route(b"GET", b"/api/power/reboot"), ApiRoute::Power(PowerAction::Reboot));
    assert_eq!(api_route(b"POST", b"/"), ApiRoute::NotFound);
    assert_eq!(api_route(b"GET", b"/nothing"), ApiRoute::NotFound);
    assert!(requires_pairkey(ApiRoute::Status));
    assert!(requires_pairkey(ApiRoute::Power(PowerAction::Lock)));
    assert!(!requires_pairkey(ApiRoute::Banner));
    assert!(!requires_pairkey(ApiRoute::Screenshot));
    let mut expected = b"HTTP/1.1 404 Not Found\r\nContent-length: 16\r\nContent-type: text/plain\r\n\r\n".to_vec();
    expected.extend_from_slice(b"/x was not found");
    assert_eq!(not_found_response(b"/x"), expected);
}

const ABC_SHA256: &str = "BA7816BF8F01CFEA414140DE5DAE2223B00361A396177A9CB410FF61F20015AD";

#[test]
fn pair_key_matches_sha256_ignoring_case() {
    let config = SpifyConfig { paired_servers: vec![String::from("00"), ABC_SHA256.to_lowercase()] };
    assert!(server(b"abc", &config));
    assert!(!server(b"abd", &config));
    assert!(!server(ABC_SHA256.as_bytes(), &config));
    let empty = SpifyConfig { paired_servers: vec![] };
    assert!(!server(b"abc", &empty));
}

#[test]
fn pair_key_from_headers() {
    let config = SpifyConfig { paired_servers: vec![String::from(ABC_SHA256)] };
    let with_key = split_lines(b"GET /api/status HTTP/1.1\r\npairkey: abc\r\n\r\n");
    assert!(server_from_headers(&with_key, &config));
    let without = split_lines(b"GET /api/status HTTP/1.1\r\n\r\n");
    assert!(!server_from_headers(&without, &config));
}

#[test]
fn screenshot_is_png() {
    assert_eq!(bgra_to_rgba(&vec![1, 2, 3, 0]), vec![3, 2, 1, 255]);
    let captured = vec![0u8, 0, 255, 0, 0, 255, 0, 0];
    let response = screenshot_response(2, 1, &captured);
    let split = response.windows(4).position(|w| w == b"\r\n\r\n").unwrap() + 4;
    let head = String::from_utf8_lossy(&response[..split]).to_string();
    assert!(head.starts_with("HTTP/1.1 200 OK\r\n"));
    assert!(head.contains("Content-type: image/png"));
    let body = &response[split..];
    assert_eq!(&body[..8], &[0x89, b'P', b'N', b'G', 0x0D, 0x0A, 0x1A, 0x0A]);
    assert!(head.contains(&format!("Content-length: {}", body.len())));
}

#[test]
fn pair_key_header_must_start_the_line() {
    let config = SpifyConfig { paired_servers: vec![String::from(ABC_SHA256)] };
    let lookalike = split_lines(b"GET /api/status HTTP/1.1\r\nX-pairkey: abc\r\n\r\n");
    assert!(!server_from_headers(&lookalike, &config));
    let later = split_lines(b"GET /api/status HTTP/1.1\r\nX-pairkey: zzz\r\npairkey: abc\r\n\r\n");
    assert!(server_from_headers(&later, &config));
}

#[test]
fn api_answer_gates_paired_routes() {
    let config = SpifyConfig { paired_servers: vec![String::from(ABC_SHA256)] };
    let anonymous = split_lines(b"GET /api/sessions HTTP/1.1\r\n\r\n");
    match api_answer(&anonymous, b"GET", b"/api/sessions", &config) {
        ApiAnswer::Ready(b) => assert!(b.starts_with(b"HTTP/1.1 401 Unauthorized\r\n")),
        other => panic!("unexpected {:?}", other),
    }
    let paired = split_lines(b"GET /api/sessions HTTP/1.1\r\npairkey: abc\r\n\r\n");
    assert!(matches!(api_answer(&paired, b"GET", b"/api/sessions", &config), ApiAnswer::Sessions));
    assert!(matches!(api_answer(&anonymous, b"GET", b"/api/screenshot", &config), ApiAnswer::Screenshot));
    match api_answer(&anonymous, b"GET", b"/", &config) {
        ApiAnswer::Ready(b) => assert!(b.starts_with(b"HTTP/1.1 200 OK\r\n")),
        other => panic!("unexpected {:?}", other),
    }
    match api_answer(&anonymous, b"GET", b"/nope", &config) {
        ApiAnswer::Ready(b) => assert!(b.ends_with(b"/nope was not found")),
        other => panic!("unexpected {:?}", other),
    }
}

#[test]
fn empty_screenshot_is_server_error() {
    let response = screenshot_response(0, 5, &vec![]);
    assert!(response.starts_with(b"HTTP/1.1 500 Internal Server Error\r\n"));
}
