//! WebSocket framing (RFC 6455) for the bridge that carries the RFB byte
//! stream to browsers: frame encoding and decoding, masking, fragment
//! reassembly, and the handshake's accept key.

use vstd::prelude::*;
use crate::wire::{be16, push_u16, push_bytes};
use crate::rfb::from_be16;
use vstd::utf8::encode_utf8;
use sha1::Digest;
use base64::Engine;

verus! {

/// How to start the WebSocket bridge.
#[derive(Clone, Debug)]
pub struct WSCreateOptions {
    pub tcp_address: String,
    pub proxy_address: String,
    pub secure: bool,
    pub spify_daemon: bool,
}

/// Frame opcodes.
pub struct OPCODE;

impl OPCODE {
    pub const CONTINUATION_FRAME: u8 = 0x0;
    pub const TEXT_FRAME: u8 = 0x1;
    pub const BINARY_FRAME: u8 = 0x2;
    pub const CONNECTION_CLOSE: u8 = 0x8;
    pub const PING: u8 = 0x9;
    pub const PONG: u8 = 0xA;
}

/// `v` as eight big-endian bytes.
pub open spec fn be64(v: u64) -> Seq<u8> {
    seq![
        (v >> 56u64) as u8,
        (v >> 48u64) as u8,
        (v >> 40u64) as u8,
        (v >> 32u64) as u8,
        (v >> 24u64) as u8,
        (v >> 16u64) as u8,
        (v >> 8u64) as u8,
        v as u8,
    ]
}

/// The big-endian value of eight bytes.
pub open spec fn from_be64(b: Seq<u8>) -> u64 {
    ((b[0] as u64) << 56u64) | ((b[1] as u64) << 48u64) | ((b[2] as u64) << 40u64) | ((b[3] as u64) << 32u64) | ((
    b[4] as u64) << 24u64) | ((b[5] as u64) << 16u64) | ((b[6] as u64) << 8u64) | (b[7] as u64)
}

/// The 7-bit length field for a payload of `n` bytes.
pub open spec fn length_hint(n: nat) -> u8 {
    if n < 126 {
        n as u8
    } else if n <= 0xFFFF {
        126
    } else {
        127
    }
}

/// The extended length that follows the 7-bit field.
pub open spec fn extended_length(n: nat) -> Seq<u8> {
    if n < 126 {
        Seq::empty()
    } else if n <= 0xFFFF {
        be16(n as u16)
    } else {
        be64(n as u64)
    }
}

/// `payload` XORed with the four-byte `key`, repeated.
pub open spec fn masked(payload: Seq<u8>, key: Seq<u8>) -> Seq<u8> {
    Seq::new(payload.len(), |i: int| payload[i] ^ key[i % 4])
}

/// A final frame with this opcode and payload, masked with `key` if any.
pub open spec fn frame_spec(payload: Seq<u8>, opcode: u8, key: Option<Seq<u8>>) -> Seq<u8> {
    seq![(0x80 + opcode % 16) as u8, ((if key is Some { 0x80nat } else { 0nat }) + length_hint(payload.len()) as nat) as u8]
        + extended_length(payload.len()) + match key {
        Some(k) => k + masked(payload, k),
        None => payload,
    }
}

/// XORs `payload` with the masking key; masking and unmasking are the same.
pub fn unmask_payload(mask_key: [u8; 4], payload: Vec<u8>) -> (r: Vec<u8>)
    ensures
        r@ == masked(payload@, mask_key@),
{
    let mut decoded_payload: Vec<u8> = Vec::with_capacity(payload.len());
    let mut index: usize = 0;
    while index < payload.len()
        invariant
            index <= payload@.len(),
            decoded_payload@ =~= masked(payload@, mask_key@).subrange(0, index as int),
        decreases payload@.len() - index,
    {
        decoded_payload.push(payload[index] ^ mask_key[index % 4]);
        index = index + 1;
    }
    decoded_payload
}

/// Masks a payload with `mask_key`, as a client does.
pub fn mask_payload(mask_key: [u8; 4], payload: Vec<u8>) -> (r: Vec<u8>)
    ensures
        r@ == masked(payload@, mask_key@),
{
    unmask_payload(mask_key, payload)
}

fn push_u64(out: &mut Vec<u8>, v: u64)
    ensures
        final(out)@ == old(out)@ + be64(v),
{
    out.push((v >> 56u64) as u8);
    out.push((v >> 48u64) as u8);
    out.push((v >> 40u64) as u8);
    out.push((v >> 32u64) as u8);
    out.push((v >> 24u64) as u8);
    out.push((v >> 16u64) as u8);
    out.push((v >> 8u64) as u8);
    out.push(v as u8);
    assert(final(out)@ =~= old(out)@ + be64(v));
}

/// A final frame carrying `payload` with `opcode`, masked with `mask_key`
/// when one is given.
pub fn create_frame_with_key(payload: Vec<u8>, opcode: u8, mask_key: Option<[u8; 4]>) -> (r: Vec<u8>)
    ensures
        r@ == frame_spec(
            payload@,
            opcode,
            match mask_key {
                Some(k) => Some(k@),
                None => None,
            },
        ),
{
    let mut frame: Vec<u8> = Vec::new();
    frame.push(0x80u8 + opcode % 16);
    let mask_bit: u8 = if mask_key.is_some() { 0x80 } else { 0 };
    let n = payload.len();
    if n < 126 {
        frame.push(mask_bit + n as u8);
    } else if n <= 0xFFFF {
        frame.push(mask_bit + 126);
        push_u16(&mut frame, n as u16);
    } else {
        frame.push(mask_bit + 127);
        push_u64(&mut frame, n as u64);
    }
    match mask_key {
        Some(k) => {
            push_bytes(&mut frame, k.as_slice());
            let body = mask_payload(k, payload);
            push_bytes(&mut frame, body.as_slice());
        },
        None => {
            push_bytes(&mut frame, payload.as_slice());
        },
    }
    assert(frame@ =~= frame_spec(
        payload@,
        opcode,
        match mask_key {
            Some(k) => Some(k@),
            None => None,
        },
    ));
    frame
}

/// Relies on `rand::random`: four bytes from the thread-local generator.
/// Nothing is promised of their values.
#[verifier::external_body]
fn generate_masking_key() -> (r: [u8; 4]) {
    rand::random()
}

/// A final frame; `secure` frames (client to server) are masked with a fresh
/// random key.
pub fn create_frame(payload: Vec<u8>, opcode: u8, secure: bool) -> (r: Vec<u8>)
    ensures
        !secure ==> r@ == frame_spec(payload@, opcode, None),
        secure ==> exists|k: Seq<u8>| k.len() == 4 && r@ == frame_spec(payload@, opcode, Some(k)),
{
    if secure {
        let k = generate_masking_key();
        let r = create_frame_with_key(payload, opcode, Some(k));
        assert(r@ == frame_spec(payload@, opcode, Some(k@)));
        r
    } else {
        create_frame_with_key(payload, opcode, None)
    }
}


/// Bytes of extended length announced by the 7-bit length field.
pub open spec fn extended_size(hint: u8) -> nat {
    if hint == 126 {
        2
    } else if hint == 127 {
        8
    } else {
        0
    }
}

/// Size of the frame header announced by the second byte.
pub open spec fn header_size(b1: u8) -> nat {
    2 + extended_size(b1 % 128) + if b1 >= 128 {
        4nat
    } else {
        0nat
    }
}

/// The payload length a complete header announces.
pub open spec fn declared_length(bytes: Seq<u8>) -> nat {
    let hint = bytes[1] % 128;
    if hint < 126 {
        hint as nat
    } else if hint == 126 {
        from_be16(bytes[2], bytes[3]) as nat
    } else {
        from_be64(bytes.subrange(2, 10)) as nat
    }
}

/// A decoded frame: FIN, opcode, masking key, unmasked payload.
pub type FrameView = (bool, u8, Option<Seq<u8>>, Seq<u8>);

/// The frame that `bytes` holds exactly, if it holds one.
pub open spec fn decode_spec(bytes: Seq<u8>) -> Option<FrameView> {
    if bytes.len() < 2 || bytes.len() < header_size(bytes[1]) {
        None
    } else {
        let h = header_size(bytes[1]);
        let n = declared_length(bytes);
        if bytes.len() != h + n {
            None
        } else {
            let body = bytes.subrange(h as int, bytes.len() as int);
            if bytes[1] >= 128 {
                let key = bytes.subrange(h - 4, h as int);
                Some((bytes[0] >= 128, bytes[0] % 16, Some(key), masked(body, key)))
            } else {
                Some((bytes[0] >= 128, bytes[0] % 16, None, body))
            }
        }
    }
}

/// One WebSocket frame, payload unmasked.
#[derive(Clone, Debug)]
pub struct WebSocketFrame {
    pub fin: bool,
    pub opcode: u8,
    pub mask_key: Option<[u8; 4]>,
    pub payload: Vec<u8>,
}

impl WebSocketFrame {
    pub open spec fn view_tuple(self) -> FrameView {
        (
            self.fin,
            self.opcode,
            match self.mask_key {
                Some(k) => Some(k@),
                None => None,
            },
            self.payload@,
        )
    }
}

/// How many bytes follow the first two of a frame before its payload:
/// extended length and masking key.
pub fn header_rest_size(b1: u8) -> (r: usize)
    ensures
        r + 2 == header_size(b1),
{
    let hint = b1 % 128;
    let extended: usize = if hint == 126 { 2 } else if hint == 127 { 8 } else { 0 };
    if b1 >= 128 { extended + 4 } else { extended }
}

/// The payload length announced by a complete header.
pub fn payload_size(header: &[u8]) -> (r: u64)
    requires
        header@.len() >= 2,
        header@.len() >= header_size(header@[1]),
    ensures
        r as nat == declared_length(header@),
{
    let hint = header[1] % 128;
    if hint < 126 {
        hint as u64
    } else if hint == 126 {
        ((header[2] as u16) * 256 + header[3] as u16) as u64
    } else {
        let r = ((header[2] as u64) << 56u64) | ((header[3] as u64) << 48u64) | ((header[4] as u64) << 40u64) | ((
        header[5] as u64) << 32u64) | ((header[6] as u64) << 24u64) | ((header[7] as u64) << 16u64) | ((
        header[8] as u64) << 8u64) | (header[9] as u64);
        assert(header@.subrange(2, 10)[0] == header@[2]);
        r
    }
}

/// Decodes a buffer holding exactly one frame.
pub fn decode_frame(bytes: &[u8]) -> (r: Option<WebSocketFrame>)
    ensures
        match r {
            Some(f) => decode_spec(bytes@) == Some(f.view_tuple()),
            None => decode_spec(bytes@) is None,
        },
{
    let len = bytes.len();
    if len < 2 {
        return None;
    }
    let h = header_rest_size(bytes[1]) + 2;
    if len < h {
        return None;
    }
    let n = payload_size(bytes);
    if n != (len - h) as u64 {
        return None;
    }
    let mut body: Vec<u8> = Vec::new();
    let mut k: usize = h;
    while k < len
        invariant
            h <= k <= len,
            len == bytes@.len(),
            body@ =~= bytes@.subrange(h as int, k as int),
        decreases len - k,
    {
        body.push(bytes[k]);
        k = k + 1;
    }
    let fin = bytes[0] >= 128;
    let opcode = bytes[0] % 16;
    if bytes[1] >= 128 {
        let key: [u8; 4] = [bytes[h - 4], bytes[h - 3], bytes[h - 2], bytes[h - 1]];
        assert(key@ =~= bytes@.subrange(h - 4, h as int));
        let payload = unmask_payload(key, body);
        Some(WebSocketFrame { fin, opcode, mask_key: Some(key), payload })
    } else {
        Some(WebSocketFrame { fin, opcode, mask_key: None, payload: body })
    }
}

proof fn lemma_be64_round_trip(v: u64)
    ensures
        from_be64(be64(v)) == v,
{
    let b = be64(v);
    assert(b[0] == (v >> 56u64) as u8 && b[7] == v as u8);
    assert(((((v >> 56u64) as u8) as u64) << 56u64) | ((((v >> 48u64) as u8) as u64) << 48u64) | ((((v
        >> 40u64) as u8) as u64) << 40u64) | ((((v >> 32u64) as u8) as u64) << 32u64) | ((((v >> 24u64) as u8)
        as u64) << 24u64) | ((((v >> 16u64) as u8) as u64) << 16u64) | ((((v >> 8u64) as u8) as u64) << 8u64)
        | ((v as u8) as u64) == v) by (bit_vector);
}

/// An unmasked frame decodes to its payload and opcode: for every payload
/// shorter than 2^63 bytes and every 4-bit opcode.
pub proof fn lemma_frame_round_trip(payload: Seq<u8>, opcode: u8)
    requires
        payload.len() < 0x8000_0000_0000_0000,
        opcode < 16,
    ensures
        decode_spec(frame_spec(payload, opcode, None)) == Some((true, opcode, None::<Seq<u8>>, payload)),
{
    let f = frame_spec(payload, opcode, None);
    let n = payload.len();
    let head = seq![(0x80 + opcode % 16) as u8, length_hint(n)];
    assert(f =~= head + extended_length(n) + payload);
    if n < 126 {
        assert(header_size(f[1]) == 2);
        assert(f.subrange(2, f.len() as int) =~= payload);
    } else if n <= 0xFFFF {
        assert(f[1] == 126);
        assert(f[2] == (n as u16 / 256) as u8 && f[3] == (n as u16 % 256) as u8);
        assert(from_be16(f[2], f[3]) == n);
        assert(f.subrange(4, f.len() as int) =~= payload);
    } else {
        assert(f[1] == 127);
        assert(f.subrange(2, 10) =~= be64(n as u64));
        lemma_be64_round_trip(n as u64);
        assert(f.subrange(10, f.len() as int) =~= payload);
    }
}


/// A close frame with a status code and reason.
pub fn close_frame(code: u16, reason: &str) -> (r: Vec<u8>)
    ensures
        r@ == frame_spec(be16(code) + encode_utf8(reason@), OPCODE::CONNECTION_CLOSE, None),
{
    let mut payload: Vec<u8> = Vec::new();
    push_u16(&mut payload, code);
    push_bytes(&mut payload, reason.as_bytes());
    create_frame_with_key(payload, OPCODE::CONNECTION_CLOSE, None)
}

/// The close frame sent after the RFB side was shut down: 1000 when that
/// went well, 1011 when it failed.
pub fn remote_closed_frame(shutdown_ok: bool) -> (r: Vec<u8>)
    ensures
        shutdown_ok ==> r@ == frame_spec(be16(1000) + encode_utf8("Remote Connection Closed"@), 8, None),
        !shutdown_ok ==> r@ == frame_spec(be16(1011) + encode_utf8("Failed to Close Remote Connection"@), 8, None),
{
    if shutdown_ok {
        close_frame(1000, "Remote Connection Closed")
    } else {
        close_frame(1011, "Failed to Close Remote Connection")
    }
}

/// The close frame sent when the RFB listener cannot be reached (1011).
pub fn unreachable_frame() -> (r: Vec<u8>)
    ensures
        r@ == frame_spec(be16(1011) + encode_utf8("Remote Host Connection Failed"@), 8, None),
{
    close_frame(1011, "Remote Host Connection Failed")
}

/// What the bridge does with a frame from the browser.
#[derive(Clone, Debug)]
pub enum ProxyAction {
    /// Nothing yet (a fragment, a pong, an unknown opcode).
    Nothing,
    /// Write this payload to the RFB socket.
    Forward(Vec<u8>),
    /// Send this frame to the browser.
    Reply(Vec<u8>),
    /// Send this frame to the browser, then disconnect.
    ReplyAndClose(Vec<u8>),
    /// Shut the RFB socket down, then send `remote_closed_frame`.
    ShutdownRemote,
}

/// Fragment reassembly state of one bridged connection.
pub struct WsProxy {
    pub fin_payload: Vec<u8>,
    pub fin_payload_opcode: u8,
}

impl WsProxy {
    pub fn new() -> (r: WsProxy)
        ensures
            r.fin_payload@ == Seq::<u8>::empty(),
            r.fin_payload_opcode == OPCODE::CONTINUATION_FRAME,
    {
        WsProxy { fin_payload: Vec::new(), fin_payload_opcode: OPCODE::CONTINUATION_FRAME }
    }

    /// The payload and opcode a final frame completes: a continuation ends
    /// the fragments gathered so far and takes the first fragment's opcode.
    pub open spec fn completed(prev: WsProxy, frame: WebSocketFrame) -> (Seq<u8>, u8) {
        if frame.opcode == OPCODE::CONTINUATION_FRAME {
            (prev.fin_payload@ + frame.payload@, prev.fin_payload_opcode)
        } else {
            (frame.payload@, frame.opcode)
        }
    }

    /// What `on_frame` does from `prev`.
    pub open spec fn on_frame_spec(prev: WsProxy, next: WsProxy, frame: WebSocketFrame, r: ProxyAction) -> bool {
        if frame.mask_key is None {
            &&& next.fin_payload@ == prev.fin_payload@
            &&& next.fin_payload_opcode == prev.fin_payload_opcode
            &&& r matches ProxyAction::ReplyAndClose(b) && b@ == frame_spec(
                be16(1008) + encode_utf8("Payload is not Masked"@),
                8,
                None,
            )
        } else if !frame.fin {
            &&& next.fin_payload@ == prev.fin_payload@ + frame.payload@
            &&& next.fin_payload_opcode == if frame.opcode != OPCODE::CONTINUATION_FRAME {
                frame.opcode
            } else {
                prev.fin_payload_opcode
            }
            &&& r is Nothing
        } else {
            let (payload, opcode) = Self::completed(prev, frame);
            &&& next.fin_payload@ == if frame.opcode == OPCODE::CONTINUATION_FRAME {
                Seq::empty()
            } else {
                prev.fin_payload@
            }
            &&& next.fin_payload_opcode == prev.fin_payload_opcode
            &&& (opcode == OPCODE::TEXT_FRAME || opcode == OPCODE::BINARY_FRAME) ==> (r matches ProxyAction::Forward(
                p,
            ) && p@ == payload)
            &&& opcode == OPCODE::PING ==> (r matches ProxyAction::Reply(b) && b@ == frame_spec(
                encode_utf8("Pong"@),
                OPCODE::PONG,
                None,
            ))
            &&& opcode == OPCODE::CONNECTION_CLOSE ==> r is ShutdownRemote
            &&& !(opcode == OPCODE::TEXT_FRAME || opcode == OPCODE::BINARY_FRAME || opcode == OPCODE::PING || opcode
                == OPCODE::CONNECTION_CLOSE) ==> r is Nothing
        }
    }

    /// Handles one frame from the browser. Frames must be masked; an
    /// unmasked one ends the connection with a policy-violation close (1008).
    pub fn on_frame(&mut self, frame: WebSocketFrame) -> (r: ProxyAction)
        ensures
            Self::on_frame_spec(*old(self), *final(self), frame, r),
    {
        let ghost prev = *self;
        if frame.mask_key.is_none() {
            return ProxyAction::ReplyAndClose(close_frame(1008, "Payload is not Masked"));
        }
        if !frame.fin {
            if frame.opcode != OPCODE::CONTINUATION_FRAME {
                self.fin_payload_opcode = frame.opcode;
            }
            push_bytes(&mut self.fin_payload, frame.payload.as_slice());
            return ProxyAction::Nothing;
        }
        let payload: Vec<u8>;
        let opcode: u8;
        if frame.opcode == OPCODE::CONTINUATION_FRAME {
            let mut gathered: Vec<u8> = Vec::new();
            std::mem::swap(&mut gathered, &mut self.fin_payload);
            push_bytes(&mut gathered, frame.payload.as_slice());
            payload = gathered;
            opcode = self.fin_payload_opcode;
        } else {
            opcode = frame.opcode;
            payload = frame.payload;
        }
        assert((payload@, opcode) == Self::completed(prev, frame));
        if opcode == OPCODE::TEXT_FRAME || opcode == OPCODE::BINARY_FRAME {
            ProxyAction::Forward(payload)
        } else if opcode == OPCODE::PING {
            let mut pong: Vec<u8> = Vec::new();
            push_bytes(&mut pong, "Pong".as_bytes());
            ProxyAction::Reply(create_frame_with_key(pong, OPCODE::PONG, None))
        } else if opcode == OPCODE::CONNECTION_CLOSE {
            ProxyAction::ShutdownRemote
        } else {
            ProxyAction::Nothing
        }
    }
}


/// The SHA-1 digest of `data`.
pub uninterp spec fn sha1_of(data: Seq<u8>) -> Seq<u8>;

/// Standard, padded base64 of `data`.
pub uninterp spec fn base64_of(data: Seq<u8>) -> Seq<char>;

/// Relies on `sha1::Sha1` (`Digest::new`, `update`, `finalize`): the 20-byte
/// SHA-1 digest of the input.
#[verifier::external_body]
fn sha1_digest(data: &[u8]) -> (r: Vec<u8>)
    ensures
        r@ == sha1_of(data@),
        r@.len() == 20,
{
    let mut hasher = sha1::Sha1::new();
    hasher.update(data);
    hasher.finalize().to_vec()
}

/// Relies on `base64::engine::general_purpose::STANDARD` (`Engine::encode`):
/// padded base64 with the standard alphabet, four characters for every three
/// bytes or part of them. It panics only when that size overflows `usize`.
#[verifier::external_body]
fn base64_encode(data: &[u8]) -> (r: String)
    requires
        data@.len() <= 0x1000_0000,
    ensures
        r@ == base64_of(data@),
        r@.len() == 4 * ((data@.len() + 2) / 3),
{
    base64::engine::general_purpose::STANDARD.encode(data)
}

/// The GUID appended to the client's key.
pub open spec fn websocket_magic() -> Seq<u8> {
    encode_utf8("258EAFA5-E914-47DA-95CA-C5AB0DC85B11"@)
}

/// `Sec-WebSocket-Accept` for a client's `Sec-WebSocket-Key`: the base64 of
/// the SHA-1 of the key followed by the GUID.
pub fn get_accept_key(websocket_key: &[u8]) -> (r: String)
    ensures
        r@ == base64_of(sha1_of(websocket_key@ + websocket_magic())),
        r@.len() == 28,
{
    let mut keyed: Vec<u8> = Vec::new();
    push_bytes(&mut keyed, websocket_key);
    push_bytes(&mut keyed, "258EAFA5-E914-47DA-95CA-C5AB0DC85B11".as_bytes());
    let digest = sha1_digest(keyed.as_slice());
    base64_encode(digest.as_slice())
}

} // verus!
