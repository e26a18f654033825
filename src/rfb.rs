//! The RFB 3.8 protocol engine for one viewer connection, as a state
//! machine: the caller reads exactly `bytes_wanted()` bytes, hands them to
//! `receive`, and carries out the returned action (write bytes, capture and
//! send an update, inject input, close).

use vstd::prelude::*;
use vstd::utf8::encode_utf8;
use crate::server::{PixelFormat, RFBServerInit, RFBEncodingType, ClientToServerMessage};
use crate::wire::{be16, be32, push_u16, push_u32, push_bytes, slice_equal};
use crate::vnc_auth::{vnc_auth_accepts, response_accepted};
use crate::zstream::SpifySession;

verus! {

/// Relies on `rand::random`: sixteen bytes from the thread-local generator.
/// Nothing is promised of their values.
#[verifier::external_body]
fn random_challenge() -> (r: [u8; 16]) {
    rand::random()
}

/// The server's fixed handshake values: the protocol version it speaks and
/// the security types it knows (None and VNC; type 0 is invalid).
pub struct RFBServer {
    pub protocol_version: [u8; 12],
    pub supported_security_types_length: u8,
    pub supported_security_types: [u8; 2],
}

impl RFBServer {
    pub fn init() -> (r: RFBServer)
        ensures
            r.protocol_version@ == version_bytes(),
            r.supported_security_types_length == 1,
            r.supported_security_types@ == seq![1u8, 2u8],
    {
        let r = RFBServer {
            protocol_version: [82u8, 70u8, 66u8, 32u8, 48u8, 48u8, 51u8, 46u8, 48u8, 48u8, 56u8, 10u8],
            supported_security_types_length: 1,
            supported_security_types: [1u8, 2u8],
        };
        assert(r.protocol_version@ =~= version_bytes());
        assert(r.supported_security_types@ =~= seq![1u8, 2u8]);
        r
    }
}

/// The VNC password given at startup (its first eight bytes).
#[derive(Clone, Copy, Debug, PartialEq, Eq)]
pub struct VNCAuth {
    pub security_key: [u8; 8],
}

/// The authentication a server is configured with.
#[derive(Clone, Copy, Debug, PartialEq, Eq)]
pub enum RFBAuthentication {
    Vnc(VNCAuth),
}

/// "RFB 003.008\n".
pub open spec fn version_bytes() -> Seq<u8> {
    seq![82u8, 70u8, 66u8, 32u8, 48u8, 48u8, 51u8, 46u8, 48u8, 48u8, 56u8, 10u8]
}

/// An error reason on the wire: its length, then its bytes.
pub open spec fn error_bytes(reason: Seq<u8>) -> Seq<u8> {
    be32(reason.len() as u32) + reason
}

/// The security types offered: None (1) without a password, VNC (2) with one.
pub open spec fn security_types_bytes(has_password: bool) -> Seq<u8> {
    if has_password {
        seq![1u8, 2u8]
    } else {
        seq![1u8, 1u8]
    }
}

/// SecurityResult OK.
pub open spec fn security_ok_bytes() -> Seq<u8> {
    seq![0u8, 0u8, 0u8, 0u8]
}

/// SecurityResult failed, with its reason.
pub open spec fn security_failed_bytes(reason: Seq<u8>) -> Seq<u8> {
    seq![0u8, 0u8, 0u8, 1u8] + error_bytes(reason)
}

/// A pixel format on the wire (16 bytes).
pub open spec fn pixel_format_bytes(pf: PixelFormat) -> Seq<u8> {
    seq![pf.bits_per_pixel, pf.depth, pf.big_endian_flag, pf.true_color_flag] + be16(pf.red_max) + be16(
        pf.green_max,
    ) + be16(pf.blue_max) + seq![pf.red_shift, pf.green_shift, pf.blue_shift] + pf.padding@
}

/// A ServerInit message on the wire.
pub open spec fn server_init_bytes(init: RFBServerInit) -> Seq<u8> {
    be16(init.framebuffer_width) + be16(init.framebuffer_height) + pixel_format_bytes(init.server_pixelformat)
        + be32(init.name_length) + encode_utf8(init.name_string@)
}

/// The big-endian value of two bytes.
pub open spec fn from_be16(hi: u8, lo: u8) -> u16 {
    (hi as nat * 256 + lo as nat) as u16
}

/// The big-endian value of four bytes.
pub open spec fn from_be32(b0: u8, b1: u8, b2: u8, b3: u8) -> u32 {
    (b0 as nat * 0x1000000 + b1 as nat * 0x10000 + b2 as nat * 0x100 + b3 as nat) as u32
}

/// The pixel format held by 16 wire bytes.
pub open spec fn parse_pixel_format_spec(b: Seq<u8>) -> PixelFormat {
    PixelFormat {
        bits_per_pixel: b[0],
        depth: b[1],
        big_endian_flag: b[2],
        true_color_flag: b[3],
        red_max: from_be16(b[4], b[5]),
        green_max: from_be16(b[6], b[7]),
        blue_max: from_be16(b[8], b[9]),
        red_shift: b[10],
        green_shift: b[11],
        blue_shift: b[12],
        padding: [b[13], b[14], b[15]],
    }
}

pub fn version_message() -> (r: Vec<u8>)
    ensures
        r@ == version_bytes(),
{
    let r: Vec<u8> = vec![82u8, 70u8, 66u8, 32u8, 48u8, 48u8, 51u8, 46u8, 48u8, 48u8, 56u8, 10u8];
    assert(r@ =~= version_bytes());
    r
}

/// An RFB error message: the reason's length, then the reason.
pub fn create_rfb_error(reason_string: &str) -> (r: Vec<u8>)
    ensures
        r@ == error_bytes(encode_utf8(reason_string@)),
{
    let bytes = reason_string.as_bytes();
    let mut out: Vec<u8> = Vec::new();
    push_u32(&mut out, bytes.len() as u32);
    push_bytes(&mut out, bytes);
    out
}

fn security_failed(reason_string: &str) -> (r: Vec<u8>)
    ensures
        r@ == security_failed_bytes(encode_utf8(reason_string@)),
{
    let mut out: Vec<u8> = vec![0u8, 0u8, 0u8, 1u8];
    let error = create_rfb_error(reason_string);
    push_bytes(&mut out, error.as_slice());
    assert(out@ =~= security_failed_bytes(encode_utf8(reason_string@)));
    out
}

/// Serialises a pixel format.
pub fn write_pixel_format(out: &mut Vec<u8>, pf: &PixelFormat)
    ensures
        final(out)@ == old(out)@ + pixel_format_bytes(*pf),
{
    out.push(pf.bits_per_pixel);
    out.push(pf.depth);
    out.push(pf.big_endian_flag);
    out.push(pf.true_color_flag);
    push_u16(out, pf.red_max);
    push_u16(out, pf.green_max);
    push_u16(out, pf.blue_max);
    out.push(pf.red_shift);
    out.push(pf.green_shift);
    out.push(pf.blue_shift);
    out.push(pf.padding[0]);
    out.push(pf.padding[1]);
    out.push(pf.padding[2]);
    assert(final(out)@ =~= old(out)@ + pixel_format_bytes(*pf));
}

/// Reads a pixel format from 16 bytes starting at `start`.
pub fn parse_pixel_format(b: &[u8], start: usize) -> (r: PixelFormat)
    requires
        start + 16 <= b@.len(),
    ensures
        r == parse_pixel_format_spec(b@.subrange(start as int, start + 16)),
{
    PixelFormat {
        bits_per_pixel: b[start],
        depth: b[start + 1],
        big_endian_flag: b[start + 2],
        true_color_flag: b[start + 3],
        red_max: (b[start + 4] as u16) * 256 + b[start + 5] as u16,
        green_max: (b[start + 6] as u16) * 256 + b[start + 7] as u16,
        blue_max: (b[start + 8] as u16) * 256 + b[start + 9] as u16,
        red_shift: b[start + 10],
        green_shift: b[start + 11],
        blue_shift: b[start + 12],
        padding: [b[start + 13], b[start + 14], b[start + 15]],
    }
}

/// Reading back a serialised pixel format gives the same format.
pub proof fn lemma_pixel_format_round_trip(pf: PixelFormat)
    ensures
        pixel_format_bytes(pf).len() == 16,
        parse_pixel_format_spec(pixel_format_bytes(pf)) == pf,
{
    let b = pixel_format_bytes(pf);
    assert(b.len() == 16);
    assert(b[13] == pf.padding[0] && b[14] == pf.padding[1] && b[15] == pf.padding[2]);
    assert([b[13], b[14], b[15]] =~= pf.padding);
}

impl RFBServerInit {
    /// The ServerInit body for a framebuffer of this size and format.
    pub fn new(framebuffer_width: u16, framebuffer_height: u16, server_pixelformat: PixelFormat, name_string: String) -> (r: RFBServerInit)
        requires
            encode_utf8(name_string@).len() <= u32::MAX,
        ensures
            r.framebuffer_width == framebuffer_width,
            r.framebuffer_height == framebuffer_height,
            r.server_pixelformat == server_pixelformat,
            r.name_string@ == name_string@,
            r.name_length == encode_utf8(name_string@).len(),
    {
        let name_length = name_string.as_str().as_bytes().len() as u32;
        RFBServerInit { framebuffer_width, framebuffer_height, server_pixelformat, name_length, name_string }
    }
}

/// Serialises a ServerInit message.
pub fn write_serverinit_message(init: &RFBServerInit) -> (r: Vec<u8>)
    ensures
        r@ == server_init_bytes(*init),
{
    let mut out: Vec<u8> = Vec::new();
    push_u16(&mut out, init.framebuffer_width);
    push_u16(&mut out, init.framebuffer_height);
    write_pixel_format(&mut out, &init.server_pixelformat);
    push_u32(&mut out, init.name_length);
    push_bytes(&mut out, init.name_string.as_str().as_bytes());
    assert(out@ =~= server_init_bytes(*init));
    out
}

/// The fixed number of bytes after each client opcode; `None` for an
/// opcode the server does not know.
pub open spec fn payload_length_spec(opcode: u8) -> Option<nat> {
    if opcode == ClientToServerMessage::SET_PIXEL_FORMAT {
        Some(19)
    } else if opcode == ClientToServerMessage::SET_ENCODINGS {
        Some(3)
    } else if opcode == ClientToServerMessage::FRAME_BUFFER_UPDATE_REQUEST {
        Some(9)
    } else if opcode == ClientToServerMessage::KEY_EVENT {
        Some(7)
    } else if opcode == ClientToServerMessage::POINTER_EVENT {
        Some(5)
    } else if opcode == ClientToServerMessage::CLIENT_CUT_TEXT {
        Some(7)
    } else {
        None
    }
}

pub fn payload_length(opcode: u8) -> (r: Option<usize>)
    ensures
        r matches Some(n) ==> payload_length_spec(opcode) == Some(n as nat),
        r is None ==> payload_length_spec(opcode) is None,
{
    if opcode == ClientToServerMessage::SET_PIXEL_FORMAT {
        Some(19)
    } else if opcode == ClientToServerMessage::SET_ENCODINGS {
        Some(3)
    } else if opcode == ClientToServerMessage::FRAME_BUFFER_UPDATE_REQUEST {
        Some(9)
    } else if opcode == ClientToServerMessage::KEY_EVENT {
        Some(7)
    } else if opcode == ClientToServerMessage::POINTER_EVENT {
        Some(5)
    } else if opcode == ClientToServerMessage::CLIENT_CUT_TEXT {
        Some(7)
    } else {
        None
    }
}

/// Pointer buttons, normalised from RFB's button mask.
#[derive(Clone, Copy, Debug, PartialEq, Eq)]
pub enum PointerButton {
    Release,
    Left,
    Middle,
    Right,
    WheelUp,
    WheelDown,
}

pub open spec fn button_of(mask: u8) -> PointerButton {
    if mask == 1 {
        PointerButton::Left
    } else if mask == 2 {
        PointerButton::Middle
    } else if mask == 4 {
        PointerButton::Right
    } else if mask == 8 {
        PointerButton::WheelUp
    } else if mask == 16 {
        PointerButton::WheelDown
    } else {
        PointerButton::Release
    }
}

/// Normalises an RFB button mask: 1 left, 2 middle, 4 right, 8 wheel up,
/// 16 wheel down; 0, and any other mask, release.
pub fn parse_button_mask(mask: u8) -> (r: PointerButton)
    ensures
        r == button_of(mask),
{
    if mask == 1 {
        PointerButton::Left
    } else if mask == 2 {
        PointerButton::Middle
    } else if mask == 4 {
        PointerButton::Right
    } else if mask == 8 {
        PointerButton::WheelUp
    } else if mask == 16 {
        PointerButton::WheelDown
    } else {
        PointerButton::Release
    }
}

/// Where a connection stands.
#[derive(Clone, Copy, Debug, PartialEq, Eq)]
pub enum RfbState {
    AwaitVersion,
    AwaitSecurityChoice,
    AwaitSecurityResponse { challenge: [u8; 16] },
    AwaitClientInit,
    AwaitOpcode,
    AwaitPayload { opcode: u8 },
    AwaitTail { opcode: u8, length: usize },
    Closed,
}

/// What the caller does after `receive`.
#[derive(Clone, Debug)]
pub enum RfbAction {
    /// Nothing to do; read the next bytes.
    Continue,
    /// Write these bytes.
    Send(Vec<u8>),
    /// Write these bytes, then close the connection.
    SendThenClose(Vec<u8>),
    /// Close the connection.
    Close,
    /// Capture this rectangle and send it as a FramebufferUpdate in this
    /// encoding.
    Update { x_position: u16, y_position: u16, width: u16, height: u16, encoding_type: i32 },
    /// Inject a key press (`down`) or release.
    Key { down: bool, key_sym: u32 },
    /// Move the pointer and apply the button.
    Pointer { button: PointerButton, x_position: u16, y_position: u16 },
    /// Text the viewer put on its clipboard.
    CutText(Vec<u8>),
}

pub open spec fn version_reason() -> Seq<u8> {
    encode_utf8("Version not Supported"@)
}

pub open spec fn security_type_reason() -> Seq<u8> {
    encode_utf8("Authentication Type not Supported"@)
}

pub open spec fn auth_failed_reason() -> Seq<u8> {
    encode_utf8("Authentication Failed"@)
}

/// One viewer connection.
pub struct RfbConnection {
    pub state: RfbState,
    /// The VNC password, when authentication is configured.
    pub password: Option<[u8; 8]>,
    /// The layout the viewer asked for.
    pub pixel_format: PixelFormat,
    pub server_init: RFBServerInit,
    /// Whether the viewer asked to share the desktop.
    pub shared: bool,
    /// The connection's zlib streams.
    pub session: SpifySession,
}

impl RfbConnection {
    /// A connection that has sent nothing yet; the caller first writes
    /// `version_message()`.
    pub fn new(password: Option<[u8; 8]>, server_init: RFBServerInit) -> (r: RfbConnection)
        ensures
            r.wf(),
            r.state == RfbState::AwaitVersion,
            r.password == password,
            r.pixel_format == server_init.server_pixelformat,
            r.server_init == server_init,
    {
        let pixel_format = server_init.server_pixelformat;
        RfbConnection { state: RfbState::AwaitVersion, password, pixel_format, server_init, shared: true, session: SpifySession::new() }
    }

    /// The connection only waits for the payload of an opcode it knows and
    /// for a non-empty tail.
    pub open spec fn wf(self) -> bool {
        match self.state {
            RfbState::AwaitPayload { opcode } => payload_length_spec(opcode) is Some,
            RfbState::AwaitTail { length, .. } => length > 0,
            _ => true,
        }
    }

    pub open spec fn bytes_wanted_spec(self) -> nat {
        match self.state {
            RfbState::AwaitVersion => 12,
            RfbState::AwaitSecurityChoice => 1,
            RfbState::AwaitSecurityResponse { .. } => 16,
            RfbState::AwaitClientInit => 1,
            RfbState::AwaitOpcode => 1,
            RfbState::AwaitPayload { opcode } => match payload_length_spec(opcode) {
                Some(n) => n,
                None => 0,
            },
            RfbState::AwaitTail { length, .. } => length as nat,
            RfbState::Closed => 0,
        }
    }

    /// How many bytes to read before the next `receive`.
    pub fn bytes_wanted(&self) -> (r: usize)
        ensures
            r == self.bytes_wanted_spec(),
            self.wf() ==> (r == 0 <==> self.state is Closed),
    {
        match self.state {
            RfbState::AwaitVersion => 12,
            RfbState::AwaitSecurityChoice => 1,
            RfbState::AwaitSecurityResponse { .. } => 16,
            RfbState::AwaitClientInit => 1,
            RfbState::AwaitOpcode => 1,
            RfbState::AwaitPayload { opcode } => match payload_length(opcode) {
                Some(n) => n,
                None => 0,
            },
            RfbState::AwaitTail { length, .. } => length,
            RfbState::Closed => 0,
        }
    }

    /// What `receive` does from `prev`: `next` is the connection after it and
    /// `r` the action returned.
    pub open spec fn receive_spec(prev: RfbConnection, next: RfbConnection, input: Seq<u8>, r: RfbAction) -> bool {
        &&& next.password == prev.password
        &&& next.server_init == prev.server_init
        &&& next.session == prev.session
        &&& (match prev.state {
                RfbState::AwaitVersion => if input == version_bytes() {
                    &&& next.state == RfbState::AwaitSecurityChoice
                    &&& r matches RfbAction::Send(b) && b@ == security_types_bytes(prev.password is Some)
                } else {
                    &&& next.state == RfbState::Closed
                    &&& r matches RfbAction::SendThenClose(b) && b@ == error_bytes(version_reason())
                },
                RfbState::AwaitSecurityChoice => if input[0] == 1 && prev.password is None {
                    &&& next.state == RfbState::AwaitClientInit
                    &&& r matches RfbAction::Send(b) && b@ == security_ok_bytes()
                } else if input[0] == 2 && prev.password is Some {
                    &&& next.state matches RfbState::AwaitSecurityResponse { challenge }
                    &&& r matches RfbAction::Send(b) && b@ == challenge@
                } else {
                    &&& next.state == RfbState::Closed
                    &&& r matches RfbAction::SendThenClose(b) && b@ == security_failed_bytes(security_type_reason())
                },
                RfbState::AwaitSecurityResponse { challenge } => match prev.password {
                    Some(password) => if response_accepted(password@, challenge@, input) {
                        &&& next.state == RfbState::AwaitClientInit
                        &&& r matches RfbAction::Send(b) && b@ == security_ok_bytes()
                    } else {
                        &&& next.state == RfbState::Closed
                        &&& r matches RfbAction::SendThenClose(b) && b@ == security_failed_bytes(auth_failed_reason())
                    },
                    None => next.state == RfbState::Closed && r is Close,
                },
                RfbState::AwaitClientInit => {
                    &&& next.state == RfbState::AwaitOpcode
                    &&& next.shared == (input[0] != 0)
                    &&& r matches RfbAction::Send(b) && b@ == server_init_bytes(prev.server_init)
                },
                RfbState::AwaitOpcode => if payload_length_spec(input[0]) is Some {
                    &&& next.state == RfbState::AwaitPayload { opcode: input[0] }
                    &&& r is Continue
                } else {
                    next.state == RfbState::Closed && r is Close
                },
                RfbState::AwaitPayload { opcode } => if opcode == ClientToServerMessage::SET_PIXEL_FORMAT {
                    &&& next.state == RfbState::AwaitOpcode
                    &&& next.pixel_format == parse_pixel_format_spec(input.subrange(3, 19))
                    &&& r == (RfbAction::Update {
                        x_position: 0,
                        y_position: 0,
                        width: prev.server_init.framebuffer_width,
                        height: prev.server_init.framebuffer_height,
                        encoding_type: RFBEncodingType::RAW,
                    })
                } else if opcode == ClientToServerMessage::SET_ENCODINGS {
                    let count = from_be16(input[1], input[2]);
                    &&& count == 0 ==> next.state == RfbState::AwaitOpcode
                    &&& count != 0 ==> next.state == (RfbState::AwaitTail { opcode, length: (4 * count) as usize })
                    &&& r is Continue
                } else if opcode == ClientToServerMessage::FRAME_BUFFER_UPDATE_REQUEST {
                    &&& next.state == RfbState::AwaitOpcode
                    &&& r == (RfbAction::Update {
                        x_position: from_be16(input[1], input[2]),
                        y_position: from_be16(input[3], input[4]),
                        width: from_be16(input[5], input[6]),
                        height: from_be16(input[7], input[8]),
                        encoding_type: RFBEncodingType::ZRLE,
                    })
                } else if opcode == ClientToServerMessage::KEY_EVENT {
                    &&& next.state == RfbState::AwaitOpcode
                    &&& r == (RfbAction::Key {
                        down: input[0] != 0,
                        key_sym: from_be32(input[3], input[4], input[5], input[6]),
                    })
                } else if opcode == ClientToServerMessage::POINTER_EVENT {
                    &&& next.state == RfbState::AwaitOpcode
                    &&& r == (RfbAction::Pointer {
                        button: button_of(input[0]),
                        x_position: from_be16(input[1], input[2]),
                        y_position: from_be16(input[3], input[4]),
                    })
                } else if opcode == ClientToServerMessage::CLIENT_CUT_TEXT {
                    let length = from_be32(input[3], input[4], input[5], input[6]);
                    &&& length == 0 ==> next.state == RfbState::AwaitOpcode && (r matches RfbAction::CutText(t)
                        && t@.len() == 0)
                    &&& length != 0 ==> next.state == (RfbState::AwaitTail { opcode, length: length as usize })
                        && r is Continue
                } else {
                    next.state == RfbState::Closed && r is Close
                },
                RfbState::AwaitTail { opcode, .. } => {
                    &&& next.state == RfbState::AwaitOpcode
                    &&& opcode == ClientToServerMessage::CLIENT_CUT_TEXT ==> (r matches RfbAction::CutText(t) && t@
                        == input)
                    &&& opcode != ClientToServerMessage::CLIENT_CUT_TEXT ==> r is Continue
                },
                RfbState::Closed => next.state == RfbState::Closed && r is Close,
            })
        &&& (prev.state != RfbState::AwaitPayload { opcode: ClientToServerMessage::SET_PIXEL_FORMAT }
            ==> next.pixel_format == prev.pixel_format)
        &&& (!(prev.state is AwaitClientInit) ==> next.shared == prev.shared)
    }

    /// Handles the bytes the connection asked for and says what to do next.
    pub fn receive(&mut self, input: &[u8]) -> (r: RfbAction)
        requires
            input@.len() == old(self).bytes_wanted_spec(),
        ensures
            Self::receive_spec(*old(self), *final(self), input@, r),
            final(self).wf(),
    {
        match self.state {
            RfbState::AwaitVersion => {
                let expected = version_message();
                let same = slice_equal(input, expected.as_slice());
                if same {
                    self.state = RfbState::AwaitSecurityChoice;
                    let offered: Vec<u8> = if self.password.is_some() { vec![1u8, 2u8] } else { vec![1u8, 1u8] };
                    assert(offered@ =~= security_types_bytes(self.password is Some));
                    RfbAction::Send(offered)
                } else {
                    self.state = RfbState::Closed;
                    RfbAction::SendThenClose(create_rfb_error("Version not Supported"))
                }
            },
            RfbState::AwaitSecurityChoice => {
                let selected = input[0];
                if selected == 1 && self.password.is_none() {
                    self.state = RfbState::AwaitClientInit;
                    let ok: Vec<u8> = vec![0u8, 0u8, 0u8, 0u8];
                    assert(ok@ =~= security_ok_bytes());
                    RfbAction::Send(ok)
                } else if selected == 2 && self.password.is_some() {
                    let challenge = random_challenge();
                    self.state = RfbState::AwaitSecurityResponse { challenge };
                    let mut sent: Vec<u8> = Vec::new();
                    push_bytes(&mut sent, challenge.as_slice());
                    assert(sent@ =~= challenge@);
                    RfbAction::Send(sent)
                } else {
                    self.state = RfbState::Closed;
                    RfbAction::SendThenClose(security_failed("Authentication Type not Supported"))
                }
            },
            RfbState::AwaitSecurityResponse { challenge } => {
                match self.password {
                    Some(password) => {
                        if vnc_auth_accepts(&password, &challenge, input) {
                            self.state = RfbState::AwaitClientInit;
                            let ok: Vec<u8> = vec![0u8, 0u8, 0u8, 0u8];
                            assert(ok@ =~= security_ok_bytes());
                            RfbAction::Send(ok)
                        } else {
                            self.state = RfbState::Closed;
                            RfbAction::SendThenClose(security_failed("Authentication Failed"))
                        }
                    },
                    None => {
                        self.state = RfbState::Closed;
                        RfbAction::Close
                    },
                }
            },
            RfbState::AwaitClientInit => {
                self.shared = input[0] != 0;
                self.state = RfbState::AwaitOpcode;
                RfbAction::Send(write_serverinit_message(&self.server_init))
            },
            RfbState::AwaitOpcode => {
                let opcode = input[0];
                match payload_length(opcode) {
                    Some(_) => {
                        self.state = RfbState::AwaitPayload { opcode };
                        RfbAction::Continue
                    },
                    None => {
                        self.state = RfbState::Closed;
                        RfbAction::Close
                    },
                }
            },
            RfbState::AwaitPayload { opcode } => {
                if opcode == ClientToServerMessage::SET_PIXEL_FORMAT {
                    self.pixel_format = parse_pixel_format(input, 3);
                    self.state = RfbState::AwaitOpcode;
                    RfbAction::Update {
                        x_position: 0,
                        y_position: 0,
                        width: self.server_init.framebuffer_width,
                        height: self.server_init.framebuffer_height,
                        encoding_type: RFBEncodingType::RAW,
                    }
                } else if opcode == ClientToServerMessage::SET_ENCODINGS {
                    let count: u16 = (input[1] as u16) * 256 + input[2] as u16;
                    if count == 0 {
                        self.state = RfbState::AwaitOpcode;
                    } else {
                        self.state = RfbState::AwaitTail { opcode, length: 4 * count as usize };
                    }
                    RfbAction::Continue
                } else if opcode == ClientToServerMessage::FRAME_BUFFER_UPDATE_REQUEST {
                    self.state = RfbState::AwaitOpcode;
                    RfbAction::Update {
                        x_position: (input[1] as u16) * 256 + input[2] as u16,
                        y_position: (input[3] as u16) * 256 + input[4] as u16,
                        width: (input[5] as u16) * 256 + input[6] as u16,
                        height: (input[7] as u16) * 256 + input[8] as u16,
                        encoding_type: RFBEncodingType::ZRLE,
                    }
                } else if opcode == ClientToServerMessage::KEY_EVENT {
                    self.state = RfbState::AwaitOpcode;
                    RfbAction::Key {
                        down: input[0] != 0,
                        key_sym: (input[3] as u32) * 0x1000000 + (input[4] as u32) * 0x10000 + (input[5] as u32)
                            * 0x100 + input[6] as u32,
                    }
                } else if opcode == ClientToServerMessage::POINTER_EVENT {
                    self.state = RfbState::AwaitOpcode;
                    RfbAction::Pointer {
                        button: parse_button_mask(input[0]),
                        x_position: (input[1] as u16) * 256 + input[2] as u16,
                        y_position: (input[3] as u16) * 256 + input[4] as u16,
                    }
                } else if opcode == ClientToServerMessage::CLIENT_CUT_TEXT {
                    let length: u32 = (input[3] as u32) * 0x1000000 + (input[4] as u32) * 0x10000 + (input[5] as u32)
                        * 0x100 + input[6] as u32;
                    if length == 0 {
                        self.state = RfbState::AwaitOpcode;
                        RfbAction::CutText(Vec::new())
                    } else {
                        self.state = RfbState::AwaitTail { opcode, length: length as usize };
                        RfbAction::Continue
                    }
                } else {
                    self.state = RfbState::Closed;
                    RfbAction::Close
                }
            },
            RfbState::AwaitTail { opcode, .. } => {
                self.state = RfbState::AwaitOpcode;
                if opcode == ClientToServerMessage::CLIENT_CUT_TEXT {
                    let mut text: Vec<u8> = Vec::new();
                    push_bytes(&mut text, input);
                    RfbAction::CutText(text)
                } else {
                    RfbAction::Continue
                }
            },
            RfbState::Closed => RfbAction::Close,
        }
    }
}

} // verus!
