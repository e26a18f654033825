//! The daemon/worker IPC: frames of `opcode, length, payload` over TCP. A
//! worker announces its RFB address (HELLO) and its WebSocket bridge
//! (IP_UPDATE); the daemon keeps one session entry per worker pid.

use vstd::prelude::*;
use vstd::utf8::encode_utf8;
use std::collections::HashMap;
use crate::http::{find_from, first_at, occurs_at, decimal, decimal_bytes};
use crate::wire::{push_bytes, copy_range, slice_equal};

verus! {

broadcast use vstd::std_specs::hash::group_hash_axioms;

/// IPC opcodes.
pub struct IpcEvent;

impl IpcEvent {
    pub const HELLO: u8 = 0;
    pub const PING: u8 = 1;
    pub const PONG: u8 = 2;
    pub const IP_UPDATE: u8 = 3;
    pub const DISCONNECT: u8 = 4;
}

/// A frame on the wire.
pub open spec fn frame_bytes(opcode: u8, payload: Seq<u8>) -> Seq<u8> {
    seq![opcode, payload.len() as u8] + payload
}

/// Frames a payload; `None` when it is longer than a length byte can say.
pub fn construct_payload(opcode: u8, payload: &[u8]) -> (r: Option<Vec<u8>>)
    ensures
        payload@.len() <= 255 ==> (r matches Some(f) && f@ == frame_bytes(opcode, payload@)),
        payload@.len() > 255 ==> r is None,
{
    if payload.len() > 255 {
        return None;
    }
    let mut packet: Vec<u8> = Vec::new();
    packet.push(opcode);
    packet.push(payload.len() as u8);
    push_bytes(&mut packet, payload);
    Some(packet)
}

pub open spec fn crlf() -> Seq<u8> {
    seq![13u8, 10u8]
}

/// "ws", the tag of a plain bridge.
pub open spec fn ws_tag() -> Seq<u8> {
    seq![119u8, 115u8]
}

/// "wss", the tag of a TLS bridge.
pub open spec fn wss_tag() -> Seq<u8> {
    seq![119u8, 115u8, 115u8]
}

/// HELLO's payload: the worker's pid, "\r\n", its RFB address.
pub open spec fn hello_spec(pid: u32, address: Seq<u8>) -> Seq<u8> {
    decimal(pid as nat) + crlf() + address
}

/// IP_UPDATE's payload: pid, "\r\n", "ws" or "wss", "\r\n", bridge address.
pub open spec fn ip_update_spec(pid: u32, secure: bool, address: Seq<u8>) -> Seq<u8> {
    decimal(pid as nat) + crlf() + (if secure {
        wss_tag()
    } else {
        ws_tag()
    }) + crlf() + address
}

pub fn hello_payload(pid: u32, address: &[u8]) -> (r: Vec<u8>)
    ensures
        r@ == hello_spec(pid, address@),
{
    let mut out = decimal_bytes(pid as usize);
    out.push(13u8);
    out.push(10u8);
    push_bytes(&mut out, address);
    assert(out@ =~= hello_spec(pid, address@));
    out
}

pub fn ip_update_payload(pid: u32, secure: bool, address: &[u8]) -> (r: Vec<u8>)
    ensures
        r@ == ip_update_spec(pid, secure, address@),
{
    let mut out = decimal_bytes(pid as usize);
    out.push(13u8);
    out.push(10u8);
    let wss: [u8; 3] = [119u8, 115u8, 115u8];
    let ws: [u8; 2] = [119u8, 115u8];
    if secure {
        push_bytes(&mut out, wss.as_slice());
    } else {
        push_bytes(&mut out, ws.as_slice());
    }
    assert(wss@ =~= wss_tag() && ws@ =~= ws_tag());
    out.push(13u8);
    out.push(10u8);
    push_bytes(&mut out, address);
    assert(out@ =~= ip_update_spec(pid, secure, address@));
    out
}

/// The value of a string of decimal digits.
pub open spec fn digits_value(s: Seq<u8>) -> nat
    decreases s.len(),
{
    if s.len() == 0 {
        0
    } else {
        digits_value(s.drop_last()) * 10 + (s.last() - 48) as nat
    }
}

pub open spec fn all_digits(s: Seq<u8>) -> bool {
    forall|i: int| 0 <= i < s.len() ==> 48 <= #[trigger] s[i] <= 57
}

/// The number a string of digits spells, when it is one and fits in a u32.
pub open spec fn parse_u32_spec(s: Seq<u8>) -> Option<u32> {
    if s.len() > 0 && all_digits(s) && digits_value(s) <= u32::MAX {
        Some(digits_value(s) as u32)
    } else {
        None
    }
}

proof fn lemma_digits_monotone(s: Seq<u8>, k: int)
    requires
        0 <= k <= s.len(),
        all_digits(s),
    ensures
        digits_value(s.subrange(0, k)) <= digits_value(s),
    decreases s.len() - k,
{
    if k < s.len() {
        lemma_digits_monotone(s, k + 1);
        assert(s.subrange(0, k + 1).drop_last() =~= s.subrange(0, k));
        assert(48 <= s[k]);
    } else {
        assert(s.subrange(0, k) =~= s);
    }
}

pub fn parse_u32(s: &[u8]) -> (r: Option<u32>)
    ensures
        r == parse_u32_spec(s@),
{
    if s.len() == 0 {
        return None;
    }
    let mut value: u64 = 0;
    let mut k: usize = 0;
    assert(s@.subrange(0, 0) =~= Seq::<u8>::empty());
    while k < s.len()
        invariant
            k <= s@.len(),
            all_digits(s@.subrange(0, k as int)),
            value == digits_value(s@.subrange(0, k as int)),
            value <= u32::MAX,
        decreases s@.len() - k,
    {
        let d = s[k];
        assert(s@.subrange(0, k + 1).drop_last() =~= s@.subrange(0, k as int));
        if d < 48 || d > 57 {
            assert(!all_digits(s@));
            return None;
        }
        value = value * 10 + (d - 48) as u64;
        k = k + 1;
        if value > u32::MAX as u64 {
            proof {
                if all_digits(s@) {
                    lemma_digits_monotone(s@, k as int);
                }
            }
            return None;
        }
    }
    assert(s@.subrange(0, s@.len() as int) =~= s@);
    Some(value as u32)
}

/// A decoded IPC message.
#[derive(Clone, Debug)]
pub enum IpcMessage {
    Hello { pid: u32, address: Vec<u8> },
    IpUpdate { pid: u32, secure: bool, address: Vec<u8> },
    Ping(Vec<u8>),
    Pong(Vec<u8>),
}

/// The view of a message: opcode, pid, secure flag, address or text.
pub type MessageView = (u8, u32, bool, Seq<u8>);

impl IpcMessage {
    pub open spec fn view_tuple(self) -> MessageView {
        match self {
            IpcMessage::Hello { pid, address } => (IpcEvent::HELLO, pid, false, address@),
            IpcMessage::IpUpdate { pid, secure, address } => (IpcEvent::IP_UPDATE, pid, secure, address@),
            IpcMessage::Ping(text) => (IpcEvent::PING, 0, false, text@),
            IpcMessage::Pong(text) => (IpcEvent::PONG, 0, false, text@),
        }
    }
}

/// `s` cut at its first "\r\n": what comes before and after.
pub open spec fn split_crlf(s: Seq<u8>) -> Option<(Seq<u8>, Seq<u8>)> {
    if exists|i: int| first_at(s, crlf(), i) {
        let i = choose|i: int| first_at(s, crlf(), i);
        Some((s.subrange(0, i), s.subrange(i + 2, s.len() as int)))
    } else {
        None
    }
}

/// The message a frame with this opcode and payload carries.
pub open spec fn parse_spec(opcode: u8, payload: Seq<u8>) -> Option<MessageView> {
    if opcode == IpcEvent::PING {
        Some((IpcEvent::PING, 0, false, payload))
    } else if opcode == IpcEvent::PONG {
        Some((IpcEvent::PONG, 0, false, payload))
    } else if opcode == IpcEvent::HELLO {
        match split_crlf(payload) {
            Some((head, address)) => match parse_u32_spec(head) {
                Some(pid) => Some((IpcEvent::HELLO, pid, false, address)),
                None => None,
            },
            None => None,
        }
    } else if opcode == IpcEvent::IP_UPDATE {
        match split_crlf(payload) {
            Some((head, rest)) => match (parse_u32_spec(head), split_crlf(rest)) {
                (Some(pid), Some((kind, address))) => if kind == ws_tag() {
                    Some((IpcEvent::IP_UPDATE, pid, false, address))
                } else if kind == wss_tag() {
                    Some((IpcEvent::IP_UPDATE, pid, true, address))
                } else {
                    None
                },
                _ => None,
            },
            None => None,
        }
    } else {
        None
    }
}

/// Cuts `s` at its first "\r\n".
fn split_at_crlf(s: &[u8]) -> (r: Option<(Vec<u8>, Vec<u8>)>)
    ensures
        match r {
            Some((a, b)) => split_crlf(s@) == Some((a@, b@)),
            None => split_crlf(s@) is None,
        },
{
    let sep: [u8; 2] = [13u8, 10u8];
    let sep_slice = sep.as_slice();
    assert(sep_slice@ =~= crlf());
    match find_from(s, sep_slice, 0) {
        Some(i) => {
            proof {
                let c = choose|c: int| first_at(s@, crlf(), c);
                assert(first_at(s@, crlf(), i as int));
                if c != i {
                    assert(first_at(s@, crlf(), c));
                }
            }
            let len = s.len();
            Some((copy_range(s, 0, i), copy_range(s, i + 2, len)))
        },
        None => {
            assert(forall|j: int| !first_at(s@, crlf(), j));
            None
        },
    }
}

/// Decodes the payload of a frame.
pub fn parse_message(opcode: u8, payload: &[u8]) -> (r: Option<IpcMessage>)
    ensures
        match r {
            Some(m) => parse_spec(opcode, payload@) == Some(m.view_tuple()),
            None => parse_spec(opcode, payload@) is None,
        },
{
    if opcode == IpcEvent::PING {
        Some(IpcMessage::Ping(copy_range(payload, 0, payload.len())))
    } else if opcode == IpcEvent::PONG {
        Some(IpcMessage::Pong(copy_range(payload, 0, payload.len())))
    } else if opcode == IpcEvent::HELLO {
        match split_at_crlf(payload) {
            Some((head, address)) => match parse_u32(head.as_slice()) {
                Some(pid) => Some(IpcMessage::Hello { pid, address }),
                None => None,
            },
            None => None,
        }
    } else if opcode == IpcEvent::IP_UPDATE {
        match split_at_crlf(payload) {
            Some((head, rest)) => {
                let pid = parse_u32(head.as_slice());
                let parts = split_at_crlf(rest.as_slice());
                match (pid, parts) {
                    (Some(pid), Some((kind, address))) => {
                        let ws: [u8; 2] = [119u8, 115u8];
                        let wss: [u8; 3] = [119u8, 115u8, 115u8];
                        assert(wss@ =~= wss_tag() && ws@ =~= ws_tag());
                        if slice_equal(kind.as_slice(), ws.as_slice()) {
                            Some(IpcMessage::IpUpdate { pid, secure: false, address })
                        } else if slice_equal(kind.as_slice(), wss.as_slice()) {
                            Some(IpcMessage::IpUpdate { pid, secure: true, address })
                        } else {
                            None
                        }
                    },
                    _ => None,
                }
            },
            None => None,
        }
    } else {
        None
    }
}


/// What the daemon knows of one worker.
#[derive(Debug)]
pub struct DaemonSession {
    pub ip: Vec<u8>,
    pub ws: Vec<u8>,
    pub ws_secure: bool,
}

/// The view of a session: RFB address, bridge address, whether the bridge
/// uses TLS.
pub type SessionView = (Seq<u8>, Seq<u8>, bool);

/// The daemon's sessions, by worker pid.
pub struct DaemonSessions {
    pub sessions: HashMap<u32, DaemonSession>,
}

impl DaemonSessions {
    pub open spec fn view_of(self) -> Map<u32, SessionView> {
        Map::new(
            |pid: u32| self.sessions@.contains_key(pid),
            |pid: u32| (self.sessions@[pid].ip@, self.sessions@[pid].ws@, self.sessions@[pid].ws_secure),
        )
    }

    pub fn new() -> (r: DaemonSessions)
        ensures
            r.view_of() == Map::<u32, SessionView>::empty(),
    {
        let r = DaemonSessions { sessions: HashMap::new() };
        assert(r.view_of() =~= Map::<u32, SessionView>::empty());
        r
    }

    /// A HELLO: the worker's RFB address, keeping what else is known of it.
    pub fn process_hello(&mut self, pid: u32, address: Vec<u8>)
        ensures
            final(self).view_of() == old(self).view_of().insert(
                pid,
                (
                    address@,
                    if old(self).view_of().contains_key(pid) { old(self).view_of()[pid].1 } else { Seq::empty() },
                    old(self).view_of().contains_key(pid) && old(self).view_of()[pid].2,
                ),
            ),
    {
        let ghost before = self.view_of();
        let updated = match self.sessions.remove(&pid) {
            Some(old_entry) => DaemonSession { ip: address, ws: old_entry.ws, ws_secure: old_entry.ws_secure },
            None => DaemonSession { ip: address, ws: Vec::new(), ws_secure: false },
        };
        self.sessions.insert(pid, updated);
        assert(self.view_of() =~= before.insert(
            pid,
            (
                address@,
                if before.contains_key(pid) { before[pid].1 } else { Seq::empty() },
                before.contains_key(pid) && before[pid].2,
            ),
        ));
    }

    /// An IP_UPDATE: the worker's bridge address and whether it uses TLS.
    pub fn process_ipupdate(&mut self, pid: u32, secure: bool, address: Vec<u8>)
        ensures
            final(self).view_of() == old(self).view_of().insert(
                pid,
                (
                    if old(self).view_of().contains_key(pid) { old(self).view_of()[pid].0 } else { Seq::empty() },
                    address@,
                    secure,
                ),
            ),
    {
        let ghost before = self.view_of();
        let updated = match self.sessions.remove(&pid) {
            Some(old_entry) => DaemonSession { ip: old_entry.ip, ws: address, ws_secure: secure },
            None => DaemonSession { ip: Vec::new(), ws: address, ws_secure: secure },
        };
        self.sessions.insert(pid, updated);
        assert(self.view_of() =~= before.insert(
            pid,
            (if before.contains_key(pid) { before[pid].0 } else { Seq::empty() }, address@, secure),
        ));
    }

    /// The worker went away.
    pub fn process_disconnect(&mut self, pid: u32)
        ensures
            final(self).view_of() == old(self).view_of().remove(pid),
    {
        let ghost before = self.view_of();
        let _ = self.sessions.remove(&pid);
        assert(self.view_of() =~= before.remove(pid));
    }

    /// Applies a message from a worker; PING and PONG change nothing.
    pub fn apply(&mut self, message: IpcMessage)
        ensures
            match message {
                IpcMessage::Hello { pid, address } => final(self).view_of() == old(self).view_of().insert(
                    pid,
                    (
                        address@,
                        if old(self).view_of().contains_key(pid) { old(self).view_of()[pid].1 } else { Seq::empty() },
                        old(self).view_of().contains_key(pid) && old(self).view_of()[pid].2,
                    ),
                ),
                IpcMessage::IpUpdate { pid, secure, address } => final(self).view_of() == old(self).view_of().insert(
                    pid,
                    (
                        if old(self).view_of().contains_key(pid) { old(self).view_of()[pid].0 } else { Seq::empty() },
                        address@,
                        secure,
                    ),
                ),
                _ => final(self).view_of() == old(self).view_of(),
            },
    {
        match message {
            IpcMessage::Hello { pid, address } => self.process_hello(pid, address),
            IpcMessage::IpUpdate { pid, secure, address } => self.process_ipupdate(pid, secure, address),
            _ => {},
        }
    }
}

/// The daemon's answer to a worker frame: PONG to a PING, and a PING that
/// acknowledges an IP_UPDATE (when the acknowledgement fits in a frame).
pub fn daemon_reply(opcode: u8, payload: &[u8]) -> (r: Option<Vec<u8>>)
    ensures
        opcode == IpcEvent::PING ==> (r matches Some(f) && f@ == frame_bytes(IpcEvent::PONG, encode_utf8("PONG"@))),
        opcode == IpcEvent::IP_UPDATE ==> ({
            let text = encode_utf8("Received IP Update: "@) + payload@;
            &&& text.len() <= 255 ==> (r matches Some(f) && f@ == frame_bytes(IpcEvent::PING, text))
            &&& text.len() > 255 ==> r is None
        }),
        opcode != IpcEvent::PING && opcode != IpcEvent::IP_UPDATE ==> r is None,
{
    if opcode == IpcEvent::PING {
        let text = "PONG".as_bytes();
        let mut f: Vec<u8> = Vec::new();
        f.push(IpcEvent::PONG);
        f.push(text.len() as u8);
        push_bytes(&mut f, text);
        assert(f@ =~= frame_bytes(IpcEvent::PONG, encode_utf8("PONG"@)));
        Some(f)
    } else if opcode == IpcEvent::IP_UPDATE {
        let mut text: Vec<u8> = Vec::new();
        push_bytes(&mut text, "Received IP Update: ".as_bytes());
        push_bytes(&mut text, payload);
        construct_payload(IpcEvent::PING, text.as_slice())
    } else {
        None
    }
}

/// A worker's answer to a daemon frame: PONG to a PING, nothing otherwise.
pub fn worker_reply(opcode: u8) -> (r: Option<Vec<u8>>)
    ensures
        opcode == IpcEvent::PING ==> (r matches Some(f) && f@ == frame_bytes(IpcEvent::PONG, encode_utf8("PONG"@))),
        opcode != IpcEvent::PING ==> r is None,
{
    if opcode == IpcEvent::PING {
        let text = "PONG".as_bytes();
        let mut f: Vec<u8> = Vec::new();
        f.push(IpcEvent::PONG);
        f.push(text.len() as u8);
        push_bytes(&mut f, text);
        assert(f@ =~= frame_bytes(IpcEvent::PONG, encode_utf8("PONG"@)));
        Some(f)
    } else {
        None
    }
}


proof fn lemma_decimal_digits(n: nat)
    ensures
        decimal(n).len() > 0,
        all_digits(decimal(n)),
        digits_value(decimal(n)) == n,
    decreases n,
{
    let d = decimal(n);
    if n < 10 {
        assert(d.drop_last() =~= Seq::<u8>::empty());
        assert(d.last() == (48 + n) as u8);
        assert(d.len() == 1);
        assert(digits_value(d) == digits_value(d.drop_last()) * 10 + (d.last() - 48) as nat);
        assert(digits_value(d.drop_last()) == 0);
        assert(all_digits(d)) by {
            assert forall|i: int| 0 <= i < d.len() implies 48 <= #[trigger] d[i] <= 57 by {
                assert(i == 0);
            }
        }
    } else {
        lemma_decimal_digits(n / 10);
        assert(d.drop_last() =~= decimal(n / 10));
        assert(d.last() == (48 + n % 10) as u8);
        assert(n == (n / 10) * 10 + n % 10);
        assert(digits_value(d) == digits_value(d.drop_last()) * 10 + (d.last() - 48) as nat);
        assert(all_digits(d)) by {
            assert forall|i: int| 0 <= i < d.len() implies 48 <= #[trigger] d[i] <= 57 by {
                if i < d.len() - 1 {
                    assert(d[i] == decimal(n / 10)[i]);
                }
            }
        }
    }
}

/// A payload `head + "\r\n" + tail` whose head holds no carriage return
/// splits back into `head` and `tail`.
proof fn lemma_split_after_digits(head: Seq<u8>, tail: Seq<u8>)
    requires
        forall|i: int| 0 <= i < head.len() ==> #[trigger] head[i] != 13u8,
    ensures
        split_crlf(head + crlf() + tail) == Some((head, tail)),
{
    let s = head + crlf() + tail;
    let h = head.len() as int;
    assert(s.subrange(h, h + 2) =~= crlf());
    assert forall|j: int| 0 <= j < h implies !occurs_at(s, crlf(), j) by {
        if occurs_at(s, crlf(), j) {
            assert(s.subrange(j, j + 2)[0] == s[j]);
            assert(s[j] == head[j]);
        }
    }
    assert(first_at(s, crlf(), h));
    let c = choose|c: int| first_at(s, crlf(), c);
    if c < h {
        assert(!occurs_at(s, crlf(), c));
    }
    if c > h {
        assert(!occurs_at(s, crlf(), h));
    }
    assert(s.subrange(0, h) =~= head);
    assert(s.subrange(h + 2, s.len() as int) =~= tail);
}

/// Decoding a HELLO payload gives back the pid and address it was built
/// from.
pub proof fn lemma_hello_round_trip(pid: u32, address: Seq<u8>)
    ensures
        parse_spec(IpcEvent::HELLO, hello_spec(pid, address)) == Some((IpcEvent::HELLO, pid, false, address)),
{
    lemma_decimal_digits(pid as nat);
    let d = decimal(pid as nat);
    assert forall|i: int| 0 <= i < d.len() implies #[trigger] d[i] != 13u8 by {
        assert(48 <= d[i]);
    }
    lemma_split_after_digits(d, address);
    assert(hello_spec(pid, address) == d + crlf() + address);
}

/// Decoding an IP_UPDATE payload gives back the pid, the TLS flag and the
/// address it was built from.
pub proof fn lemma_ip_update_round_trip(pid: u32, secure: bool, address: Seq<u8>)
    ensures
        parse_spec(IpcEvent::IP_UPDATE, ip_update_spec(pid, secure, address)) == Some(
            (IpcEvent::IP_UPDATE, pid, secure, address),
        ),
{
    lemma_decimal_digits(pid as nat);
    let d = decimal(pid as nat);
    assert forall|i: int| 0 <= i < d.len() implies #[trigger] d[i] != 13u8 by {
        assert(48 <= d[i]);
    }
    let kind = if secure { wss_tag() } else { ws_tag() };
    let rest = kind + crlf() + address;
    assert(ip_update_spec(pid, secure, address) =~= d + crlf() + rest);
    lemma_split_after_digits(d, rest);
    assert forall|i: int| 0 <= i < kind.len() implies #[trigger] kind[i] != 13u8 by {}
    lemma_split_after_digits(kind, address);
}

} // verus!
