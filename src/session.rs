use crate::text::{chars_of, string_of};
use vstd::prelude::*;

verus! {

pub open spec fn is_lower_hex(c: char) -> bool {
    ('0' <= c && c <= '9') || ('a' <= c && c <= 'f')
}

/// The text of a random (version 4, RFC 9562 variant) UUID in lowercase
/// hyphenated form: 36 characters, hyphens at 8, 13, 18 and 23, lowercase
/// hex digits elsewhere, version digit `4` at 14, and one of `8 9 a b` at 19.
pub open spec fn is_uuid_v4_text(s: Seq<char>) -> bool {
    &&& s.len() == 36
    &&& forall|i: int|
        0 <= i < 36 ==> if i == 8 || i == 13 || i == 18 || i == 23 {
            #[trigger] s[i] == '-'
        } else {
            is_lower_hex(s[i])
        }
    &&& s[14] == '4'
    &&& (s[19] == '8' || s[19] == '9' || s[19] == 'a' || s[19] == 'b')
}

/// Relies on `uuid::Uuid::new_v4` and its `Display`: a fresh random UUID
/// whose version bits read 4 and variant bits 10, written in lowercase
/// hyphenated form. Which UUID comes out is left open.
#[verifier::external_body]
fn random_session_id() -> (r: String)
    ensures
        is_uuid_v4_text(r@),
{
    uuid::Uuid::new_v4().to_string()
}

/// The handshake acknowledgement (Engine.IO packet type `0`) for session
/// id `sid`.
pub open spec fn handshake_text(sid: Seq<char>) -> Seq<char> {
    "0{\"sid\":\""@ + sid + "\",\"upgrades\":[],\"pingInterval\":25000,\"pingTimeout\":5000}"@
}

/// The handshake acknowledgement carrying session id `sid`, with an empty
/// upgrade list and fixed ping interval and timeout.
pub fn handshake_packet(sid: &str) -> (r: String)
    ensures
        r@ == handshake_text(sid@),
{
    let mut r = String::from_str("0{\"sid\":\"");
    r.append(sid);
    r.append("\",\"upgrades\":[],\"pingInterval\":25000,\"pingTimeout\":5000}");
    r
}

/// Where a connection stands.
#[derive(Clone, Copy, Debug, PartialEq, Eq, Structural)]
pub enum Phase {
    Handshaking,
    Open,
    Closed,
}

/// One frame read from the WebSocket transport.
#[derive(Clone, Debug)]
pub enum Frame {
    Text(String),
    Binary(Vec<u8>),
    Ping(Vec<u8>),
    Pong,
    Close,
}

/// What the connection has to do after a frame.
#[derive(Clone, Debug)]
pub enum Action {
    /// Nothing.
    Nothing,
    /// Send this text frame.
    SendText(String),
    /// Answer a transport ping with a pong carrying these bytes.
    SendPong(Vec<u8>),
    /// A Socket.IO event arrived: the JSON text `[name, ...args]` after `42`.
    Event(String),
    /// Run the decode pipeline on this binary attachment.
    Decode(Vec<u8>),
    /// Stop reading: the connection is closed.
    Stop,
}

/// The Engine.IO/Socket.IO state of one connection: its phase, and the
/// placeholder of a binary attachment announced by a `451-` packet.
#[derive(Clone, Debug)]
pub struct ProtocolSession {
    pub phase: Phase,
    pub pending: Option<String>,
}

pub open spec fn starts_with(t: Seq<char>, p: Seq<char>) -> bool {
    p.len() <= t.len() && t.take(p.len() as int) == p
}

/// The Engine.IO/Socket.IO packet types that a text frame may carry.
#[derive(Clone, Copy, Debug, PartialEq, Eq, Structural)]
pub enum PacketKind {
    /// `2`: client ping.
    Ping,
    /// `40`: namespace connect.
    Connect,
    /// `42`: event.
    Event,
    /// `451-`: binary event whose attachment follows.
    BinaryEvent,
    /// Anything else.
    Unknown,
}

/// The packet type of a text frame, by its prefix.
pub open spec fn packet_kind(t: Seq<char>) -> PacketKind {
    if starts_with(t, seq!['2']) {
        PacketKind::Ping
    } else if starts_with(t, seq!['4', '0']) {
        PacketKind::Connect
    } else if starts_with(t, seq!['4', '2']) {
        PacketKind::Event
    } else if starts_with(t, seq!['4', '5', '1', '-']) {
        PacketKind::BinaryEvent
    } else {
        PacketKind::Unknown
    }
}

proof fn lemma_starts_with(t: Seq<char>, p: Seq<char>)
    ensures
        starts_with(t, p) <==> (p.len() <= t.len() && forall|i: int|
            0 <= i < p.len() ==> t[i] == p[i]),
{
    if p.len() <= t.len() {
        if forall|i: int| 0 <= i < p.len() ==> t[i] == p[i] {
            assert(t.take(p.len() as int) =~= p);
        }
        if starts_with(t, p) {
            assert forall|i: int| 0 <= i < p.len() implies t[i] == p[i] by {
                assert(t.take(p.len() as int)[i] == t[i]);
            }
        }
    }
}

pub open spec fn pending_view(p: Option<String>) -> Option<Seq<char>> {
    match p {
        Some(s) => Some(s@),
        None => None,
    }
}

/// `cs[from..]` as a string.
fn suffix(cs: &Vec<char>, from: usize) -> (r: String)
    requires
        from <= cs.len(),
    ensures
        r@ == cs@.skip(from as int),
{
    let mut tail: Vec<char> = Vec::new();
    let mut k: usize = from;
    while k < cs.len()
        invariant
            from <= k <= cs.len(),
            tail@ == cs@.subrange(from as int, k as int),
        decreases cs.len() - k,
    {
        tail.push(cs[k]);
        assert(cs@.subrange(from as int, k + 1) == cs@.subrange(from as int, k as int).push(
            cs@[k as int],
        ));
        k = k + 1;
    }
    string_of(&tail)
}

impl ProtocolSession {
    /// A connection that has not yet been acknowledged.
    pub fn new() -> (r: Self)
        ensures
            r.phase == Phase::Handshaking,
            r.pending is None,
    {
        ProtocolSession { phase: Phase::Handshaking, pending: None }
    }

    /// Opens the session with session id `sid`: returns the handshake
    /// acknowledgement to send.
    pub fn open_with(&mut self, sid: &str) -> (r: String)
        ensures
            final(self).phase == Phase::Open,
            final(self).pending is None,
            r@ == handshake_text(sid@),
    {
        self.phase = Phase::Open;
        self.pending = None;
        handshake_packet(sid)
    }

    /// Opens the session with a freshly generated random UUID as session
    /// id: returns the handshake acknowledgement to send and the id.
    pub fn open(&mut self) -> (r: (String, String))
        ensures
            final(self).phase == Phase::Open,
            final(self).pending is None,
            is_uuid_v4_text(r.1@),
            r.0@ == handshake_text(r.1@),
    {
        let sid = random_session_id();
        let packet = self.open_with(sid.as_str());
        (packet, sid)
    }

    /// The transport failed (a send or a read): the session ends.
    pub fn fail(&mut self)
        ensures
            final(self).phase == Phase::Closed,
            final(self).pending == old(self).pending,
    {
        self.phase = Phase::Closed;
    }

    /// Handles one inbound frame. Frames are handled only while the session
    /// is open; otherwise nothing happens.
    pub fn on_frame(&mut self, frame: Frame) -> (r: Action)
        ensures
            old(self).phase != Phase::Open ==> *final(self) == *old(self) && r is Nothing,
            old(self).phase == Phase::Open ==> match frame {
                Frame::Text(t) => {
                    &&& final(self).phase == Phase::Open
                    &&& match packet_kind(t@) {
                        PacketKind::Ping => {
                            &&& final(self).pending == old(self).pending
                            &&& r matches Action::SendText(s) && s@ == seq!['3']
                        },
                        PacketKind::Event => {
                            &&& final(self).pending == old(self).pending
                            &&& r matches Action::Event(s) && s@ == t@.skip(2)
                        },
                        PacketKind::BinaryEvent => {
                            &&& pending_view(final(self).pending) == Some(t@.skip(4))
                            &&& r is Nothing
                        },
                        _ => final(self).pending == old(self).pending && r is Nothing,
                    }
                },
                Frame::Binary(data) => {
                    &&& final(self).phase == Phase::Open
                    &&& final(self).pending is None
                    &&& old(self).pending is Some ==> (r matches Action::Decode(d) && d@ == data@)
                    &&& old(self).pending is None ==> r is Nothing
                },
                Frame::Ping(data) => {
                    &&& *final(self) == *old(self)
                    &&& r matches Action::SendPong(d) && d@ == data@
                },
                Frame::Pong => *final(self) == *old(self) && r is Nothing,
                Frame::Close => {
                    &&& final(self).phase == Phase::Closed
                    &&& final(self).pending == old(self).pending
                    &&& r is Stop
                },
            },
    {
        match self.phase {
            Phase::Open => {},
            _ => {
                return Action::Nothing;
            },
        }
        match frame {
            Frame::Text(t) => {
                let cs = chars_of(t.as_str());
                proof {
                    lemma_starts_with(t@, seq!['2']);
                    lemma_starts_with(t@, seq!['4', '0']);
                    lemma_starts_with(t@, seq!['4', '2']);
                    lemma_starts_with(t@, seq!['4', '5', '1', '-']);
                }
                if cs.len() >= 1 && cs[0] == '2' {
                    let mut pong = String::new();
                    pong.append("3");
                    proof {
                        reveal_strlit("3");
                    }
                    Action::SendText(pong)
                } else if cs.len() >= 2 && cs[0] == '4' && cs[1] == '0' {
                    Action::Nothing
                } else if cs.len() >= 2 && cs[0] == '4' && cs[1] == '2' {
                    Action::Event(suffix(&cs, 2))
                } else if cs.len() >= 4 && cs[0] == '4' && cs[1] == '5' && cs[2] == '1' && cs[3]
                    == '-' {
                    self.pending = Some(suffix(&cs, 4));
                    Action::Nothing
                } else {
                    Action::Nothing
                }
            },
            Frame::Binary(data) => {
                let waiting = self.pending.is_some();
                self.pending = None;
                if waiting {
                    Action::Decode(data)
                } else {
                    Action::Nothing
                }
            },
            Frame::Ping(data) => Action::SendPong(data),
            Frame::Pong => Action::Nothing,
            Frame::Close => {
                self.phase = Phase::Closed;
                Action::Stop
            },
        }
    }
}

} // verus!
