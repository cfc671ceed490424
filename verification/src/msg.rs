//! The frames that travel between a client and the server, and their codec.
//!
//! A frame is a tag of four little-endian bytes that names the variant,
//! followed by the variant's text fields in order. A text field is its length
//! in bytes, as eight little-endian bytes, followed by its UTF-8 bytes. Bytes
//! after a complete frame are ignored.
//!
//! These are the bytes that bincode's fixed-width little-endian encoding has
//! for enums of this shape, so a peer may use bincode on its side.

use vstd::prelude::*;
use vstd::slice::{slice_subrange, slice_to_vec};
use vstd::utf8::{
    decode_utf8, decode_utf8_encode_utf8, encode_utf8, encode_utf8_decode_utf8,
    encode_utf8_valid_utf8, valid_utf8,
};
use crate::wire::{
    get_u32, get_u64, lemma_u32_le_round_trip, lemma_u32_of_le_round_trip,
    lemma_u64_le_round_trip, lemma_u64_of_le_round_trip, put_u32, put_u64, u32_le, u32_of_le,
    u64_le, u64_of_le,
};

verus! {

/// The error of `core::str::from_utf8`, carried through and never looked into.
#[verifier::external_type_specification]
#[verifier::external_body]
pub struct ExUtf8Error(core::str::Utf8Error);

/// `core::str::from_utf8` accepts exactly the byte strings that are valid
/// UTF-8, and the string slice it hands back has the bytes it was given.
pub assume_specification[ core::str::from_utf8 ](v: &[u8]) -> (r: Result<
    &str,
    core::str::Utf8Error,
>)
    ensures
        r is Ok <==> valid_utf8(v@),
        r matches Ok(s) ==> encode_utf8(s@) == v@,
;

/// Why a byte string is not a frame.
#[derive(Debug, Clone, Copy, PartialEq, Eq, Structural)]
pub enum DecodeError {
    /// The bytes end before the tag, a length or a text is complete.
    Truncated,
    /// The tag names no variant of the family.
    UnknownVariant,
    /// A text field is not valid UTF-8.
    InvalidUtf8,
}

/// The bytes of one text field: the length of its UTF-8 form, then that form.
pub open spec fn text_wire(s: Seq<char>) -> Seq<u8> {
    u64_le(encode_utf8(s).len() as u64) + encode_utf8(s)
}

/// Whether the UTF-8 form of `s` is short enough for the length field. Every
/// `String` is.
pub open spec fn text_fits(s: Seq<char>) -> bool {
    encode_utf8(s).len() <= u64::MAX
}

/// What the text field at the front of `bytes` holds, and the number of bytes
/// that it takes up.
pub open spec fn parse_text(bytes: Seq<u8>) -> Result<(Seq<char>, int), DecodeError> {
    if bytes.len() < 8 {
        Err(DecodeError::Truncated)
    } else {
        let n = u64_of_le(bytes.subrange(0, 8)) as int;
        if bytes.len() - 8 < n {
            Err(DecodeError::Truncated)
        } else if !valid_utf8(bytes.subrange(8, 8 + n)) {
            Err(DecodeError::InvalidUtf8)
        } else {
            Ok((decode_utf8(bytes.subrange(8, 8 + n)), 8 + n))
        }
    }
}

/// A text field that was written reads back as itself, whatever follows it.
pub proof fn lemma_text_round_trip(s: Seq<char>, rest: Seq<u8>)
    requires
        text_fits(s),
    ensures
        parse_text(text_wire(s) + rest) == Ok::<(Seq<char>, int), DecodeError>(
            (s, text_wire(s).len() as int),
        ),
{
    let body = encode_utf8(s);
    let n = body.len() as u64;
    let all = text_wire(s) + rest;
    lemma_u64_le_round_trip(n);
    assert(all.subrange(0, 8) =~= u64_le(n));
    assert(all.subrange(8, 8 + n) =~= body);
    encode_utf8_valid_utf8(s);
    encode_utf8_decode_utf8(s);
}

/// A text field that reads as `s` starts with exactly the bytes that `s` is
/// written as: no two byte strings stand for the same text.
pub proof fn lemma_text_parse_unique(bytes: Seq<u8>)
    requires
        parse_text(bytes) is Ok,
    ensures
        text_fits(parse_text(bytes)->Ok_0.0),
        parse_text(bytes)->Ok_0.1 == text_wire(parse_text(bytes)->Ok_0.0).len(),
        bytes.subrange(0, parse_text(bytes)->Ok_0.1) == text_wire(parse_text(bytes)->Ok_0.0),
{
    let head = bytes.subrange(0, 8);
    let n = u64_of_le(head);
    let body = bytes.subrange(8, 8 + n);
    decode_utf8_encode_utf8(body);
    lemma_u64_of_le_round_trip(head);
    assert(bytes.subrange(0, 8 + n) =~= head + body);
}

/// Appends one text field to `out`.
fn put_text(out: &mut Vec<u8>, s: &str)
    ensures
        final(out)@ == old(out)@ + text_wire(s@),
        text_fits(s@),
{
    let body = s.as_bytes();
    let n: usize = body.len();
    put_u64(out, n as u64);
    let mut i: usize = 0;
    while i < n
        invariant
            n == body@.len(),
            i <= n,
            out@ == old(out)@ + u64_le(n as u64) + body@.subrange(0, i as int),
        decreases n - i,
    {
        out.push(body[i]);
        assert(body@.subrange(0, i + 1) =~= body@.subrange(0, i as int).push(body@[i as int]));
        i += 1;
    }
    assert(body@.subrange(0, n as int) =~= body@);
    assert(out@ =~= old(out)@ + text_wire(s@));
}

/// Reads the text field that starts at `at`, and says where the next field
/// starts.
fn get_text(bytes: &[u8], at: usize) -> (r: Result<(String, usize), DecodeError>)
    requires
        at <= bytes@.len(),
    ensures
        match r {
            Ok((s, next)) => parse_text(bytes@.skip(at as int)) == Ok::<
                (Seq<char>, int),
                DecodeError,
            >((s@, next - at)) && at <= next <= bytes@.len(),
            Err(e) => parse_text(bytes@.skip(at as int)) == Err::<(Seq<char>, int), DecodeError>(e),
        },
{
    let ghost tail = bytes@.skip(at as int);
    let len: usize = bytes.len();
    if len - at < 8 {
        return Err(DecodeError::Truncated);
    }
    let n: u64 = get_u64(bytes, at);
    assert(bytes@.subrange(at as int, at + 8) =~= tail.subrange(0, 8));
    let left: usize = len - at - 8;
    if (left as u64) < n {
        return Err(DecodeError::Truncated);
    }
    let size: usize = n as usize;
    let start: usize = at + 8;
    let body = slice_subrange(bytes, start, start + size);
    assert(body@ =~= tail.subrange(8, 8 + n));
    match core::str::from_utf8(body) {
        Ok(s) => {
            proof {
                encode_utf8_decode_utf8(s@);
            }
            Ok((s.to_owned(), start + size))
        },
        Err(_) => Err(DecodeError::InvalidUtf8),
    }
}

/// What a client sends to the server.
#[derive(Debug, Clone, PartialEq, Eq)]
pub enum ClientMessage {
    /// Asks for a display name.
    UserName(String),
    /// A line of chat for everybody else.
    Message(String),
}

/// A client frame as a plain value.
pub enum ClientFrame {
    SetUsername(Seq<char>),
    ChatMessage(Seq<char>),
}

impl View for ClientMessage {
    type V = ClientFrame;

    open spec fn view(&self) -> ClientFrame {
        match self {
            ClientMessage::UserName(name) => ClientFrame::SetUsername(name@),
            ClientMessage::Message(text) => ClientFrame::ChatMessage(text@),
        }
    }
}

impl ClientFrame {
    /// The bytes that the frame is sent as.
    pub open spec fn wire(self) -> Seq<u8> {
        match self {
            ClientFrame::SetUsername(name) => u32_le(0) + text_wire(name),
            ClientFrame::ChatMessage(text) => u32_le(1) + text_wire(text),
        }
    }

    /// Whether every text of the frame is short enough for its length field.
    pub open spec fn fits(self) -> bool {
        match self {
            ClientFrame::SetUsername(name) => text_fits(name),
            ClientFrame::ChatMessage(text) => text_fits(text),
        }
    }

    /// The frame that `bytes` start with.
    pub open spec fn parse(bytes: Seq<u8>) -> Result<ClientFrame, DecodeError> {
        if bytes.len() < 4 {
            Err(DecodeError::Truncated)
        } else {
            let tag = u32_of_le(bytes.subrange(0, 4));
            if tag == 0 {
                match parse_text(bytes.skip(4)) {
                    Ok((name, _)) => Ok(ClientFrame::SetUsername(name)),
                    Err(e) => Err(e),
                }
            } else if tag == 1 {
                match parse_text(bytes.skip(4)) {
                    Ok((text, _)) => Ok(ClientFrame::ChatMessage(text)),
                    Err(e) => Err(e),
                }
            } else {
                Err(DecodeError::UnknownVariant)
            }
        }
    }

    /// Decoding what was encoded gives the frame back, whatever bytes follow
    /// it.
    pub proof fn lemma_round_trip_then(self, rest: Seq<u8>)
        requires
            self.fits(),
        ensures
            ClientFrame::parse(self.wire() + rest) == Ok::<ClientFrame, DecodeError>(self),
    {
        let all = self.wire() + rest;
        let tag: u32 = if self is SetUsername { 0 } else { 1 };
        let text = match self {
            ClientFrame::SetUsername(name) => name,
            ClientFrame::ChatMessage(text) => text,
        };
        lemma_u32_le_round_trip(tag);
        assert(all.subrange(0, 4) =~= u32_le(tag));
        assert(all.skip(4) =~= text_wire(text) + rest);
        lemma_text_round_trip(text, rest);
    }

    /// Decoding what was encoded gives the frame back.
    pub proof fn lemma_round_trip(self)
        requires
            self.fits(),
        ensures
            ClientFrame::parse(self.wire()) == Ok::<ClientFrame, DecodeError>(self),
    {
        self.lemma_round_trip_then(Seq::empty());
        assert(self.wire() + Seq::<u8>::empty() =~= self.wire());
    }

    /// Bytes that decode to a frame start with exactly the bytes that the
    /// frame is encoded as.
    pub proof fn lemma_parse_unique(bytes: Seq<u8>)
        requires
            ClientFrame::parse(bytes) is Ok,
        ensures
            ClientFrame::parse(bytes)->Ok_0.fits(),
            ClientFrame::parse(bytes)->Ok_0.wire().len() <= bytes.len(),
            bytes.subrange(0, ClientFrame::parse(bytes)->Ok_0.wire().len() as int)
                == ClientFrame::parse(bytes)->Ok_0.wire(),
    {
        let frame = ClientFrame::parse(bytes)->Ok_0;
        let head = bytes.subrange(0, 4);
        let tail = bytes.skip(4);
        lemma_u32_of_le_round_trip(head);
        lemma_text_parse_unique(tail);
        let used = parse_text(tail)->Ok_0.1;
        assert(bytes.subrange(0, 4 + used) =~= head + tail.subrange(0, used));
    }
}

impl ClientMessage {
    /// The bytes that this frame is sent as.
    pub fn encode(&self) -> (out: Vec<u8>)
        ensures
            out@ == self@.wire(),
            self@.fits(),
            ClientFrame::parse(out@) == Ok::<ClientFrame, DecodeError>(self@),
    {
        let mut out: Vec<u8> = Vec::new();
        match self {
            ClientMessage::UserName(name) => {
                put_u32(&mut out, 0);
                put_text(&mut out, name.as_str());
            },
            ClientMessage::Message(text) => {
                put_u32(&mut out, 1);
                put_text(&mut out, text.as_str());
            },
        }
        proof {
            assert(out@ =~= self@.wire());
            self@.lemma_round_trip();
        }
        out
    }

    /// The frame that `bytes` start with, or why there is none.
    pub fn decode(bytes: &[u8]) -> (r: Result<ClientMessage, DecodeError>)
        ensures
            match r {
                Ok(m) => ClientFrame::parse(bytes@) == Ok::<ClientFrame, DecodeError>(m@),
                Err(e) => ClientFrame::parse(bytes@) == Err::<ClientFrame, DecodeError>(e),
            },
    {
        if bytes.len() < 4 {
            return Err(DecodeError::Truncated);
        }
        let tag: u32 = get_u32(bytes, 0);
        if tag == 0 {
            match get_text(bytes, 4) {
                Ok((name, _)) => Ok(ClientMessage::UserName(name)),
                Err(e) => Err(e),
            }
        } else if tag == 1 {
            match get_text(bytes, 4) {
                Ok((text, _)) => Ok(ClientMessage::Message(text)),
                Err(e) => Err(e),
            }
        } else {
            Err(DecodeError::UnknownVariant)
        }
    }
}

/// What the server sends to a client.
#[derive(Debug, Clone, PartialEq, Eq)]
pub enum ServerResponse {
    /// The name that the client asked for is now its own.
    UsernameAccepted,
    /// The name was not given out, and why.
    UsernameRejected { reason: String },
    /// A line of chat from another client.
    Broadcast { username: String, message: String },
}

/// A server frame as a plain value.
pub enum ServerFrame {
    UsernameAccepted,
    UsernameRejected { reason: Seq<char> },
    Broadcast { from_username: Seq<char>, text: Seq<char> },
}

impl View for ServerResponse {
    type V = ServerFrame;

    open spec fn view(&self) -> ServerFrame {
        match self {
            ServerResponse::UsernameAccepted => ServerFrame::UsernameAccepted,
            ServerResponse::UsernameRejected { reason } => ServerFrame::UsernameRejected {
                reason: reason@,
            },
            ServerResponse::Broadcast { username, message } => ServerFrame::Broadcast {
                from_username: username@,
                text: message@,
            },
        }
    }
}

impl ServerFrame {
    /// The bytes that the frame is sent as.
    pub open spec fn wire(self) -> Seq<u8> {
        match self {
            ServerFrame::UsernameAccepted => u32_le(0),
            ServerFrame::UsernameRejected { reason } => u32_le(1) + text_wire(reason),
            ServerFrame::Broadcast { from_username, text } => u32_le(2) + text_wire(from_username)
                + text_wire(text),
        }
    }

    /// Whether every text of the frame is short enough for its length field.
    pub open spec fn fits(self) -> bool {
        match self {
            ServerFrame::UsernameAccepted => true,
            ServerFrame::UsernameRejected { reason } => text_fits(reason),
            ServerFrame::Broadcast { from_username, text } => text_fits(from_username) && text_fits(
                text,
            ),
        }
    }

    /// The frame that `bytes` start with.
    pub open spec fn parse(bytes: Seq<u8>) -> Result<ServerFrame, DecodeError> {
        if bytes.len() < 4 {
            Err(DecodeError::Truncated)
        } else {
            let tag = u32_of_le(bytes.subrange(0, 4));
            if tag == 0 {
                Ok(ServerFrame::UsernameAccepted)
            } else if tag == 1 {
                match parse_text(bytes.skip(4)) {
                    Ok((reason, _)) => Ok(ServerFrame::UsernameRejected { reason }),
                    Err(e) => Err(e),
                }
            } else if tag == 2 {
                match parse_text(bytes.skip(4)) {
                    Ok((from_username, used)) => match parse_text(bytes.skip(4 + used)) {
                        Ok((text, _)) => Ok(ServerFrame::Broadcast { from_username, text }),
                        Err(e) => Err(e),
                    },
                    Err(e) => Err(e),
                }
            } else {
                Err(DecodeError::UnknownVariant)
            }
        }
    }

    /// Decoding what was encoded gives the frame back, whatever bytes follow
    /// it.
    pub proof fn lemma_round_trip_then(self, rest: Seq<u8>)
        requires
            self.fits(),
        ensures
            ServerFrame::parse(self.wire() + rest) == Ok::<ServerFrame, DecodeError>(self),
    {
        let all = self.wire() + rest;
        match self {
            ServerFrame::UsernameAccepted => {
                lemma_u32_le_round_trip(0);
                assert(all.subrange(0, 4) =~= u32_le(0));
            },
            ServerFrame::UsernameRejected { reason } => {
                lemma_u32_le_round_trip(1);
                assert(all.subrange(0, 4) =~= u32_le(1));
                assert(all.skip(4) =~= text_wire(reason) + rest);
                lemma_text_round_trip(reason, rest);
            },
            ServerFrame::Broadcast { from_username, text } => {
                lemma_u32_le_round_trip(2);
                assert(all.subrange(0, 4) =~= u32_le(2));
                let first = text_wire(from_username);
                assert(all.skip(4) =~= first + (text_wire(text) + rest));
                lemma_text_round_trip(from_username, text_wire(text) + rest);
                assert(all.skip(4 + first.len() as int) =~= text_wire(text) + rest);
                lemma_text_round_trip(text, rest);
            },
        }
    }

    /// Decoding what was encoded gives the frame back.
    pub proof fn lemma_round_trip(self)
        requires
            self.fits(),
        ensures
            ServerFrame::parse(self.wire()) == Ok::<ServerFrame, DecodeError>(self),
    {
        self.lemma_round_trip_then(Seq::empty());
        assert(self.wire() + Seq::<u8>::empty() =~= self.wire());
    }

    /// Bytes that decode to a frame start with exactly the bytes that the
    /// frame is encoded as.
    pub proof fn lemma_parse_unique(bytes: Seq<u8>)
        requires
            ServerFrame::parse(bytes) is Ok,
        ensures
            ServerFrame::parse(bytes)->Ok_0.fits(),
            ServerFrame::parse(bytes)->Ok_0.wire().len() <= bytes.len(),
            bytes.subrange(0, ServerFrame::parse(bytes)->Ok_0.wire().len() as int)
                == ServerFrame::parse(bytes)->Ok_0.wire(),
    {
        let frame = ServerFrame::parse(bytes)->Ok_0;
        let head = bytes.subrange(0, 4);
        let tail = bytes.skip(4);
        lemma_u32_of_le_round_trip(head);
        match frame {
            ServerFrame::UsernameAccepted => {
                assert(bytes.subrange(0, 4) =~= frame.wire());
            },
            ServerFrame::UsernameRejected { reason } => {
                lemma_text_parse_unique(tail);
                let used = parse_text(tail)->Ok_0.1;
                assert(bytes.subrange(0, 4 + used) =~= head + tail.subrange(0, used));
            },
            ServerFrame::Broadcast { from_username, text } => {
                lemma_text_parse_unique(tail);
                let used = parse_text(tail)->Ok_0.1;
                let second = bytes.skip(4 + used);
                lemma_text_parse_unique(second);
                let more = parse_text(second)->Ok_0.1;
                assert(bytes.subrange(0, 4 + used + more) =~= head + tail.subrange(0, used)
                    + second.subrange(0, more));
            },
        }
    }
}

impl ServerResponse {
    /// The bytes that this frame is sent as.
    pub fn encode(&self) -> (out: Vec<u8>)
        ensures
            out@ == self@.wire(),
            self@.fits(),
            ServerFrame::parse(out@) == Ok::<ServerFrame, DecodeError>(self@),
    {
        let mut out: Vec<u8> = Vec::new();
        match self {
            ServerResponse::UsernameAccepted => {
                put_u32(&mut out, 0);
            },
            ServerResponse::UsernameRejected { reason } => {
                put_u32(&mut out, 1);
                put_text(&mut out, reason.as_str());
            },
            ServerResponse::Broadcast { username, message } => {
                put_u32(&mut out, 2);
                put_text(&mut out, username.as_str());
                put_text(&mut out, message.as_str());
            },
        }
        proof {
            assert(out@ =~= self@.wire());
            self@.lemma_round_trip();
        }
        out
    }

    /// The frame that `bytes` start with, or why there is none.
    pub fn decode(bytes: &[u8]) -> (r: Result<ServerResponse, DecodeError>)
        ensures
            match r {
                Ok(m) => ServerFrame::parse(bytes@) == Ok::<ServerFrame, DecodeError>(m@),
                Err(e) => ServerFrame::parse(bytes@) == Err::<ServerFrame, DecodeError>(e),
            },
    {
        if bytes.len() < 4 {
            return Err(DecodeError::Truncated);
        }
        let tag: u32 = get_u32(bytes, 0);
        if tag == 0 {
            Ok(ServerResponse::UsernameAccepted)
        } else if tag == 1 {
            match get_text(bytes, 4) {
                Ok((reason, _)) => Ok(ServerResponse::UsernameRejected { reason }),
                Err(e) => Err(e),
            }
        } else if tag == 2 {
            match get_text(bytes, 4) {
                Ok((username, next)) => {
                    assert(bytes@.skip(4).skip(next - 4) =~= bytes@.skip(next as int));
                    match get_text(bytes, next) {
                        Ok((message, _)) => Ok(ServerResponse::Broadcast { username, message }),
                        Err(e) => Err(e),
                    }
                },
                Err(e) => Err(e),
            }
        } else {
            Err(DecodeError::UnknownVariant)
        }
    }
}

/// A value that can cross a TCP connection as bytes.
pub trait TcpMessage: Sized + View + Clone + Send + Sync + 'static {
    /// The bytes that a value is sent as.
    spec fn encoded(value: Self::V) -> Seq<u8>;

    /// The value that bytes are read as, if they are read as any.
    spec fn decoded(bytes: Seq<u8>) -> Option<Self::V>;

    /// Reads a value from bytes.
    fn from_bytes(bytes: &[u8]) -> (r: Option<Self>)
        ensures
            match r {
                Some(value) => Self::decoded(bytes@) == Some(value@),
                None => Self::decoded(bytes@) is None,
            },
    ;

    /// Writes a value as bytes. The bytes read back as the value.
    fn to_bytes(&self) -> (r: Option<Vec<u8>>)
        ensures
            r matches Some(bytes) && bytes@ == Self::encoded(self@) && Self::decoded(bytes@)
                == Some(self@),
    ;
}

impl TcpMessage for ClientMessage {
    open spec fn encoded(value: ClientFrame) -> Seq<u8> {
        value.wire()
    }

    open spec fn decoded(bytes: Seq<u8>) -> Option<ClientFrame> {
        match ClientFrame::parse(bytes) {
            Ok(frame) => Some(frame),
            Err(_) => None,
        }
    }

    fn from_bytes(bytes: &[u8]) -> (r: Option<Self>) {
        match ClientMessage::decode(bytes) {
            Ok(frame) => Some(frame),
            Err(_) => None,
        }
    }

    fn to_bytes(&self) -> (r: Option<Vec<u8>>) {
        Some(self.encode())
    }
}

impl TcpMessage for ServerResponse {
    open spec fn encoded(value: ServerFrame) -> Seq<u8> {
        value.wire()
    }

    open spec fn decoded(bytes: Seq<u8>) -> Option<ServerFrame> {
        match ServerFrame::parse(bytes) {
            Ok(frame) => Some(frame),
            Err(_) => None,
        }
    }

    fn from_bytes(bytes: &[u8]) -> (r: Option<Self>) {
        match ServerResponse::decode(bytes) {
            Ok(frame) => Some(frame),
            Err(_) => None,
        }
    }

    fn to_bytes(&self) -> (r: Option<Vec<u8>>) {
        Some(self.encode())
    }
}

/// The text that `String::from_utf8_lossy` makes of bytes that are not valid
/// UTF-8.
pub uninterp spec fn utf8_lossy(bytes: Seq<u8>) -> Seq<char>;

/// The text that any bytes are read as: the text they encode where they are
/// valid UTF-8, and a repaired text otherwise.
pub open spec fn lossy_text(bytes: Seq<u8>) -> Seq<char> {
    if valid_utf8(bytes) {
        decode_utf8(bytes)
    } else {
        utf8_lossy(bytes)
    }
}

/// `String::from_utf8_lossy`: valid UTF-8 comes back as the text it encodes.
/// Of other bytes the contract says only that the same bytes give the same
/// text, which puts U+FFFD in place of what could not be read.
#[verifier::external_body]
fn read_lossy(bytes: &[u8]) -> (text: String)
    ensures
        text@ == (if valid_utf8(bytes@) {
            decode_utf8(bytes@)
        } else {
            utf8_lossy(bytes@)
        }),
{
    String::from_utf8_lossy(bytes).into_owned()
}

impl TcpMessage for String {
    open spec fn encoded(value: Seq<char>) -> Seq<u8> {
        encode_utf8(value)
    }

    open spec fn decoded(bytes: Seq<u8>) -> Option<Seq<char>> {
        Some(lossy_text(bytes))
    }

    fn from_bytes(bytes: &[u8]) -> (r: Option<Self>) {
        Some(read_lossy(bytes))
    }

    fn to_bytes(&self) -> (r: Option<Vec<u8>>) {
        let bytes = slice_to_vec(self.as_str().as_bytes());
        proof {
            encode_utf8_valid_utf8(self@);
            encode_utf8_decode_utf8(self@);
        }
        Some(bytes)
    }
}

} // verus!
