//! The wire protocol: a closed set of signaling messages and their frames.
//!
//! A frame is one JSON object as a record: the discriminant `type` and every
//! field the protocol knows, each present or absent. Turning text into a frame
//! is the transport's business; deciding what a frame means is done here.
use vstd::prelude::*;

use crate::ids::{RoomId, SessionId};
use crate::rooms::opt_text;

verus! {

/// The codes carried by `Error` messages.
#[derive(Debug, Clone, Copy, PartialEq, Eq, Structural)]
pub enum ErrorCode {
    Unauthorized,
    RoomNotFound,
    StreamingError,
    ConnectionError,
}

/// Why a frame does not decode.
#[derive(Debug, Clone, Copy, PartialEq, Eq, Structural)]
pub enum DecodeError {
    /// The discriminant names no message of the protocol.
    UnknownKind,
    /// A field that the message needs is absent.
    MissingField,
    /// The `code` of an `Error` names no error code.
    UnknownCode,
    /// The text of the frame is not one object of the protocol's shape.
    Malformed,
}

/// The reason given for each decoding error.
pub open spec fn reason_of(e: DecodeError) -> Seq<char> {
    match e {
        DecodeError::UnknownKind => "unknown message type"@,
        DecodeError::MissingField => "a required field is missing"@,
        DecodeError::UnknownCode => "unknown error code"@,
        DecodeError::Malformed => "malformed frame"@,
    }
}

impl DecodeError {
    /// A human-readable reason.
    pub fn reason(&self) -> (r: String)
        ensures
            r@ == reason_of(*self),
    {
        match self {
            DecodeError::UnknownKind => "unknown message type".to_owned(),
            DecodeError::MissingField => "a required field is missing".to_owned(),
            DecodeError::UnknownCode => "unknown error code".to_owned(),
            DecodeError::Malformed => "malformed frame".to_owned(),
        }
    }
}

/// One message of the protocol.
#[derive(Debug, Clone, PartialEq, Eq)]
pub enum SignalingMessage {
    Connect { user_id: Option<SessionId>, username: String },
    Connected { user_id: SessionId },
    Disconnected { user_id: SessionId },
    CreateRoom { room_name: String },
    JoinRoom { room_id: RoomId },
    LeaveRoom { room_id: RoomId },
    StartStream { room_id: RoomId, stream_key: String },
    StopStream { room_id: RoomId },
    Offer { room_id: RoomId, sender_id: SessionId, receiver_id: SessionId, sdp: String },
    Answer { room_id: RoomId, sender_id: SessionId, receiver_id: SessionId, sdp: String },
    IceCandidate { room_id: RoomId, sender_id: SessionId, receiver_id: SessionId, candidate: String },
    Error { code: ErrorCode, message: String },
}

/// A message, mathematically.
pub enum MessageView {
    Connect { user_id: Option<SessionId>, username: Seq<char> },
    Connected { user_id: SessionId },
    Disconnected { user_id: SessionId },
    CreateRoom { room_name: Seq<char> },
    JoinRoom { room_id: RoomId },
    LeaveRoom { room_id: RoomId },
    StartStream { room_id: RoomId, stream_key: Seq<char> },
    StopStream { room_id: RoomId },
    Offer { room_id: RoomId, sender_id: SessionId, receiver_id: SessionId, sdp: Seq<char> },
    Answer { room_id: RoomId, sender_id: SessionId, receiver_id: SessionId, sdp: Seq<char> },
    IceCandidate { room_id: RoomId, sender_id: SessionId, receiver_id: SessionId, candidate: Seq<char> },
    Error { code: ErrorCode, message: Seq<char> },
}

impl View for SignalingMessage {
    type V = MessageView;

    open spec fn view(&self) -> MessageView {
        match self {
            SignalingMessage::Connect { user_id, username } => MessageView::Connect { user_id: *user_id, username: username@ },
            SignalingMessage::Connected { user_id } => MessageView::Connected { user_id: *user_id },
            SignalingMessage::Disconnected { user_id } => MessageView::Disconnected { user_id: *user_id },
            SignalingMessage::CreateRoom { room_name } => MessageView::CreateRoom { room_name: room_name@ },
            SignalingMessage::JoinRoom { room_id } => MessageView::JoinRoom { room_id: *room_id },
            SignalingMessage::LeaveRoom { room_id } => MessageView::LeaveRoom { room_id: *room_id },
            SignalingMessage::StartStream { room_id, stream_key } => MessageView::StartStream { room_id: *room_id, stream_key: stream_key@ },
            SignalingMessage::StopStream { room_id } => MessageView::StopStream { room_id: *room_id },
            SignalingMessage::Offer { room_id, sender_id, receiver_id, sdp } => MessageView::Offer {
                room_id: *room_id, sender_id: *sender_id, receiver_id: *receiver_id, sdp: sdp@ },
            SignalingMessage::Answer { room_id, sender_id, receiver_id, sdp } => MessageView::Answer {
                room_id: *room_id, sender_id: *sender_id, receiver_id: *receiver_id, sdp: sdp@ },
            SignalingMessage::IceCandidate { room_id, sender_id, receiver_id, candidate } => MessageView::IceCandidate {
                room_id: *room_id, sender_id: *sender_id, receiver_id: *receiver_id, candidate: candidate@ },
            SignalingMessage::Error { code, message } => MessageView::Error { code: *code, message: message@ },
        }
    }
}

/// A frame: the discriminant and each field of the protocol, present or absent.
#[derive(Debug, Clone, PartialEq, Eq)]
pub struct WireFrame {
    pub kind: String,
    pub username: Option<String>,
    pub user_id: Option<SessionId>,
    pub room_name: Option<String>,
    pub room_id: Option<RoomId>,
    pub stream_key: Option<String>,
    pub sender_id: Option<SessionId>,
    pub receiver_id: Option<SessionId>,
    pub sdp: Option<String>,
    pub candidate: Option<String>,
    pub code: Option<String>,
    pub message: Option<String>,
}

/// A frame, mathematically.
pub struct FrameView {
    pub kind: Seq<char>,
    pub username: Option<Seq<char>>,
    pub user_id: Option<SessionId>,
    pub room_name: Option<Seq<char>>,
    pub room_id: Option<RoomId>,
    pub stream_key: Option<Seq<char>>,
    pub sender_id: Option<SessionId>,
    pub receiver_id: Option<SessionId>,
    pub sdp: Option<Seq<char>>,
    pub candidate: Option<Seq<char>>,
    pub code: Option<Seq<char>>,
    pub message: Option<Seq<char>>,
}

impl View for WireFrame {
    type V = FrameView;

    open spec fn view(&self) -> FrameView {
        FrameView {
            kind: self.kind@,
            username: opt_text(self.username),
            user_id: self.user_id,
            room_name: opt_text(self.room_name),
            room_id: self.room_id,
            stream_key: opt_text(self.stream_key),
            sender_id: self.sender_id,
            receiver_id: self.receiver_id,
            sdp: opt_text(self.sdp),
            candidate: opt_text(self.candidate),
            code: opt_text(self.code),
            message: opt_text(self.message),
        }
    }
}

/// A frame of the given kind with no fields.
pub open spec fn bare(kind: Seq<char>) -> FrameView {
    FrameView {
        kind,
        username: None,
        user_id: None,
        room_name: None,
        room_id: None,
        stream_key: None,
        sender_id: None,
        receiver_id: None,
        sdp: None,
        candidate: None,
        code: None,
        message: None,
    }
}

/// The name of an error code on the wire.
pub open spec fn code_name(c: ErrorCode) -> Seq<char> {
    match c {
        ErrorCode::Unauthorized => "Unauthorized"@,
        ErrorCode::RoomNotFound => "RoomNotFound"@,
        ErrorCode::StreamingError => "StreamingError"@,
        ErrorCode::ConnectionError => "ConnectionError"@,
    }
}

/// The error code a name stands for.
pub open spec fn code_named(s: Seq<char>) -> Option<ErrorCode> {
    if s == "Unauthorized"@ {
        Some(ErrorCode::Unauthorized)
    } else if s == "RoomNotFound"@ {
        Some(ErrorCode::RoomNotFound)
    } else if s == "StreamingError"@ {
        Some(ErrorCode::StreamingError)
    } else if s == "ConnectionError"@ {
        Some(ErrorCode::ConnectionError)
    } else {
        None
    }
}

/// The discriminants of the protocol.
pub open spec fn known_kind(k: Seq<char>) -> bool {
    k == "Connect"@ || k == "Connected"@ || k == "Disconnected"@ || k == "CreateRoom"@
        || k == "JoinRoom"@ || k == "LeaveRoom"@ || k == "StartStream"@ || k == "StopStream"@
        || k == "Offer"@ || k == "Answer"@ || k == "IceCandidate"@ || k == "Error"@
}


/// The frame of a message.
pub open spec fn frame_of(m: MessageView) -> FrameView {
    match m {
        MessageView::Connect { user_id, username } => FrameView {
            user_id,
            username: Some(username),
            ..bare("Connect"@)
        },
        MessageView::Connected { user_id } => FrameView { user_id: Some(user_id), ..bare("Connected"@) },
        MessageView::Disconnected { user_id } => FrameView { user_id: Some(user_id), ..bare("Disconnected"@) },
        MessageView::CreateRoom { room_name } => FrameView { room_name: Some(room_name), ..bare("CreateRoom"@) },
        MessageView::JoinRoom { room_id } => FrameView { room_id: Some(room_id), ..bare("JoinRoom"@) },
        MessageView::LeaveRoom { room_id } => FrameView { room_id: Some(room_id), ..bare("LeaveRoom"@) },
        MessageView::StartStream { room_id, stream_key } => FrameView {
            room_id: Some(room_id),
            stream_key: Some(stream_key),
            ..bare("StartStream"@)
        },
        MessageView::StopStream { room_id } => FrameView { room_id: Some(room_id), ..bare("StopStream"@) },
        MessageView::Offer { room_id, sender_id, receiver_id, sdp } => FrameView {
            room_id: Some(room_id),
            sender_id: Some(sender_id),
            receiver_id: Some(receiver_id),
            sdp: Some(sdp),
            ..bare("Offer"@)
        },
        MessageView::Answer { room_id, sender_id, receiver_id, sdp } => FrameView {
            room_id: Some(room_id),
            sender_id: Some(sender_id),
            receiver_id: Some(receiver_id),
            sdp: Some(sdp),
            ..bare("Answer"@)
        },
        MessageView::IceCandidate { room_id, sender_id, receiver_id, candidate } => FrameView {
            room_id: Some(room_id),
            sender_id: Some(sender_id),
            receiver_id: Some(receiver_id),
            candidate: Some(candidate),
            ..bare("IceCandidate"@)
        },
        MessageView::Error { code, message } => FrameView {
            code: Some(code_name(code)),
            message: Some(message),
            ..bare("Error"@)
        },
    }
}

/// The relay messages carry these four fields.
pub open spec fn relay_fields(f: FrameView) -> Option<(RoomId, SessionId, SessionId)> {
    match (f.room_id, f.sender_id, f.receiver_id) {
        (Some(r), Some(s), Some(t)) => Some((r, s, t)),
        _ => None,
    }
}

/// The message a frame carries: fields that its kind does not use are ignored.
pub open spec fn decode_spec(f: FrameView) -> Option<MessageView> {
    if f.kind == "Connect"@ {
        match f.username {
            Some(u) => Some(MessageView::Connect { user_id: f.user_id, username: u }),
            None => None,
        }
    } else if f.kind == "Connected"@ {
        match f.user_id {
            Some(u) => Some(MessageView::Connected { user_id: u }),
            None => None,
        }
    } else if f.kind == "Disconnected"@ {
        match f.user_id {
            Some(u) => Some(MessageView::Disconnected { user_id: u }),
            None => None,
        }
    } else if f.kind == "CreateRoom"@ {
        match f.room_name {
            Some(n) => Some(MessageView::CreateRoom { room_name: n }),
            None => None,
        }
    } else if f.kind == "JoinRoom"@ {
        match f.room_id {
            Some(r) => Some(MessageView::JoinRoom { room_id: r }),
            None => None,
        }
    } else if f.kind == "LeaveRoom"@ {
        match f.room_id {
            Some(r) => Some(MessageView::LeaveRoom { room_id: r }),
            None => None,
        }
    } else if f.kind == "StartStream"@ {
        match (f.room_id, f.stream_key) {
            (Some(r), Some(k)) => Some(MessageView::StartStream { room_id: r, stream_key: k }),
            _ => None,
        }
    } else if f.kind == "StopStream"@ {
        match f.room_id {
            Some(r) => Some(MessageView::StopStream { room_id: r }),
            None => None,
        }
    } else if f.kind == "Offer"@ {
        match (relay_fields(f), f.sdp) {
            (Some((r, s, t)), Some(d)) => Some(MessageView::Offer { room_id: r, sender_id: s, receiver_id: t, sdp: d }),
            _ => None,
        }
    } else if f.kind == "Answer"@ {
        match (relay_fields(f), f.sdp) {
            (Some((r, s, t)), Some(d)) => Some(MessageView::Answer { room_id: r, sender_id: s, receiver_id: t, sdp: d }),
            _ => None,
        }
    } else if f.kind == "IceCandidate"@ {
        match (relay_fields(f), f.candidate) {
            (Some((r, s, t)), Some(c)) => Some(
                MessageView::IceCandidate { room_id: r, sender_id: s, receiver_id: t, candidate: c },
            ),
            _ => None,
        }
    } else if f.kind == "Error"@ {
        match (f.code, f.message) {
            (Some(c), Some(m)) => match code_named(c) {
                Some(code) => Some(MessageView::Error { code, message: m }),
                None => None,
            },
            _ => None,
        }
    } else {
        None
    }
}

/// The lengths of the names of the protocol; names of equal length differ in
/// their first letter.
proof fn lemma_names_differ()
    ensures
        "Connect"@.len() == 7,
        "Connected"@.len() == 9,
        "Disconnected"@.len() == 12,
        "CreateRoom"@.len() == 10,
        "JoinRoom"@.len() == 8,
        "LeaveRoom"@.len() == 9,
        "StartStream"@.len() == 11,
        "StopStream"@.len() == 10,
        "Offer"@.len() == 5,
        "Answer"@.len() == 6,
        "IceCandidate"@.len() == 12,
        "Error"@.len() == 5,
        "Unauthorized"@.len() == 12,
        "RoomNotFound"@.len() == 12,
        "StreamingError"@.len() == 14,
        "ConnectionError"@.len() == 15,
        "LeaveRoom"@ != "Connected"@,
        "StopStream"@ != "CreateRoom"@,
        "IceCandidate"@ != "Disconnected"@,
        "Error"@ != "Offer"@,
        "RoomNotFound"@ != "Unauthorized"@,
{
    reveal_strlit("Connect");
    reveal_strlit("Connected");
    reveal_strlit("Disconnected");
    reveal_strlit("CreateRoom");
    reveal_strlit("JoinRoom");
    reveal_strlit("LeaveRoom");
    reveal_strlit("StartStream");
    reveal_strlit("StopStream");
    reveal_strlit("Offer");
    reveal_strlit("Answer");
    reveal_strlit("IceCandidate");
    reveal_strlit("Error");
    reveal_strlit("Unauthorized");
    reveal_strlit("RoomNotFound");
    reveal_strlit("StreamingError");
    reveal_strlit("ConnectionError");
    assert("LeaveRoom"@[0] != "Connected"@[0]);
    assert("StopStream"@[0] != "CreateRoom"@[0]);
    assert("IceCandidate"@[0] != "Disconnected"@[0]);
    assert("Error"@[0] != "Offer"@[0]);
    assert("RoomNotFound"@[0] != "Unauthorized"@[0]);
}

/// Decoding the frame of any message gives that message back.
pub proof fn lemma_round_trip(m: MessageView)
    ensures
        decode_spec(frame_of(m)) == Some(m),
{
    lemma_names_differ();
}


/// Why a frame that carries no message fails to decode.
pub open spec fn decode_error(f: FrameView) -> DecodeError {
    if !known_kind(f.kind) {
        DecodeError::UnknownKind
    } else if f.kind == "Error"@ && f.code is Some && f.message is Some && code_named(f.code.unwrap()) is None {
        DecodeError::UnknownCode
    } else {
        DecodeError::MissingField
    }
}

/// Whether `s` reads `name`.
pub fn text_is(s: &String, name: &str) -> (r: bool)
    ensures
        r == (s@ == name@),
{
    *s == name.to_owned()
}

/// The error code named by `s`, if any.
pub fn parse_code(s: &String) -> (r: Option<ErrorCode>)
    ensures
        r == code_named(s@),
{
    if text_is(s, "Unauthorized") {
        Some(ErrorCode::Unauthorized)
    } else if text_is(s, "RoomNotFound") {
        Some(ErrorCode::RoomNotFound)
    } else if text_is(s, "StreamingError") {
        Some(ErrorCode::StreamingError)
    } else if text_is(s, "ConnectionError") {
        Some(ErrorCode::ConnectionError)
    } else {
        None
    }
}

/// The wire name of `c`.
pub fn code_text(c: ErrorCode) -> (r: String)
    ensures
        r@ == code_name(c),
{
    match c {
        ErrorCode::Unauthorized => "Unauthorized".to_owned(),
        ErrorCode::RoomNotFound => "RoomNotFound".to_owned(),
        ErrorCode::StreamingError => "StreamingError".to_owned(),
        ErrorCode::ConnectionError => "ConnectionError".to_owned(),
    }
}

/// A frame of kind `kind` with no fields.
pub fn bare_frame(kind: &str) -> (r: WireFrame)
    ensures
        r@ == bare(kind@),
{
    WireFrame {
        kind: kind.to_owned(),
        username: None,
        user_id: None,
        room_name: None,
        room_id: None,
        stream_key: None,
        sender_id: None,
        receiver_id: None,
        sdp: None,
        candidate: None,
        code: None,
        message: None,
    }
}

/// The frame that carries `m`.
pub fn encode(m: &SignalingMessage) -> (r: WireFrame)
    ensures
        r@ == frame_of(m@),
{
    match m {
        SignalingMessage::Connect { user_id, username } => {
            let mut f = bare_frame("Connect");
            f.user_id = *user_id;
            f.username = Some(username.clone());
            f
        },
        SignalingMessage::Connected { user_id } => {
            let mut f = bare_frame("Connected");
            f.user_id = Some(*user_id);
            f
        },
        SignalingMessage::Disconnected { user_id } => {
            let mut f = bare_frame("Disconnected");
            f.user_id = Some(*user_id);
            f
        },
        SignalingMessage::CreateRoom { room_name } => {
            let mut f = bare_frame("CreateRoom");
            f.room_name = Some(room_name.clone());
            f
        },
        SignalingMessage::JoinRoom { room_id } => {
            let mut f = bare_frame("JoinRoom");
            f.room_id = Some(*room_id);
            f
        },
        SignalingMessage::LeaveRoom { room_id } => {
            let mut f = bare_frame("LeaveRoom");
            f.room_id = Some(*room_id);
            f
        },
        SignalingMessage::StartStream { room_id, stream_key } => {
            let mut f = bare_frame("StartStream");
            f.room_id = Some(*room_id);
            f.stream_key = Some(stream_key.clone());
            f
        },
        SignalingMessage::StopStream { room_id } => {
            let mut f = bare_frame("StopStream");
            f.room_id = Some(*room_id);
            f
        },
        SignalingMessage::Offer { room_id, sender_id, receiver_id, sdp } => {
            let mut f = bare_frame("Offer");
            f.room_id = Some(*room_id);
            f.sender_id = Some(*sender_id);
            f.receiver_id = Some(*receiver_id);
            f.sdp = Some(sdp.clone());
            f
        },
        SignalingMessage::Answer { room_id, sender_id, receiver_id, sdp } => {
            let mut f = bare_frame("Answer");
            f.room_id = Some(*room_id);
            f.sender_id = Some(*sender_id);
            f.receiver_id = Some(*receiver_id);
            f.sdp = Some(sdp.clone());
            f
        },
        SignalingMessage::IceCandidate { room_id, sender_id, receiver_id, candidate } => {
            let mut f = bare_frame("IceCandidate");
            f.room_id = Some(*room_id);
            f.sender_id = Some(*sender_id);
            f.receiver_id = Some(*receiver_id);
            f.candidate = Some(candidate.clone());
            f
        },
        SignalingMessage::Error { code, message } => {
            let mut f = bare_frame("Error");
            f.code = Some(code_text(*code));
            f.message = Some(message.clone());
            f
        },
    }
}

/// The message that `f` carries, or why it carries none.
#[verifier::rlimit(40)]
pub fn decode(f: WireFrame) -> (r: Result<SignalingMessage, DecodeError>)
    ensures
        match r {
            Ok(m) => decode_spec(f@) == Some(m@),
            Err(e) => decode_spec(f@) == None::<MessageView> && e == decode_error(f@),
        },
{
    proof {
        lemma_names_differ();
    }
    let WireFrame {
        kind,
        username,
        user_id,
        room_name,
        room_id,
        stream_key,
        sender_id,
        receiver_id,
        sdp,
        candidate,
        code,
        message,
    } = f;
    if text_is(&kind, "Connect") {
        match username {
            Some(u) => Ok(SignalingMessage::Connect { user_id, username: u }),
            None => Err(DecodeError::MissingField),
        }
    } else if text_is(&kind, "Connected") {
        match user_id {
            Some(u) => Ok(SignalingMessage::Connected { user_id: u }),
            None => Err(DecodeError::MissingField),
        }
    } else if text_is(&kind, "Disconnected") {
        match user_id {
            Some(u) => Ok(SignalingMessage::Disconnected { user_id: u }),
            None => Err(DecodeError::MissingField),
        }
    } else if text_is(&kind, "CreateRoom") {
        match room_name {
            Some(n) => Ok(SignalingMessage::CreateRoom { room_name: n }),
            None => Err(DecodeError::MissingField),
        }
    } else if text_is(&kind, "JoinRoom") {
        match room_id {
            Some(r) => Ok(SignalingMessage::JoinRoom { room_id: r }),
            None => Err(DecodeError::MissingField),
        }
    } else if text_is(&kind, "LeaveRoom") {
        match room_id {
            Some(r) => Ok(SignalingMessage::LeaveRoom { room_id: r }),
            None => Err(DecodeError::MissingField),
        }
    } else if text_is(&kind, "StartStream") {
        match (room_id, stream_key) {
            (Some(r), Some(k)) => Ok(SignalingMessage::StartStream { room_id: r, stream_key: k }),
            _ => Err(DecodeError::MissingField),
        }
    } else if text_is(&kind, "StopStream") {
        match room_id {
            Some(r) => Ok(SignalingMessage::StopStream { room_id: r }),
            None => Err(DecodeError::MissingField),
        }
    } else if text_is(&kind, "Offer") {
        match (room_id, sender_id, receiver_id, sdp) {
            (Some(r), Some(s), Some(t), Some(d)) => Ok(
                SignalingMessage::Offer { room_id: r, sender_id: s, receiver_id: t, sdp: d },
            ),
            _ => Err(DecodeError::MissingField),
        }
    } else if text_is(&kind, "Answer") {
        match (room_id, sender_id, receiver_id, sdp) {
            (Some(r), Some(s), Some(t), Some(d)) => Ok(
                SignalingMessage::Answer { room_id: r, sender_id: s, receiver_id: t, sdp: d },
            ),
            _ => Err(DecodeError::MissingField),
        }
    } else if text_is(&kind, "IceCandidate") {
        match (room_id, sender_id, receiver_id, candidate) {
            (Some(r), Some(s), Some(t), Some(c)) => Ok(
                SignalingMessage::IceCandidate { room_id: r, sender_id: s, receiver_id: t, candidate: c },
            ),
            _ => Err(DecodeError::MissingField),
        }
    } else if text_is(&kind, "Error") {
        match (code, message) {
            (Some(c), Some(m)) => match parse_code(&c) {
                Some(code) => Ok(SignalingMessage::Error { code, message: m }),
                None => Err(DecodeError::UnknownCode),
            },
            _ => Err(DecodeError::MissingField),
        }
    } else {
        Err(DecodeError::UnknownKind)
    }
}

} // verus!
