//! The message router: what each inbound message does to the registries and
//! which sessions hear of it.
use vstd::prelude::*;

use crate::codec::{code_name, code_text, decode, decode_error, decode_spec, reason_of, DecodeError, ErrorCode, MessageView, SignalingMessage, WireFrame};
use crate::connections::ConnectionRegistry;
use crate::ids::{random_token, RoomId, SessionId};
use crate::rooms::{after_join, after_leave, after_leave_all, new_room, with_stream, RoomRegistry, RoomView, SignalingServerError};

verus! {

/// One outbound message and the session it is for.
#[derive(Debug, Clone, PartialEq, Eq)]
pub struct Delivery {
    pub to: SessionId,
    pub message: SignalingMessage,
}

impl View for Delivery {
    type V = (SessionId, MessageView);

    open spec fn view(&self) -> (SessionId, MessageView) {
        (self.to, self.message@)
    }
}

/// The deliveries, mathematically.
pub open spec fn sent(v: Seq<Delivery>) -> Seq<(SessionId, MessageView)> {
    v.map_values(|d: Delivery| d@)
}

/// An `Error` reply with `code` to `to`.
pub open spec fn error_to(to: SessionId, code: ErrorCode) -> Seq<(SessionId, MessageView)> {
    seq![(to, MessageView::Error { code, message: code_name(code) })]
}

/// The code reported for a registry error.
pub open spec fn code_for(e: SignalingServerError) -> ErrorCode {
    match e {
        SignalingServerError::RoomNotFound => ErrorCode::RoomNotFound,
        SignalingServerError::Unauthorized => ErrorCode::Unauthorized,
        SignalingServerError::ConnectionError => ErrorCode::ConnectionError,
        SignalingServerError::StreamingError => ErrorCode::StreamingError,
    }
}

/// What a relayed message (offer, answer or candidate) for `to` in `room` yields.
pub open spec fn relay_outcome(
    live: Set<SessionId>,
    rooms: Map<RoomId, RoomView>,
    from: SessionId,
    room: RoomId,
    to: SessionId,
    m: MessageView,
) -> Seq<(SessionId, MessageView)> {
    if !rooms.contains_key(room) {
        error_to(from, ErrorCode::RoomNotFound)
    } else if !(live.contains(to) && rooms[room].members.contains(to)) {
        error_to(from, ErrorCode::ConnectionError)
    } else {
        seq![(to, m)]
    }
}

/// What a stream-control message yields: the rooms after it and the replies.
pub open spec fn stream_outcome(
    rooms: Map<RoomId, RoomView>,
    from: SessionId,
    room: RoomId,
    key: Option<Seq<char>>,
    rooms2: Map<RoomId, RoomView>,
    out: Seq<(SessionId, MessageView)>,
) -> bool {
    if !rooms.contains_key(room) {
        rooms2 == rooms && out == error_to(from, ErrorCode::RoomNotFound)
    } else if rooms[room].creator != from {
        rooms2 == rooms && out == error_to(from, ErrorCode::Unauthorized)
    } else {
        rooms2 == rooms.insert(room, with_stream(rooms[room], key)) && out == Seq::<(SessionId, MessageView)>::empty()
    }
}

/// What a room creation yields: a room under an identifier never issued
/// before, acknowledged to its creator by a `JoinRoom` naming it.
pub open spec fn creation_outcome(
    pre: RoomRegistry,
    from: SessionId,
    name: Seq<char>,
    post: RoomRegistry,
    out: Seq<(SessionId, MessageView)>,
) -> bool {
    if pre.can_issue() {
        &&& out.len() == 1
        &&& out[0].0 == from
        &&& match out[0].1 {
            MessageView::JoinRoom { room_id } => {
                &&& !pre.issued(room_id)
                &&& post.issued(room_id)
                &&& !pre@.contains_key(room_id)
                &&& post@ == pre@.insert(room_id, new_room(room_id, name, from))
            },
            _ => false,
        }
    } else {
        post@ == pre@ && out == error_to(from, ErrorCode::ConnectionError)
    }
}

/// What `from` sending `m` does: the rooms after it and the deliveries.
pub open spec fn routed(
    live: Set<SessionId>,
    pre: RoomRegistry,
    from: SessionId,
    m: MessageView,
    post: RoomRegistry,
    out: Seq<(SessionId, MessageView)>,
) -> bool {
    match m {
        MessageView::Connect { .. } => post@ == pre@ && out == seq![(from, MessageView::Connected { user_id: from })],
        MessageView::CreateRoom { room_name } => creation_outcome(pre, from, room_name, post, out),
        MessageView::JoinRoom { room_id } => post@ == after_join(pre@, room_id, from) && out == if pre@.contains_key(room_id) {
            Seq::<(SessionId, MessageView)>::empty()
        } else {
            error_to(from, ErrorCode::RoomNotFound)
        },
        MessageView::LeaveRoom { room_id } => post@ == after_leave(pre@, room_id, from) && out == Seq::<(SessionId, MessageView)>::empty(),
        MessageView::StartStream { room_id, stream_key } => stream_outcome(pre@, from, room_id, Some(stream_key), post@, out),
        MessageView::StopStream { room_id } => stream_outcome(pre@, from, room_id, None, post@, out),
        MessageView::Offer { room_id, receiver_id, .. } => post@ == pre@ && out == relay_outcome(live, pre@, from, room_id, receiver_id, m),
        MessageView::Answer { room_id, receiver_id, .. } => post@ == pre@ && out == relay_outcome(live, pre@, from, room_id, receiver_id, m),
        MessageView::IceCandidate { room_id, receiver_id, .. } => post@ == pre@ && out == relay_outcome(live, pre@, from, room_id, receiver_id, m),
        _ => post@ == pre@ && out == error_to(from, ErrorCode::ConnectionError),
    }
}

/// The reply to a frame that carries no message.
pub open spec fn rejection(to: SessionId, e: DecodeError) -> Seq<(SessionId, MessageView)> {
    seq![(to, MessageView::Error { code: ErrorCode::ConnectionError, message: reason_of(e) })]
}

/// The reply to a frame that carries no message.
pub fn reject(to: SessionId, e: DecodeError) -> (r: Vec<Delivery>)
    ensures
        sent(r@) == rejection(to, e),
{
    let r = vec![Delivery { to, message: SignalingMessage::Error { code: ErrorCode::ConnectionError, message: e.reason() } }];
    assert(sent(r@) =~= rejection(to, e));
    r
}

/// An `Error` message with `code`.
pub fn error_message(code: ErrorCode) -> (r: SignalingMessage)
    ensures
        r@ == (MessageView::Error { code, message: code_name(code) }),
{
    SignalingMessage::Error { code, message: code_text(code) }
}

/// A reply with `code` to `to`.
pub fn error_reply(to: SessionId, code: ErrorCode) -> (r: Vec<Delivery>)
    ensures
        sent(r@) == error_to(to, code),
{
    let r = vec![Delivery { to, message: error_message(code) }];
    assert(sent(r@) =~= error_to(to, code));
    r
}

/// No delivery at all.
pub fn no_deliveries() -> (r: Vec<Delivery>)
    ensures
        sent(r@) == Seq::<(SessionId, MessageView)>::empty(),
{
    let r: Vec<Delivery> = Vec::new();
    assert(sent(r@) =~= Seq::<(SessionId, MessageView)>::empty());
    r
}

/// The code reported for a registry error.
pub fn code_of(e: SignalingServerError) -> (r: ErrorCode)
    ensures
        r == code_for(e),
{
    match e {
        SignalingServerError::RoomNotFound => ErrorCode::RoomNotFound,
        SignalingServerError::Unauthorized => ErrorCode::Unauthorized,
        SignalingServerError::ConnectionError => ErrorCode::ConnectionError,
        SignalingServerError::StreamingError => ErrorCode::StreamingError,
    }
}

/// A change of a room's stream, reported to the media-routing service.
#[derive(Debug, Clone, PartialEq, Eq)]
pub struct StreamChange {
    pub room_id: RoomId,
    pub stream_key: String,
    pub active: bool,
}

impl View for StreamChange {
    type V = (RoomId, Seq<char>, bool);

    open spec fn view(&self) -> (RoomId, Seq<char>, bool) {
        (self.room_id, self.stream_key@, self.active)
    }
}

/// The stream change that `from` sending `m` makes in `rooms`: a start by the
/// creator makes the key given live; a stop by the creator ends the live key.
pub open spec fn change_of(rooms: Map<RoomId, RoomView>, from: SessionId, m: MessageView) -> Option<(RoomId, Seq<char>, bool)> {
    match m {
        MessageView::StartStream { room_id, stream_key } => if rooms.contains_key(room_id) && rooms[room_id].creator == from {
            Some((room_id, stream_key, true))
        } else {
            None
        },
        MessageView::StopStream { room_id } => if rooms.contains_key(room_id) && rooms[room_id].creator == from
            && rooms[room_id].stream_key is Some {
            Some((room_id, rooms[room_id].stream_key.unwrap(), false))
        } else {
            None
        },
        _ => None,
    }
}

pub open spec fn change_view(c: Option<StreamChange>) -> Option<(RoomId, Seq<char>, bool)> {
    match c {
        Some(x) => Some(x@),
        None => None,
    }
}

/// What routing one frame yields: the deliveries, and the stream change to
/// report to the media-routing service.
#[derive(Debug, Clone, PartialEq, Eq)]
pub struct Routed {
    pub deliveries: Vec<Delivery>,
    pub stream_change: Option<StreamChange>,
}

/// The shared state of the signaling plane: live sessions and rooms.
pub struct SignalingServerState {
    pub connections: ConnectionRegistry,
    pub rooms: RoomRegistry,
}

impl SignalingServerState {
    pub open spec fn wf(&self) -> bool {
        self.connections.wf() && self.rooms.wf()
    }

    pub fn new() -> (r: SignalingServerState)
        ensures
            r.wf(),
            r.connections@ == Set::<SessionId>::empty(),
            r.rooms@ == Map::<RoomId, RoomView>::empty(),
    {
        SignalingServerState { connections: ConnectionRegistry::new(), rooms: RoomRegistry::new() }
    }

    /// Admits a new session under a fresh identifier; `None` once identifiers
    /// are exhausted.
    pub fn accept(&mut self) -> (r: Option<SessionId>)
        requires
            old(self).wf(),
        ensures
            final(self).wf(),
            final(self).rooms == old(self).rooms,
            old(self).connections.keeps_issued(&final(self).connections),
            match r {
                Some(id) => old(self).connections.can_issue() && !old(self).connections.issued(id)
                    && !old(self).connections@.contains(id)
                    && final(self).connections@ == old(self).connections@.insert(id),
                None => !old(self).connections.can_issue() && final(self).connections@ == old(self).connections@,
            },
    {
        if !self.connections.has_capacity() {
            return None;
        }
        let token = random_token();
        Some(self.connections.register(token))
    }

    /// Ends session `s`: it leaves every room, rooms left empty go, and it is
    /// no longer live.
    pub fn disconnect(&mut self, s: SessionId)
        requires
            old(self).wf(),
        ensures
            final(self).wf(),
            final(self).connections@ == old(self).connections@.remove(s),
            final(self).rooms@ == after_leave_all(old(self).rooms@, s),
            old(self).rooms.keeps_issued(&final(self).rooms),
            old(self).connections.keeps_issued(&final(self).connections),
    {
        self.rooms.leave_all(s);
        self.connections.unregister(s);
    }

    fn relay(&self, from: SessionId, room: RoomId, to: SessionId, msg: SignalingMessage) -> (r: Vec<Delivery>)
        requires
            self.wf(),
        ensures
            sent(r@) == relay_outcome(self.connections@, self.rooms@, from, room, to, msg@),
    {
        match self.rooms.members_of(room) {
            Err(_) => error_reply(from, ErrorCode::RoomNotFound),
            Ok(_) => {
                if !(self.connections.is_live(to) && self.rooms.is_member(room, to)) {
                    error_reply(from, ErrorCode::ConnectionError)
                } else {
                    let ghost mv = msg@;
                    let r = vec![Delivery { to, message: msg }];
                    assert(sent(r@) =~= seq![(to, mv)]);
                    r
                }
            },
        }
    }

    /// Routes `msg` sent by session `from`.
    pub fn handle(&mut self, from: SessionId, msg: SignalingMessage) -> (r: Vec<Delivery>)
        requires
            old(self).wf(),
        ensures
            final(self).wf(),
            final(self).connections == old(self).connections,
            old(self).rooms.keeps_issued(&final(self).rooms),
            routed(old(self).connections@, old(self).rooms, from, msg@, final(self).rooms, sent(r@)),
    {
        let ghost mv = msg@;
        match msg {
            SignalingMessage::Connect { .. } => {
                let r = vec![Delivery { to: from, message: SignalingMessage::Connected { user_id: from } }];
                assert(sent(r@) =~= seq![(from, MessageView::Connected { user_id: from })]);
                r
            },
            SignalingMessage::CreateRoom { room_name } => {
                if !self.rooms.has_capacity() {
                    return error_reply(from, ErrorCode::ConnectionError);
                }
                let token = random_token();
                let id = self.rooms.create_room(room_name, from, token);
                let r = vec![Delivery { to: from, message: SignalingMessage::JoinRoom { room_id: id } }];
                assert(sent(r@)[0] == (from, MessageView::JoinRoom { room_id: id }));
                r
            },
            SignalingMessage::JoinRoom { room_id } => {
                match self.rooms.join(room_id, from) {
                    Ok(()) => no_deliveries(),
                    Err(e) => error_reply(from, code_of(e)),
                }
            },
            SignalingMessage::LeaveRoom { room_id } => {
                self.rooms.leave(room_id, from);
                no_deliveries()
            },
            SignalingMessage::StartStream { room_id, stream_key } => {
                match self.rooms.start_stream(room_id, from, stream_key) {
                    Ok(()) => no_deliveries(),
                    Err(e) => error_reply(from, code_of(e)),
                }
            },
            SignalingMessage::StopStream { room_id } => {
                match self.rooms.stop_stream(room_id, from) {
                    Ok(()) => no_deliveries(),
                    Err(e) => error_reply(from, code_of(e)),
                }
            },
            SignalingMessage::Offer { room_id, sender_id, receiver_id, sdp } => {
                let m = SignalingMessage::Offer { room_id, sender_id, receiver_id, sdp };
                self.relay(from, room_id, receiver_id, m)
            },
            SignalingMessage::Answer { room_id, sender_id, receiver_id, sdp } => {
                let m = SignalingMessage::Answer { room_id, sender_id, receiver_id, sdp };
                self.relay(from, room_id, receiver_id, m)
            },
            SignalingMessage::IceCandidate { room_id, sender_id, receiver_id, candidate } => {
                let m = SignalingMessage::IceCandidate { room_id, sender_id, receiver_id, candidate };
                self.relay(from, room_id, receiver_id, m)
            },
            _ => error_reply(from, ErrorCode::ConnectionError),
        }
    }

    /// Routes a frame sent by `from`. A frame that carries no message, or
    /// text that was no frame at all (`Err`), is answered with a
    /// `ConnectionError` to `from` and changes nothing; the session stays open.
    /// Also reports the stream change that the message made, if any.
    pub fn handle_frame(&mut self, from: SessionId, frame: Result<WireFrame, DecodeError>) -> (r: Routed)
        requires
            old(self).wf(),
        ensures
            final(self).wf(),
            final(self).connections == old(self).connections,
            old(self).rooms.keeps_issued(&final(self).rooms),
            match frame {
                Err(e) => final(self).rooms@ == old(self).rooms@ && sent(r.deliveries@) == rejection(from, e)
                    && r.stream_change is None,
                Ok(f) => match decode_spec(f@) {
                    Some(m) => routed(old(self).connections@, old(self).rooms, from, m, final(self).rooms, sent(r.deliveries@))
                        && change_view(r.stream_change) == change_of(old(self).rooms@, from, m),
                    None => final(self).rooms@ == old(self).rooms@ && sent(r.deliveries@) == rejection(from, decode_error(f@))
                        && r.stream_change is None,
                },
            },
    {
        match frame {
            Err(e) => Routed { deliveries: reject(from, e), stream_change: None },
            Ok(f) => match decode(f) {
                Ok(m) => {
                    let stream_change = self.stream_change(from, &m);
                    let deliveries = self.handle(from, m);
                    Routed { deliveries, stream_change }
                },
                Err(e) => Routed { deliveries: reject(from, e), stream_change: None },
            },
        }
    }

    /// The stream change that `msg` from `from` is about to make, judged
    /// before it is handled; the media-routing service is told of it.
    pub fn stream_change(&self, from: SessionId, msg: &SignalingMessage) -> (r: Option<StreamChange>)
        requires
            self.wf(),
        ensures
            change_view(r) == change_of(self.rooms@, from, msg@),
    {
        match msg {
            SignalingMessage::StartStream { room_id, stream_key } => match self.rooms.creator_of(*room_id) {
                Ok(c) => if c == from {
                    Some(StreamChange { room_id: *room_id, stream_key: stream_key.clone(), active: true })
                } else {
                    None
                },
                Err(_) => None,
            },
            SignalingMessage::StopStream { room_id } => match self.rooms.creator_of(*room_id) {
                Ok(c) => if c == from {
                    match self.rooms.stream_key_of(*room_id) {
                        Ok(Some(k)) => Some(StreamChange { room_id: *room_id, stream_key: k, active: false }),
                        _ => None,
                    }
                } else {
                    None
                },
                Err(_) => None,
            },
            _ => None,
        }
    }
}

} // verus!
