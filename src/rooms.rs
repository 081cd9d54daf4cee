//! The room registry: which rooms exist, who is in each, who created each and
//! which stream each is broadcasting.
use vstd::prelude::*;

use crate::ids::{mint_id, serial_of, RoomId, SessionId};

verus! {

/// Errors of the registries and of the router.
#[derive(Debug, Clone, Copy, PartialEq, Eq, Structural)]
pub enum SignalingServerError {
    RoomNotFound,
    Unauthorized,
    ConnectionError,
    StreamingError,
}

/// What a room is, mathematically.
pub struct RoomView {
    pub id: RoomId,
    pub name: Seq<char>,
    pub creator: SessionId,
    pub members: Seq<SessionId>,
    pub stream_key: Option<Seq<char>>,
}

/// A room: its members in order of arrival and, while a stream is live, its key.
pub struct Room {
    pub id: RoomId,
    pub name: String,
    pub creator_id: SessionId,
    pub participants: Vec<SessionId>,
    pub stream_key: Option<String>,
}

pub open spec fn opt_text(k: Option<String>) -> Option<Seq<char>> {
    match k {
        Some(s) => Some(s@),
        None => None,
    }
}

impl View for Room {
    type V = RoomView;

    open spec fn view(&self) -> RoomView {
        RoomView {
            id: self.id,
            name: self.name@,
            creator: self.creator_id,
            members: self.participants@,
            stream_key: opt_text(self.stream_key),
        }
    }
}

/// A freshly created room: its creator is its only member and no stream is live.
pub open spec fn new_room(id: RoomId, name: Seq<char>, creator: SessionId) -> RoomView {
    RoomView { id, name, creator, members: seq![creator], stream_key: None }
}

pub open spec fn with_members(r: RoomView, members: Seq<SessionId>) -> RoomView {
    RoomView { id: r.id, name: r.name, creator: r.creator, members, stream_key: r.stream_key }
}

pub open spec fn with_stream(r: RoomView, key: Option<Seq<char>>) -> RoomView {
    RoomView { id: r.id, name: r.name, creator: r.creator, members: r.members, stream_key: key }
}

/// The members that remain once `s` has gone.
pub open spec fn without(members: Seq<SessionId>, s: SessionId) -> Seq<SessionId> {
    members.filter(other_than(s))
}

pub open spec fn other_than(s: SessionId) -> spec_fn(SessionId) -> bool {
    |x: SessionId| x != s
}

/// Removing `s` keeps exactly the other members.
pub proof fn lemma_without_contains(members: Seq<SessionId>, s: SessionId, x: SessionId)
    ensures
        without(members, s).contains(x) == (members.contains(x) && x != s),
{
    let f = other_than(s);
    if without(members, s).contains(x) {
        members.lemma_filter_contains_rev(f, x);
        let i = choose|i: int| 0 <= i < members.filter(f).len() && members.filter(f)[i] == x;
        members.lemma_filter_pred(f, i);
    }
    if members.contains(x) && x != s {
        let i = choose|i: int| 0 <= i < members.len() && members[i] == x;
        members.lemma_filter_contains(f, i);
    }
}

/// The rooms after `s` joins `room`: a member already present is not added twice.
pub open spec fn after_join(m: Map<RoomId, RoomView>, room: RoomId, s: SessionId) -> Map<
    RoomId,
    RoomView,
> {
    if m.contains_key(room) && !m[room].members.contains(s) {
        m.insert(room, with_members(m[room], m[room].members.push(s)))
    } else {
        m
    }
}

/// The rooms after `s` leaves `room`: a room left empty is gone.
pub open spec fn after_leave(m: Map<RoomId, RoomView>, room: RoomId, s: SessionId) -> Map<
    RoomId,
    RoomView,
> {
    if m.contains_key(room) {
        if without(m[room].members, s).len() == 0 {
            m.remove(room)
        } else {
            m.insert(room, with_members(m[room], without(m[room].members, s)))
        }
    } else {
        m
    }
}

/// The rooms after `s` has left every room.
pub open spec fn after_leave_all(m: Map<RoomId, RoomView>, s: SessionId) -> Map<RoomId, RoomView> {
    Map::new(
        |id: RoomId| m.contains_key(id) && without(m[id].members, s).len() > 0,
        |id: RoomId| with_members(m[id], without(m[id].members, s)),
    )
}

/// The rooms, keyed by identifier.
pub open spec fn room_map(rs: Seq<RoomView>) -> Map<RoomId, RoomView> {
    Map::new(
        |id: RoomId| exists|i: int| 0 <= i < rs.len() && rs[i].id == id,
        |id: RoomId| rs[choose|i: int| 0 <= i < rs.len() && rs[i].id == id],
    )
}

pub open spec fn unique_ids(rs: Seq<RoomView>) -> bool {
    forall|i: int, j: int|
        0 <= i < rs.len() && 0 <= j < rs.len() && #[trigger] rs[i].id == #[trigger] rs[j].id
            ==> i == j
}

pub open spec fn room_wf(r: RoomView) -> bool {
    r.members.no_duplicates() && r.members.len() > 0
}

proof fn lemma_map_at(rs: Seq<RoomView>, i: int)
    requires
        unique_ids(rs),
        0 <= i < rs.len(),
    ensures
        room_map(rs).contains_key(rs[i].id),
        room_map(rs)[rs[i].id] == rs[i],
{
    let id = rs[i].id;
    assert(rs[i].id == id);
    let j = choose|j: int| 0 <= j < rs.len() && rs[j].id == id;
    assert(rs[j].id == rs[i].id);
}

proof fn lemma_map_update(rs: Seq<RoomView>, i: int, r: RoomView)
    requires
        unique_ids(rs),
        0 <= i < rs.len(),
        r.id == rs[i].id,
    ensures
        unique_ids(rs.update(i, r)),
        room_map(rs.update(i, r)) == room_map(rs).insert(r.id, r),
{
    let ns = rs.update(i, r);
    assert(unique_ids(ns)) by {
        assert forall|a: int, b: int|
            0 <= a < ns.len() && 0 <= b < ns.len() && #[trigger] ns[a].id == #[trigger] ns[b].id
            implies a == b by {
            assert(ns[a].id == rs[a].id && ns[b].id == rs[b].id);
        }
    }
    lemma_map_at(ns, i);
    assert forall|id: RoomId| #[trigger] room_map(ns).contains_key(id) == room_map(rs).insert(r.id, r).contains_key(id) by {
        if room_map(rs).contains_key(id) {
            let j = choose|j: int| 0 <= j < rs.len() && rs[j].id == id;
            assert(ns[j].id == id);
        }
        if room_map(ns).contains_key(id) {
            let j = choose|j: int| 0 <= j < ns.len() && ns[j].id == id;
            assert(rs[j].id == id);
        }
    }
    assert forall|id: RoomId| room_map(ns).contains_key(id) && id != r.id implies #[trigger] room_map(ns)[id] == room_map(rs)[id] by {
        let j = choose|j: int| 0 <= j < ns.len() && ns[j].id == id;
        assert(rs[j].id == id);
        lemma_map_at(ns, j);
        lemma_map_at(rs, j);
    }
    assert(room_map(ns) =~= room_map(rs).insert(r.id, r));
}

proof fn lemma_map_push(rs: Seq<RoomView>, r: RoomView)
    requires
        unique_ids(rs),
        !room_map(rs).contains_key(r.id),
    ensures
        unique_ids(rs.push(r)),
        room_map(rs.push(r)) == room_map(rs).insert(r.id, r),
{
    let ns = rs.push(r);
    assert(unique_ids(ns)) by {
        assert forall|a: int, b: int|
            0 <= a < ns.len() && 0 <= b < ns.len() && #[trigger] ns[a].id == #[trigger] ns[b].id
            implies a == b by {
            if a < rs.len() {
                assert(rs[a].id == ns[a].id);
            }
            if b < rs.len() {
                assert(rs[b].id == ns[b].id);
            }
        }
    }
    lemma_map_at(ns, rs.len() as int);
    assert forall|id: RoomId| #[trigger] room_map(ns).contains_key(id) == room_map(rs).insert(r.id, r).contains_key(id) by {
        if room_map(rs).contains_key(id) {
            let j = choose|j: int| 0 <= j < rs.len() && rs[j].id == id;
            assert(ns[j].id == id);
        }
        if room_map(ns).contains_key(id) && id != r.id {
            let j = choose|j: int| 0 <= j < ns.len() && ns[j].id == id;
            assert(rs[j].id == id);
        }
    }
    assert forall|id: RoomId| room_map(ns).contains_key(id) && id != r.id implies #[trigger] room_map(ns)[id] == room_map(rs)[id] by {
        let j = choose|j: int| 0 <= j < ns.len() && ns[j].id == id;
        assert(rs[j].id == id);
        lemma_map_at(ns, j);
        lemma_map_at(rs, j);
    }
    assert(room_map(ns) =~= room_map(rs).insert(r.id, r));
}

proof fn lemma_map_remove(rs: Seq<RoomView>, i: int)
    requires
        unique_ids(rs),
        0 <= i < rs.len(),
    ensures
        unique_ids(rs.remove(i)),
        room_map(rs.remove(i)) == room_map(rs).remove(rs[i].id),
{
    let ns = rs.remove(i);
    let gone = rs[i].id;
    assert forall|a: int| 0 <= a < ns.len() implies #[trigger] ns[a] == rs[if a < i { a } else { a + 1 }] by {}
    assert(unique_ids(ns)) by {
        assert forall|a: int, b: int|
            0 <= a < ns.len() && 0 <= b < ns.len() && #[trigger] ns[a].id == #[trigger] ns[b].id
            implies a == b by {
            let a2 = if a < i { a } else { a + 1 };
            let b2 = if b < i { b } else { b + 1 };
            assert(rs[a2].id == rs[b2].id);
        }
    }
    assert forall|id: RoomId| #[trigger] room_map(ns).contains_key(id) == room_map(rs).remove(gone).contains_key(id) by {
        if room_map(rs).contains_key(id) && id != gone {
            let j = choose|j: int| 0 <= j < rs.len() && rs[j].id == id;
            assert(j != i);
            let j2 = if j < i { j } else { j - 1 };
            assert(ns[j2].id == id);
        }
        if room_map(ns).contains_key(id) {
            let j = choose|j: int| 0 <= j < ns.len() && ns[j].id == id;
            let j2 = if j < i { j } else { j + 1 };
            assert(rs[j2].id == id);
            assert(j2 != i);
        }
    }
    assert forall|id: RoomId| room_map(ns).contains_key(id) implies #[trigger] room_map(ns)[id] == room_map(rs)[id] by {
        let j = choose|j: int| 0 <= j < ns.len() && ns[j].id == id;
        let j2 = if j < i { j } else { j + 1 };
        assert(rs[j2].id == id);
        lemma_map_at(ns, j);
        lemma_map_at(rs, j2);
    }
    assert(room_map(ns) =~= room_map(rs).remove(gone));
}


/// `s` is among `v`.
pub fn has_member(v: &Vec<SessionId>, s: SessionId) -> (r: bool)
    ensures
        r == v@.contains(s),
{
    let mut k: usize = 0;
    while k < v.len()
        invariant
            k <= v.len(),
            forall|j: int| 0 <= j < k ==> v@[j] != s,
        decreases v.len() - k,
    {
        if v[k] == s {
            assert(v@[k as int] == s);
            return true;
        }
        k = k + 1;
    }
    false
}

/// The members of `v` other than `s`, in their order.
pub fn members_without(v: &Vec<SessionId>, s: SessionId) -> (r: Vec<SessionId>)
    requires
        v@.no_duplicates(),
    ensures
        r@ == without(v@, s),
        r@.no_duplicates(),
        !r@.contains(s),
{
    let mut r: Vec<SessionId> = Vec::new();
    let mut k: usize = 0;
    while k < v.len()
        invariant
            k <= v.len(),
            v@.no_duplicates(),
            r@ == without(v@.subrange(0, k as int), s),
            r@.no_duplicates(),
            !r@.contains(s),
            forall|a: int| 0 <= a < r@.len() ==> exists|j: int| 0 <= j < k && v@[j] == #[trigger] r@[a],
        decreases v.len() - k,
    {
        let x = v[k];
        proof {
            reveal(Seq::filter);
            assert(v@.subrange(0, k + 1).drop_last() =~= v@.subrange(0, k as int));
            assert(v@.subrange(0, k + 1).last() == x);
        }
        if x != s {
            proof {
                assert forall|a: int| 0 <= a < r@.len() implies r@[a] != x by {
                    let j = choose|j: int| 0 <= j < k && v@[j] == r@[a];
                    assert(v@[j] == v@[k as int] ==> j == k);
                }
            }
            r.push(x);
            proof {
                assert forall|a: int| 0 <= a < r@.len() implies exists|j: int| 0 <= j < k + 1 && v@[j] == #[trigger] r@[a] by {
                    if a == r@.len() - 1 {
                        assert(v@[k as int] == r@[a]);
                    } else {
                        let j = choose|j: int| 0 <= j < k && v@[j] == r@[a];
                        assert(v@[j] == r@[a]);
                    }
                }
            }
        }
        k = k + 1;
    }
    assert(v@.subrange(0, v@.len() as int) =~= v@);
    r
}

/// The registry of rooms.
pub struct RoomRegistry {
    rooms: Vec<Room>,
    next_serial: u64,
}

impl View for RoomRegistry {
    type V = Map<RoomId, RoomView>;

    closed spec fn view(&self) -> Map<RoomId, RoomView> {
        room_map(self.views())
    }
}

impl RoomRegistry {
    pub closed spec fn views(&self) -> Seq<RoomView> {
        self.rooms@.map_values(|r: Room| r@)
    }

    /// `id` has been handed out by this registry (its room may be gone since).
    pub closed spec fn issued(&self, id: RoomId) -> bool {
        serial_of(id) < self.next_serial as u128
    }

    /// Another room can still be given an identifier of its own.
    pub closed spec fn can_issue(&self) -> bool {
        self.next_serial < u64::MAX
    }

    pub closed spec fn wf(&self) -> bool {
        &&& unique_ids(self.views())
        &&& forall|i: int| 0 <= i < self.views().len() ==> room_wf(#[trigger] self.views()[i])
        &&& forall|i: int| 0 <= i < self.views().len() ==> serial_of(#[trigger] self.views()[i].id) < self.next_serial as u128
    }

    /// Every identifier issued by `self` stays issued in `later`.
    pub open spec fn keeps_issued(&self, later: &RoomRegistry) -> bool {
        forall|id: RoomId| #[trigger] self.issued(id) ==> later.issued(id)
    }

    /// Every room of a well-formed registry has members, and no member twice.
    pub proof fn lemma_rooms_wf(&self, id: RoomId)
        requires
            self.wf(),
            self@.contains_key(id),
        ensures
            room_wf(self@[id]),
            self@[id].id == id,
            self.issued(id),
    {
        let i = choose|i: int| 0 <= i < self.views().len() && self.views()[i].id == id;
        lemma_map_at(self.views(), i);
    }

    pub fn new() -> (r: RoomRegistry)
        ensures
            r.wf(),
            r@ == Map::<RoomId, RoomView>::empty(),
            r.can_issue(),
            forall|id: RoomId| !r.issued(id),
    {
        let r = RoomRegistry { rooms: Vec::new(), next_serial: 0 };
        assert(r.views() =~= Seq::<RoomView>::empty());
        assert(r@ =~= Map::<RoomId, RoomView>::empty());
        r
    }

    /// Whether `create_room` can still be called.
    pub fn has_capacity(&self) -> (r: bool)
        ensures
            r == self.can_issue(),
    {
        self.next_serial < u64::MAX
    }

    fn find(&self, id: RoomId) -> (r: Option<usize>)
        requires
            self.wf(),
        ensures
            match r {
                Some(i) => i < self.views().len() && self.views()[i as int].id == id
                    && self@.contains_key(id) && self@[id] == self.views()[i as int],
                None => !self@.contains_key(id),
            },
    {
        let mut k: usize = 0;
        while k < self.rooms.len()
            invariant
                k <= self.rooms.len(),
                self.wf(),
                self.views().len() == self.rooms@.len(),
                forall|j: int| 0 <= j < k ==> self.views()[j].id != id,
            decreases self.rooms.len() - k,
        {
            if self.rooms[k].id == id {
                proof {
                    lemma_map_at(self.views(), k as int);
                }
                return Some(k);
            }
            k = k + 1;
        }
        None
    }

    /// Creates a room named `name` whose creator and only member is `creator`.
    /// `token` supplies the random half of its identifier.
    pub fn create_room(&mut self, name: String, creator: SessionId, token: u128) -> (r: RoomId)
        requires
            old(self).wf(),
            old(self).can_issue(),
        ensures
            final(self).wf(),
            !old(self).issued(r),
            final(self).issued(r),
            old(self).keeps_issued(&*final(self)),
            !old(self)@.contains_key(r),
            final(self)@ == old(self)@.insert(r, new_room(r, name@, creator)),
    {
        let id = mint_id(token, self.next_serial);
        proof {
            if self@.contains_key(id) {
                self.lemma_rooms_wf(id);
            }
        }
        let room = Room {
            id,
            name,
            creator_id: creator,
            participants: vec![creator],
            stream_key: None,
        };
        proof {
            lemma_map_push(self.views(), room@);
        }
        self.rooms.push(room);
        self.next_serial = self.next_serial + 1;
        proof {
            assert(self.views() =~= old(self).views().push(room@));
            assert(room@.members =~= seq![creator]);
            assert(room_wf(room@));
        }
        id
    }

    /// `s` joins `room`. Joining twice leaves one entry.
    pub fn join(&mut self, room: RoomId, s: SessionId) -> (r: Result<(), SignalingServerError>)
        requires
            old(self).wf(),
        ensures
            final(self).wf(),
            old(self).keeps_issued(&*final(self)),
            final(self)@ == after_join(old(self)@, room, s),
            r == if old(self)@.contains_key(room) {
                Ok::<(), SignalingServerError>(())
            } else {
                Err(SignalingServerError::RoomNotFound)
            },
    {
        match self.find(room) {
            None => Err(SignalingServerError::RoomNotFound),
            Some(i) => {
                if has_member(&self.rooms[i].participants, s) {
                    return Ok(());
                }
                let ghost old_views = self.views();
                let ghost nr = with_members(old_views[i as int], old_views[i as int].members.push(s));
                proof {
                    lemma_map_update(old_views, i as int, nr);
                }
                self.rooms[i].participants.push(s);
                proof {
                    assert(self.views() =~= old_views.update(i as int, nr));
                    assert(room_wf(nr)) by {
                        assert(room_wf(old_views[i as int]));
                    }
                }
                Ok(())
            },
        }
    }

    /// `s` leaves `room`; a room left without members is removed at once.
    pub fn leave(&mut self, room: RoomId, s: SessionId)
        requires
            old(self).wf(),
        ensures
            final(self).wf(),
            old(self).keeps_issued(&*final(self)),
            final(self)@ == after_leave(old(self)@, room, s),
    {
        match self.find(room) {
            None => {},
            Some(i) => {
                let ghost old_views = self.views();
                proof {
                    assert(room_wf(old_views[i as int]));
                }
                let ms = members_without(&self.rooms[i].participants, s);
                if ms.len() == 0 {
                    proof {
                        lemma_map_remove(old_views, i as int);
                    }
                    self.rooms.remove(i);
                    proof {
                        assert(self.views() =~= old_views.remove(i as int));
                    }
                } else {
                    let ghost nr = with_members(old_views[i as int], ms@);
                    proof {
                        lemma_map_update(old_views, i as int, nr);
                    }
                    self.rooms[i].participants = ms;
                    proof {
                        assert(self.views() =~= old_views.update(i as int, nr));
                    }
                }
            },
        }
    }

    /// The identifiers of all rooms.
    fn room_ids(&self) -> (r: Vec<RoomId>)
        requires
            self.wf(),
        ensures
            r@.no_duplicates(),
            forall|id: RoomId| #[trigger] r@.contains(id) == self@.contains_key(id),
    {
        let mut r: Vec<RoomId> = Vec::new();
        let mut k: usize = 0;
        while k < self.rooms.len()
            invariant
                k <= self.rooms.len(),
                self.wf(),
                self.views().len() == self.rooms@.len(),
                r@.len() == k,
                forall|j: int| 0 <= j < k ==> r@[j] == #[trigger] self.views()[j].id,
            decreases self.rooms.len() - k,
        {
            r.push(self.rooms[k].id);
            k = k + 1;
        }
        proof {
            assert forall|a: int, b: int| 0 <= a < r@.len() && 0 <= b < r@.len() && a != b implies r@[a] != r@[b] by {
                assert(r@[a] == self.views()[a].id && r@[b] == self.views()[b].id);
            }
            assert forall|id: RoomId| #[trigger] r@.contains(id) == self@.contains_key(id) by {
                if r@.contains(id) {
                    let j = choose|j: int| 0 <= j < r@.len() && r@[j] == id;
                    lemma_map_at(self.views(), j);
                }
                if self@.contains_key(id) {
                    let j = choose|j: int| 0 <= j < self.views().len() && self.views()[j].id == id;
                    assert(r@[j] == id);
                }
            }
        }
        r
    }

    /// `s` leaves every room it is in; rooms left without members are removed.
    pub fn leave_all(&mut self, s: SessionId)
        requires
            old(self).wf(),
        ensures
            final(self).wf(),
            old(self).keeps_issued(&*final(self)),
            final(self)@ == after_leave_all(old(self)@, s),
    {
        let ids = self.room_ids();
        let ghost start = self@;
        let ghost goal = after_leave_all(start, s);
        let mut k: usize = 0;
        while k < ids.len()
            invariant
                k <= ids.len(),
                self.wf(),
                old(self).keeps_issued(&*self),
                start == old(self)@,
                goal == after_leave_all(start, s),
                ids@.no_duplicates(),
                forall|id: RoomId| #[trigger] ids@.contains(id) == start.contains_key(id),
                forall|id: RoomId| #[trigger] ids@.subrange(0, k as int).contains(id) ==> (
                    self@.contains_key(id) == goal.contains_key(id) && (self@.contains_key(id) ==> self@[id] == goal[id])),
                forall|id: RoomId| !#[trigger] ids@.subrange(0, k as int).contains(id) ==> (
                    self@.contains_key(id) == start.contains_key(id) && (self@.contains_key(id) ==> self@[id] == start[id])),
            decreases ids.len() - k,
        {
            let id = ids[k];
            let ghost before = self@;
            proof {
                assert(!ids@.subrange(0, k as int).contains(id)) by {
                    if ids@.subrange(0, k as int).contains(id) {
                        let j = choose|j: int| 0 <= j < k && ids@.subrange(0, k as int)[j] == id;
                        assert(ids@[j] == ids@[k as int]);
                    }
                }
                assert(ids@.contains(id)) by { assert(ids@[k as int] == id); }
            }
            self.leave(id, s);
            proof {
                let done = ids@.subrange(0, k as int);
                let next = ids@.subrange(0, k + 1);
                assert(next =~= done.push(id));
                assert forall|x: RoomId| #[trigger] next.contains(x) == (done.contains(x) || x == id) by {
                    if next.contains(x) && x != id {
                        let j = choose|j: int| 0 <= j < next.len() && next[j] == x;
                        assert(done[j] == x);
                    }
                    if done.contains(x) {
                        let j = choose|j: int| 0 <= j < done.len() && done[j] == x;
                        assert(next[j] == x);
                    }
                    if x == id {
                        assert(next[k as int] == x);
                    }
                }
            }
            k = k + 1;
        }
        proof {
            assert(ids@.subrange(0, ids@.len() as int) =~= ids@);
            assert forall|id: RoomId| #[trigger] self@.contains_key(id) == goal.contains_key(id) by {
                if !ids@.contains(id) {
                    assert(!ids@.subrange(0, k as int).contains(id));
                }
            }
            assert forall|id: RoomId| self@.contains_key(id) implies #[trigger] self@[id] == goal[id] by {
                if !ids@.contains(id) {
                    assert(!ids@.subrange(0, k as int).contains(id));
                }
            }
            assert(self@ =~= goal);
        }
    }

    /// Marks a stream live in `room` under `key`; only the room's creator may.
    pub fn start_stream(&mut self, room: RoomId, s: SessionId, key: String) -> (r: Result<(), SignalingServerError>)
        requires
            old(self).wf(),
        ensures
            final(self).wf(),
            old(self).keeps_issued(&*final(self)),
            !old(self)@.contains_key(room) ==> r == Err::<(), SignalingServerError>(SignalingServerError::RoomNotFound),
            old(self)@.contains_key(room) && old(self)@[room].creator != s
                ==> r == Err::<(), SignalingServerError>(SignalingServerError::Unauthorized),
            old(self)@.contains_key(room) && old(self)@[room].creator == s ==> r == Ok::<(), SignalingServerError>(()),
            r is Ok ==> final(self)@ == old(self)@.insert(room, with_stream(old(self)@[room], Some(key@))),
            r is Err ==> final(self)@ == old(self)@,
    {
        self.set_stream(room, s, Some(key))
    }

    /// Clears the live stream of `room`; only the room's creator may.
    pub fn stop_stream(&mut self, room: RoomId, s: SessionId) -> (r: Result<(), SignalingServerError>)
        requires
            old(self).wf(),
        ensures
            final(self).wf(),
            old(self).keeps_issued(&*final(self)),
            !old(self)@.contains_key(room) ==> r == Err::<(), SignalingServerError>(SignalingServerError::RoomNotFound),
            old(self)@.contains_key(room) && old(self)@[room].creator != s
                ==> r == Err::<(), SignalingServerError>(SignalingServerError::Unauthorized),
            old(self)@.contains_key(room) && old(self)@[room].creator == s ==> r == Ok::<(), SignalingServerError>(()),
            r is Ok ==> final(self)@ == old(self)@.insert(room, with_stream(old(self)@[room], None)),
            r is Err ==> final(self)@ == old(self)@,
    {
        self.set_stream(room, s, None)
    }

    fn set_stream(&mut self, room: RoomId, s: SessionId, key: Option<String>) -> (r: Result<(), SignalingServerError>)
        requires
            old(self).wf(),
        ensures
            final(self).wf(),
            old(self).keeps_issued(&*final(self)),
            !old(self)@.contains_key(room) ==> r == Err::<(), SignalingServerError>(SignalingServerError::RoomNotFound),
            old(self)@.contains_key(room) && old(self)@[room].creator != s
                ==> r == Err::<(), SignalingServerError>(SignalingServerError::Unauthorized),
            old(self)@.contains_key(room) && old(self)@[room].creator == s ==> r == Ok::<(), SignalingServerError>(()),
            r is Ok ==> final(self)@ == old(self)@.insert(room, with_stream(old(self)@[room], opt_text(key))),
            r is Err ==> final(self)@ == old(self)@,
    {
        match self.find(room) {
            None => Err(SignalingServerError::RoomNotFound),
            Some(i) => {
                if self.rooms[i].creator_id != s {
                    return Err(SignalingServerError::Unauthorized);
                }
                let ghost old_views = self.views();
                let ghost nr = with_stream(old_views[i as int], opt_text(key));
                proof {
                    lemma_map_update(old_views, i as int, nr);
                    assert(room_wf(old_views[i as int]));
                }
                self.rooms[i].stream_key = key;
                proof {
                    assert(self.views() =~= old_views.update(i as int, nr));
                }
                Ok(())
            },
        }
    }

    /// The members of `room`, in order of arrival.
    pub fn members_of(&self, room: RoomId) -> (r: Result<Vec<SessionId>, SignalingServerError>)
        requires
            self.wf(),
        ensures
            match r {
                Ok(v) => self@.contains_key(room) && v@ == self@[room].members,
                Err(e) => !self@.contains_key(room) && e == SignalingServerError::RoomNotFound,
            },
    {
        match self.find(room) {
            None => Err(SignalingServerError::RoomNotFound),
            Some(i) => {
                let src = &self.rooms[i].participants;
                let mut v: Vec<SessionId> = Vec::new();
                let mut k: usize = 0;
                while k < src.len()
                    invariant
                        k <= src.len(),
                        v@ == src@.subrange(0, k as int),
                    decreases src.len() - k,
                {
                    v.push(src[k]);
                    k = k + 1;
                    assert(v@ =~= src@.subrange(0, k as int));
                }
                assert(v@ =~= src@);
                Ok(v)
            },
        }
    }

    /// Whether `s` is a member of `room` (false where there is no such room).
    pub fn is_member(&self, room: RoomId, s: SessionId) -> (r: bool)
        requires
            self.wf(),
        ensures
            r == (self@.contains_key(room) && self@[room].members.contains(s)),
    {
        match self.find(room) {
            None => false,
            Some(i) => has_member(&self.rooms[i].participants, s),
        }
    }

    /// The creator of `room`.
    pub fn creator_of(&self, room: RoomId) -> (r: Result<SessionId, SignalingServerError>)
        requires
            self.wf(),
        ensures
            match r {
                Ok(c) => self@.contains_key(room) && c == self@[room].creator,
                Err(e) => !self@.contains_key(room) && e == SignalingServerError::RoomNotFound,
            },
    {
        match self.find(room) {
            None => Err(SignalingServerError::RoomNotFound),
            Some(i) => Ok(self.rooms[i].creator_id),
        }
    }

    /// The key of the live stream of `room`, if one is live.
    pub fn stream_key_of(&self, room: RoomId) -> (r: Result<Option<String>, SignalingServerError>)
        requires
            self.wf(),
        ensures
            match r {
                Ok(k) => self@.contains_key(room) && opt_text(k) == self@[room].stream_key,
                Err(e) => !self@.contains_key(room) && e == SignalingServerError::RoomNotFound,
            },
    {
        match self.find(room) {
            None => Err(SignalingServerError::RoomNotFound),
            Some(i) => match &self.rooms[i].stream_key {
                Some(k) => Ok(Some(k.clone())),
                None => Ok(None),
            },
        }
    }

    /// How many rooms exist.
    pub fn room_count(&self) -> (r: usize)
        requires
            self.wf(),
        ensures
            r == self@.len(),
    {
        proof {
            self.lemma_count();
        }
        self.rooms.len()
    }

    proof fn lemma_count(&self)
        requires
            self.wf(),
        ensures
            self@.len() == self.rooms@.len(),
    {
        let vs = self.views();
        let ids = vs.map_values(|r: RoomView| r.id);
        assert forall|id: RoomId| #[trigger] ids.to_set().contains(id) == self@.dom().contains(id) by {
            if ids.contains(id) {
                let i = choose|i: int| 0 <= i < ids.len() && ids[i] == id;
                assert(vs[i].id == id);
            }
            if self@.dom().contains(id) {
                let i = choose|i: int| 0 <= i < vs.len() && vs[i].id == id;
                assert(ids[i] == id);
            }
        }
        assert(self@.dom() =~= ids.to_set());
        assert forall|a: int, b: int| 0 <= a < ids.len() && 0 <= b < ids.len() && a != b implies ids[a] != ids[b] by {
            assert(ids[a] == vs[a].id && ids[b] == vs[b].id);
        }
        ids.unique_seq_to_set();
    }
}

} // verus!
