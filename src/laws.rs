//! Properties of the signaling plane that relate several operations.
use vstd::prelude::*;

use crate::codec::{ErrorCode, MessageView};
use crate::ids::{RoomId, SessionId};
use crate::rooms::{
    after_join, after_leave, after_leave_all, lemma_without_contains, new_room, without,
    RoomRegistry, RoomView,
};
use crate::server::{error_to, relay_outcome, stream_outcome};

verus! {

/// One room creation: `id` was not issued in `pre` and is issued in `post`,
/// and every identifier issued in `pre` stays issued (as `create_room` ensures).
pub open spec fn creation_step(pre: RoomRegistry, id: RoomId, post: RoomRegistry) -> bool {
    !pre.issued(id) && post.issued(id) && pre.keeps_issued(&post)
}

proof fn lemma_issued_persists(regs: Seq<RoomRegistry>, ids: Seq<RoomId>, i: int, j: int)
    requires
        regs.len() == ids.len() + 1,
        forall|k: int| 0 <= k < ids.len() ==> #[trigger] creation_step(regs[k], ids[k], regs[k + 1]),
        0 <= i < j <= ids.len(),
    ensures
        regs[j].issued(ids[i]),
    decreases j - i,
{
    let k = j - 1;
    assert(creation_step(regs[k], ids[k], regs[k + 1]));
    assert(k + 1 == j);
    if j == i + 1 {
    } else {
        lemma_issued_persists(regs, ids, i, j - 1);
    }
}

/// However many rooms are created one after another, their identifiers are
/// pairwise distinct. (Other operations between creations keep what was
/// issued, so they may be folded into the steps.)
pub proof fn lemma_created_ids_distinct(regs: Seq<RoomRegistry>, ids: Seq<RoomId>)
    requires
        regs.len() == ids.len() + 1,
        forall|k: int| 0 <= k < ids.len() ==> #[trigger] creation_step(regs[k], ids[k], regs[k + 1]),
    ensures
        ids.no_duplicates(),
{
    assert forall|i: int, j: int| 0 <= i < ids.len() && 0 <= j < ids.len() && i != j implies ids[i] != ids[j] by {
        let (a, b) = if i < j { (i, j) } else { (j, i) };
        lemma_issued_persists(regs, ids, a, b);
        assert(creation_step(regs[b], ids[b], regs[b + 1]));
        assert(regs[b].issued(ids[a]));
    }
}

/// A created room has its creator as its one member, and that creator.
pub proof fn lemma_created_room(rooms: Map<RoomId, RoomView>, id: RoomId, name: Seq<char>, a: SessionId)
    ensures
        rooms.insert(id, new_room(id, name, a))[id].members.to_set() == set![a],
        rooms.insert(id, new_room(id, name, a))[id].creator == a,
        rooms.insert(id, new_room(id, name, a))[id].stream_key is None,
{
    let ms = seq![a];
    assert(ms.to_set() =~= set![a]) by {
        assert(ms[0] == a);
    }
}

/// In a room created by `a`: `b` joins, giving members `[a, b]`; `a` leaves,
/// giving `[b]`; `b` leaves, and the room is gone.
pub proof fn lemma_join_then_leave(rooms: Map<RoomId, RoomView>, id: RoomId, name: Seq<char>, a: SessionId, b: SessionId)
    requires
        a != b,
    ensures
        ({
            let m0 = rooms.insert(id, new_room(id, name, a));
            let m1 = after_join(m0, id, b);
            let m2 = after_leave(m1, id, a);
            let m3 = after_leave(m2, id, b);
            &&& m1.contains_key(id) && m1[id].members == seq![a, b]
            &&& m2.contains_key(id) && m2[id].members == seq![b]
            &&& !m3.contains_key(id)
        }),
{
    let m0 = rooms.insert(id, new_room(id, name, a));
    assert(!seq![a].contains(b)) by {
        assert(seq![a][0] == a);
    }
    assert(seq![a].push(b) =~= seq![a, b]);
    reveal_with_fuel(Seq::filter, 3);
    assert(seq![a, b].drop_last() =~= seq![a]);
    assert(seq![a].drop_last() =~= Seq::<SessionId>::empty());
    assert(without(seq![a, b], a) =~= seq![b]);
    assert(seq![b].drop_last() =~= Seq::<SessionId>::empty());
    assert(without(seq![b], b) =~= Seq::<SessionId>::empty());
}

/// Joining a room that does not exist changes nothing.
pub proof fn lemma_join_missing_room(rooms: Map<RoomId, RoomView>, id: RoomId, s: SessionId)
    requires
        !rooms.contains_key(id),
    ensures
        after_join(rooms, id, s) == rooms,
{
}

/// Starting a stream: by anyone but the creator it is refused as
/// `Unauthorized` and the stream key stays as it was; by the creator it sets
/// the key to exactly the one given.
pub proof fn lemma_start_stream_rules(
    rooms: Map<RoomId, RoomView>,
    id: RoomId,
    s: SessionId,
    key: Seq<char>,
    post: Map<RoomId, RoomView>,
    out: Seq<(SessionId, MessageView)>,
)
    requires
        rooms.contains_key(id),
        stream_outcome(rooms, s, id, Some(key), post, out),
    ensures
        rooms[id].creator != s ==> out == error_to(s, ErrorCode::Unauthorized) && post == rooms,
        rooms[id].creator == s ==> post.contains_key(id) && post[id].stream_key == Some(key),
{
}

/// Joins of distinct sessions, one after another, on a room created by `a`.
pub open spec fn joins(rooms: Map<RoomId, RoomView>, id: RoomId, ss: Seq<SessionId>) -> Map<RoomId, RoomView>
    decreases ss.len(),
{
    if ss.len() == 0 {
        rooms
    } else {
        after_join(joins(rooms, id, ss.drop_last()), id, ss.last())
    }
}

/// Joins by `n` distinct sessions other than the creator `a` leave exactly
/// `n + 1` members: `a`, then the joiners in order. Concurrent joins are
/// serialised by the registry's lock, so they end the same way.
pub proof fn lemma_joins_accumulate(rooms: Map<RoomId, RoomView>, id: RoomId, name: Seq<char>, a: SessionId, ss: Seq<SessionId>)
    requires
        ss.no_duplicates(),
        !ss.contains(a),
    ensures
        joins(rooms.insert(id, new_room(id, name, a)), id, ss).contains_key(id),
        joins(rooms.insert(id, new_room(id, name, a)), id, ss)[id].members == seq![a] + ss,
        joins(rooms.insert(id, new_room(id, name, a)), id, ss)[id].members.len() == ss.len() + 1,
    decreases ss.len(),
{
    let m0 = rooms.insert(id, new_room(id, name, a));
    if ss.len() == 0 {
        assert(seq![a] + ss =~= seq![a]);
    } else {
        let init = ss.drop_last();
        assert(init.no_duplicates());
        assert(!init.contains(a)) by {
            if init.contains(a) {
                let k = choose|k: int| 0 <= k < init.len() && init[k] == a;
                assert(ss[k] == a);
            }
        }
        lemma_joins_accumulate(rooms, id, name, a, init);
        let prev = joins(m0, id, init);
        assert(!prev[id].members.contains(ss.last())) by {
            if prev[id].members.contains(ss.last()) {
                let k = choose|k: int| 0 <= k < prev[id].members.len() && prev[id].members[k] == ss.last();
                if k == 0 {
                    assert(ss[ss.len() - 1] == a);
                } else {
                    assert(init[k - 1] == ss.last());
                    assert(ss[k - 1] == ss[ss.len() - 1]);
                }
            }
        }
        assert((seq![a] + init).push(ss.last()) =~= seq![a] + ss);
    }
}

/// A relayed message between two live members of a room reaches the
/// receiver, unchanged, exactly once, and no one else.
pub proof fn lemma_relay_reaches_receiver_only(
    live: Set<SessionId>,
    rooms: Map<RoomId, RoomView>,
    id: RoomId,
    a: SessionId,
    b: SessionId,
    m: MessageView,
)
    requires
        rooms.contains_key(id),
        rooms[id].members.contains(a),
        rooms[id].members.contains(b),
        live.contains(a),
        live.contains(b),
    ensures
        relay_outcome(live, rooms, a, id, b, m) == seq![(b, m)],
        forall|k: int| 0 <= k < relay_outcome(live, rooms, a, id, b, m).len()
            ==> #[trigger] relay_outcome(live, rooms, a, id, b, m)[k].0 == b,
{
}

/// Once `a` has disconnected, no room lists it, and a room that had no
/// other member is gone.
pub proof fn lemma_disconnect_cleans(rooms: Map<RoomId, RoomView>, a: SessionId, id: RoomId)
    ensures
        after_leave_all(rooms, a).contains_key(id) ==> !after_leave_all(rooms, a)[id].members.contains(a),
        rooms.contains_key(id) && (forall|k: int| 0 <= k < rooms[id].members.len() ==> #[trigger] rooms[id].members[k] == a)
            ==> !after_leave_all(rooms, a).contains_key(id),
{
    lemma_without_contains(rooms[id].members, a, a);
    if rooms.contains_key(id) && (forall|k: int| 0 <= k < rooms[id].members.len() ==> #[trigger] rooms[id].members[k] == a) {
        let w = without(rooms[id].members, a);
        if w.len() > 0 {
            lemma_without_contains(rooms[id].members, a, w[0]);
            assert(w.contains(w[0]));
        }
    }
}

} // verus!
