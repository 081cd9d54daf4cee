//! The registry of live sessions.
use vstd::prelude::*;

use crate::ids::{mint_id, serial_of, SessionId};
use crate::rooms::{has_member, lemma_without_contains, members_without};

verus! {

/// The sessions that are currently connected.
pub struct ConnectionRegistry {
    live: Vec<SessionId>,
    next_serial: u64,
}

impl View for ConnectionRegistry {
    type V = Set<SessionId>;

    closed spec fn view(&self) -> Set<SessionId> {
        self.live@.to_set()
    }
}

impl ConnectionRegistry {
    /// `id` has been handed out by this registry (its session may be gone since).
    pub closed spec fn issued(&self, id: SessionId) -> bool {
        serial_of(id) < self.next_serial as u128
    }

    /// Another session can still be given an identifier of its own.
    pub closed spec fn can_issue(&self) -> bool {
        self.next_serial < u64::MAX
    }

    pub closed spec fn wf(&self) -> bool {
        &&& self.live@.no_duplicates()
        &&& forall|i: int| 0 <= i < self.live@.len() ==> serial_of(#[trigger] self.live@[i]) < self.next_serial as u128
    }

    /// Every identifier issued by `self` stays issued in `later`.
    pub open spec fn keeps_issued(&self, later: &ConnectionRegistry) -> bool {
        forall|id: SessionId| #[trigger] self.issued(id) ==> later.issued(id)
    }

    pub fn new() -> (r: ConnectionRegistry)
        ensures
            r.wf(),
            r@ == Set::<SessionId>::empty(),
            r.can_issue(),
            forall|id: SessionId| !r.issued(id),
    {
        let r = ConnectionRegistry { live: Vec::new(), next_serial: 0 };
        assert(r@ =~= Set::<SessionId>::empty());
        r
    }

    /// Whether `register` can still be called.
    pub fn has_capacity(&self) -> (r: bool)
        ensures
            r == self.can_issue(),
    {
        self.next_serial < u64::MAX
    }

    /// Records a new live session under an identifier never issued before.
    /// `token` supplies the random half of the identifier.
    pub fn register(&mut self, token: u128) -> (r: SessionId)
        requires
            old(self).wf(),
            old(self).can_issue(),
        ensures
            final(self).wf(),
            !old(self).issued(r),
            final(self).issued(r),
            old(self).keeps_issued(&*final(self)),
            !old(self)@.contains(r),
            final(self)@ == old(self)@.insert(r),
    {
        let id = mint_id(token, self.next_serial);
        proof {
            if self.live@.contains(id) {
                let i = choose|i: int| 0 <= i < self.live@.len() && self.live@[i] == id;
                assert(serial_of(self.live@[i]) < self.next_serial as u128);
            }
        }
        self.live.push(id);
        self.next_serial = self.next_serial + 1;
        proof {
            assert forall|x: SessionId| #[trigger] self.live@.contains(x) == (old(self).live@.contains(x) || x == id) by {
                if self.live@.contains(x) && x != id {
                    let i = choose|i: int| 0 <= i < self.live@.len() && self.live@[i] == x;
                    assert(old(self).live@[i] == x);
                }
                if old(self).live@.contains(x) {
                    let i = choose|i: int| 0 <= i < old(self).live@.len() && old(self).live@[i] == x;
                    assert(self.live@[i] == x);
                }
                if x == id {
                    assert(self.live@[self.live@.len() - 1] == x);
                }
            }
            assert(self@ =~= old(self)@.insert(id));
        }
        id
    }

    /// Forgets `id`. Forgetting a session that is not live does nothing.
    pub fn unregister(&mut self, id: SessionId)
        requires
            old(self).wf(),
        ensures
            final(self).wf(),
            old(self).keeps_issued(&*final(self)),
            final(self)@ == old(self)@.remove(id),
    {
        let rest = members_without(&self.live, id);
        proof {
            assert forall|x: SessionId| #[trigger] rest@.contains(x) == (self.live@.contains(x) && x != id) by {
                lemma_without_contains(self.live@, id, x);
            }
            assert forall|i: int| 0 <= i < rest@.len() implies serial_of(#[trigger] rest@[i]) < self.next_serial as u128 by {
                assert(rest@.contains(rest@[i]));
                let j = choose|j: int| 0 <= j < self.live@.len() && self.live@[j] == rest@[i];
                assert(serial_of(self.live@[j]) < self.next_serial as u128);
            }
        }
        self.live = rest;
        assert(self@ =~= old(self)@.remove(id));
    }

    /// Whether `id` is live.
    pub fn is_live(&self, id: SessionId) -> (r: bool)
        ensures
            r == self@.contains(id),
    {
        has_member(&self.live, id)
    }

    /// A copy of the live sessions, each once.
    pub fn snapshot(&self) -> (r: Vec<SessionId>)
        requires
            self.wf(),
        ensures
            r@.no_duplicates(),
            r@.to_set() == self@,
    {
        let mut v: Vec<SessionId> = Vec::new();
        let mut k: usize = 0;
        while k < self.live.len()
            invariant
                k <= self.live.len(),
                v@ == self.live@.subrange(0, k as int),
            decreases self.live.len() - k,
        {
            v.push(self.live[k]);
            k = k + 1;
            assert(v@ =~= self.live@.subrange(0, k as int));
        }
        assert(v@ =~= self.live@);
        v
    }
}

} // verus!
