//! Room membership lists.
use crate::model::Room;
use vstd::prelude::*;

verus! {

/// `s` with every occurrence of `id` taken out, order kept.
pub open spec fn without(s: Seq<u32>, id: u32) -> Seq<u32>
    decreases s.len(),
{
    if s.len() == 0 {
        s
    } else {
        let rest = without(s.drop_last(), id);
        if s.last() != id {
            rest.push(s.last())
        } else {
            rest
        }
    }
}

/// What a sequence holds after a push.
pub proof fn lemma_push_contains(q: Seq<u32>, a: u32, x: u32)
    ensures
        q.push(a).contains(x) <==> (q.contains(x) || x == a),
{
    if q.contains(x) {
        let k = choose|k: int| 0 <= k < q.len() && q[k] == x;
        assert(q.push(a)[k] == x);
    }
    if x == a {
        assert(q.push(a)[q.len() as int] == x);
    }
    if q.push(a).contains(x) {
        let k = choose|k: int| 0 <= k < q.push(a).len() && q.push(a)[k] == x;
        if k < q.len() {
            assert(q[k] == x);
        }
    }
}

/// Taking `id` out keeps exactly the other members and adds no duplicate.
pub proof fn lemma_without(s: Seq<u32>, id: u32)
    ensures
        forall|x: u32| #[trigger] without(s, id).contains(x) <==> (s.contains(x) && x != id),
        s.no_duplicates() ==> without(s, id).no_duplicates(),
        !s.contains(id) ==> without(s, id) == s,
    decreases s.len(),
{
    if s.len() > 0 {
        let t = s.drop_last();
        let l = s.last();
        let wt = without(t, id);
        lemma_without(t, id);
        assert(s =~= t.push(l));
        assert forall|x: u32| #[trigger] without(s, id).contains(x) <==> (s.contains(x) && x != id) by {
            lemma_push_contains(t, l, x);
            lemma_push_contains(wt, l, x);
        }
        if s.no_duplicates() {
            lemma_push_contains(t, l, l);
            assert(!t.contains(l)) by {
                if t.contains(l) {
                    let k = choose|k: int| 0 <= k < t.len() && t[k] == l;
                    assert(s[k] == s[s.len() - 1]);
                }
            }
            assert(t.no_duplicates()) by {
                assert forall|i: int, j: int| 0 <= i < t.len() && 0 <= j < t.len() && i != j implies t[i] != t[j] by {
                    assert(s[i] == t[i] && s[j] == t[j]);
                }
            }
            if l != id {
                assert(!wt.contains(l));
                assert forall|i: int, j: int| 0 <= i < wt.len() + 1 && 0 <= j < wt.len() + 1 && i != j implies wt.push(l)[i] != wt.push(l)[j] by {
                    if i == wt.len() {
                        assert(wt[j] == wt.push(l)[j]);
                    } else if j == wt.len() {
                        assert(wt[i] == wt.push(l)[i]);
                    }
                }
            }
        }
        if !s.contains(id) {
            assert(!t.contains(id)) by {
                lemma_push_contains(t, l, id);
            }
            assert(without(s, id) =~= s);
        }
    }
}

impl Room {
    pub fn new() -> (r: Room)
        ensures
            r.members@ == Seq::<u32>::empty(),
    {
        Room { members: Vec::new() }
    }

    /// Whether `socket_id` is a member.
    pub fn has_player(&self, socket_id: u32) -> (r: bool)
        ensures
            r == self.members@.contains(socket_id),
    {
        let mut i: usize = 0;
        while i < self.members.len()
            invariant
                i <= self.members@.len(),
                forall|j: int| 0 <= j < i ==> self.members@[j] != socket_id,
            decreases self.members@.len() - i,
        {
            if self.members[i] == socket_id {
                return true;
            }
            i = i + 1;
        }
        false
    }

    /// Adds `socket_id` at the end of the membership list.
    pub fn add_player(&mut self, socket_id: u32)
        ensures
            final(self).members@ == old(self).members@.push(socket_id),
    {
        self.members.push(socket_id);
    }

    /// Takes `socket_id` out of the membership list.
    pub fn remove_player(&mut self, socket_id: u32)
        ensures
            final(self).members@ == without(old(self).members@, socket_id),
    {
        let mut kept: Vec<u32> = Vec::new();
        let mut i: usize = 0;
        while i < self.members.len()
            invariant
                i <= self.members@.len(),
                kept@ == without(self.members@.subrange(0, i as int), socket_id),
            decreases self.members@.len() - i,
        {
            proof {
                assert(self.members@.subrange(0, i + 1).drop_last() =~= self.members@.subrange(
                    0,
                    i as int,
                ));
            }
            let m = self.members[i];
            if m != socket_id {
                kept.push(m);
            }
            i = i + 1;
        }
        proof {
            assert(self.members@.subrange(0, self.members@.len() as int) =~= self.members@);
        }
        self.members = kept;
    }
}

} // verus!
