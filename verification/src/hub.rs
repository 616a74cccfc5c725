use vstd::prelude::*;
use crate::messaging::SystemResponse;

verus! {

/// One connected client's subscription: where in the broadcast history its
/// next read starts.
pub struct Subscriber {
    pub id: u64,
    pub cursor: usize,
}

/// Index of the subscriber with the given id, or -1 if there is none.
pub open spec fn sub_index(s: Seq<Subscriber>, id: u64) -> int
    decreases s.len(),
{
    if s.len() == 0 {
        -1
    } else if s[0].id == id {
        0
    } else {
        let sub = sub_index(s.subrange(1, s.len() as int), id);
        if sub == -1 {
            -1
        } else {
            sub + 1
        }
    }
}

/// Whether a subscriber carries the given id.
pub open spec fn has_sub(s: Seq<Subscriber>, id: u64) -> bool {
    sub_index(s, id) != -1
}

/// Where a subscriber reads next: its own cursor, unless it has fallen more
/// than `capacity` messages behind the head of the history, in which case it
/// skips ahead and the overwritten messages are lost to it.
pub open spec fn next_read(cursor: int, len: int, capacity: int) -> int {
    if len - cursor > capacity {
        len - capacity
    } else {
        cursor
    }
}

/// What `sub_index` finds: a valid index of the subscriber with the id, or
/// -1 exactly when no subscriber carries it.
pub proof fn lemma_sub_index(s: Seq<Subscriber>, id: u64)
    ensures
        sub_index(s, id) == -1 ==> (forall|j: int| 0 <= j < s.len() ==> (#[trigger] s[j]).id != id),
        sub_index(s, id) != -1 ==> {
            let i = sub_index(s, id);
            &&& 0 <= i < s.len()
            &&& s[i].id == id
            &&& forall|j: int| 0 <= j < i ==> (#[trigger] s[j]).id != id
        },
    decreases s.len(),
{
    if s.len() > 0 && s[0].id != id {
        let rest = s.subrange(1, s.len() as int);
        lemma_sub_index(rest, id);
        assert(forall|j: int| 0 <= j < rest.len() ==> rest[j] == s[j + 1]);
        if sub_index(s, id) == -1 {
            assert forall|j: int| 0 <= j < s.len() implies (#[trigger] s[j]).id != id by {
                if j > 0 {
                    assert(rest[j - 1] == s[j]);
                    assert(rest[j - 1].id != id);
                }
            }
        } else {
            let i = sub_index(s, id);
            assert(rest[i - 1] == s[i]);
            assert forall|j: int| 0 <= j < i implies (#[trigger] s[j]).id != id by {
                if j > 0 {
                    assert(rest[j - 1] == s[j]);
                    assert(rest[j - 1].id != id);
                }
            }
        }
    }
}

/// The converse: the first index carrying the id determines `sub_index`.
pub proof fn lemma_sub_index_found(s: Seq<Subscriber>, id: u64, i: int)
    requires
        0 <= i < s.len(),
        s[i].id == id,
        forall|j: int| 0 <= j < i ==> (#[trigger] s[j]).id != id,
    ensures
        sub_index(s, id) == i,
    decreases s.len(),
{
    if i > 0 {
        let rest = s.subrange(1, s.len() as int);
        assert(forall|j: int| 0 <= j < rest.len() ==> rest[j] == s[j + 1]);
        lemma_sub_index_found(rest, id, i - 1);
    }
}

/// The broadcast coordinator: the single history of responses published so
/// far, and the subscriptions of the currently connected clients. Every
/// subscriber reads the one history in publication order; one that falls
/// more than `capacity` messages behind misses the overwritten messages
/// rather than stalling the hub.
pub struct SessionHub {
    pub capacity: usize,
    pub log: Vec<SystemResponse>,
    pub subs: Vec<Subscriber>,
    pub next_id: u64,
}

impl SessionHub {
    /// Well-formedness: ids are unique and below the next to be handed out,
    /// and every cursor lies within the history.
    pub open spec fn wf(&self) -> bool {
        &&& self.capacity >= 1
        &&& forall|i: int, j: int| 0 <= i < j < self.subs@.len() ==> (#[trigger] self.subs@[i]).id
            != (#[trigger] self.subs@[j]).id
        &&& forall|i: int| 0 <= i < self.subs@.len() ==> (#[trigger] self.subs@[i]).id
            < self.next_id
        &&& forall|i: int| 0 <= i < self.subs@.len() ==> (#[trigger] self.subs@[i]).cursor
            <= self.log@.len()
    }

    /// A hub with no history and no subscribers.
    pub fn new(capacity: usize) -> (h: SessionHub)
        requires
            capacity >= 1,
        ensures
            h.wf(),
            h.capacity == capacity,
            h.log@ =~= Seq::<SystemResponse>::empty(),
            h.subs@ =~= Seq::<Subscriber>::empty(),
    {
        SessionHub { capacity, log: Vec::new(), subs: Vec::new(), next_id: 0 }
    }

    /// Register a new client. Its subscription starts at the head of the
    /// history, so it sees only messages published after this call.
    pub fn connect(&mut self) -> (id: u64)
        requires
            old(self).wf(),
            old(self).next_id < u64::MAX,
        ensures
            final(self).wf(),
            id == old(self).next_id,
            final(self).next_id == old(self).next_id + 1,
            final(self).capacity == old(self).capacity,
            final(self).log@ == old(self).log@,
            final(self).subs@ == old(self).subs@.push(
                (Subscriber { id, cursor: old(self).log@.len() as usize }),
            ),
    {
        let id = self.next_id;
        self.next_id = self.next_id + 1;
        let cursor = self.log.len();
        self.subs.push(Subscriber { id, cursor });
        id
    }

    /// Publish a response: append it to the history that every subscriber
    /// reads in order.
    pub fn publish(&mut self, resp: SystemResponse)
        requires
            old(self).wf(),
        ensures
            final(self).wf(),
            final(self).log@ == old(self).log@.push(resp),
            final(self).subs@ == old(self).subs@,
            final(self).capacity == old(self).capacity,
            final(self).next_id == old(self).next_id,
    {
        self.log.push(resp);
    }

    /// Read one message of the broadcast history.
    pub fn message(&self, i: usize) -> (r: &SystemResponse)
        requires
            i < self.log@.len(),
        ensures
            *r == self.log@[i as int],
    {
        &self.log[i]
    }

    /// Receive the next message for subscriber `id`: `None` when the id is
    /// unknown or the subscriber has seen the whole history, else the index
    /// of the message it receives, with its cursor moved past it. A lagging
    /// subscriber is skipped ahead as `next_read` says.
    pub fn poll(&mut self, id: u64) -> (r: Option<usize>)
        requires
            old(self).wf(),
        ensures
            final(self).wf(),
            final(self).log@ == old(self).log@,
            final(self).capacity == old(self).capacity,
            final(self).next_id == old(self).next_id,
            !has_sub(old(self).subs@, id) ==> r is None && final(self).subs@ == old(self).subs@,
            has_sub(old(self).subs@, id) ==> {
                let k = sub_index(old(self).subs@, id);
                let c = old(self).subs@[k].cursor as int;
                let m = next_read(c, old(self).log@.len() as int, old(self).capacity as int);
                if c == old(self).log@.len() {
                    r is None && final(self).subs@ == old(self).subs@
                } else {
                    &&& r == Some(m as usize)
                    &&& final(self).subs@ == old(self).subs@.update(
                        k,
                        (Subscriber { id, cursor: (m + 1) as usize }),
                    )
                }
            },
    {
        let ghost ov = self.subs@;
        let mut k: usize = 0;
        #[verifier::loop_isolation(false)]
        while k < self.subs.len()
            invariant
                k <= ov.len(),
                self.subs@ == ov,
                self.log@ == old(self).log@,
                self.capacity == old(self).capacity,
                self.next_id == old(self).next_id,
                forall|j: int| 0 <= j < k ==> (#[trigger] ov[j]).id != id,
            decreases ov.len() - k,
        {
            if self.subs[k].id == id {
                proof {
                    lemma_sub_index_found(ov, id, k as int);
                }
                let cursor = self.subs[k].cursor;
                let len = self.log.len();
                if cursor == len {
                    return None;
                }
                let start = if len - cursor > self.capacity {
                    len - self.capacity
                } else {
                    cursor
                };
                self.subs.set(k, Subscriber { id, cursor: start + 1 });
                proof {
                    let nv = self.subs@;
                    let p = k as int;
                    assert forall|a: int, b: int| 0 <= a < b < nv.len() implies (
                    #[trigger] nv[a]).id != (#[trigger] nv[b]).id by {
                        if a == p {
                            assert(nv[b] == ov[b]);
                            assert(ov[p].id != ov[b].id);
                        } else if b == p {
                            assert(nv[a] == ov[a]);
                            assert(ov[a].id != ov[p].id);
                        } else {
                            assert(nv[a] == ov[a] && nv[b] == ov[b]);
                            assert(ov[a].id != ov[b].id);
                        }
                    }
                }
                return Some(start);
            }
            k += 1;
        }
        proof {
            lemma_sub_index(ov, id);
        }
        None
    }

    /// Remove a subscription: later publishes are no longer seen by it, and
    /// whatever it had not yet read is dropped silently.
    pub fn disconnect(&mut self, id: u64)
        requires
            old(self).wf(),
        ensures
            final(self).wf(),
            final(self).log@ == old(self).log@,
            final(self).capacity == old(self).capacity,
            final(self).next_id == old(self).next_id,
            !has_sub(old(self).subs@, id) ==> final(self).subs@ == old(self).subs@,
            has_sub(old(self).subs@, id) ==> final(self).subs@ == old(self).subs@.remove(
                sub_index(old(self).subs@, id),
            ),
    {
        let ghost ov = self.subs@;
        let mut k: usize = 0;
        #[verifier::loop_isolation(false)]
        while k < self.subs.len()
            invariant
                k <= ov.len(),
                self.subs@ == ov,
                self.log@ == old(self).log@,
                self.capacity == old(self).capacity,
                self.next_id == old(self).next_id,
                forall|j: int| 0 <= j < k ==> (#[trigger] ov[j]).id != id,
            decreases ov.len() - k,
        {
            if self.subs[k].id == id {
                proof {
                    lemma_sub_index_found(ov, id, k as int);
                    ov.remove_ensures(k as int);
                }
                self.subs.remove(k);
                proof {
                    let nv = self.subs@;
                    let p = k as int;
                    assert forall|a: int, b: int| 0 <= a < b < nv.len() implies (
                    #[trigger] nv[a]).id != (#[trigger] nv[b]).id by {
                        let oa = if a < p {
                            a
                        } else {
                            a + 1
                        };
                        let ob = if b < p {
                            b
                        } else {
                            b + 1
                        };
                        assert(nv[a] == ov[oa] && nv[b] == ov[ob]);
                        assert(ov[oa].id != ov[ob].id);
                    }
                    assert forall|a: int| 0 <= a < nv.len() implies (#[trigger] nv[a]).id
                        < self.next_id && (#[trigger] nv[a]).cursor <= self.log@.len() by {
                        let oa = if a < p {
                            a
                        } else {
                            a + 1
                        };
                        assert(nv[a] == ov[oa]);
                    }
                }
                return ;
            }
            k += 1;
        }
        proof {
            lemma_sub_index(ov, id);
        }
    }
}

} // verus!
