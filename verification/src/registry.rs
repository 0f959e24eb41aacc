//! Client registry of the broadcast server. One owning task holds it and
//! serializes every mutation: the accept loop registers new connections, the
//! publish loop asks for the current targets, and a failed write removes its
//! client. Identifiers come from a strictly monotonic counter and are never
//! reused, so an identifier names one connection for all time — a removed
//! client can never be confused with a later one. The registry holds only the
//! identifiers; the connection handles they name live with the surrounding
//! program, which alone can perform the writes.

use vstd::prelude::*;

use crate::wire::{encode_sample, sample_json, Sample, MAX_RFC3339_MILLIS};

verus! {

/// Identifiers in the order their clients were registered.
pub struct Registry {
    ids: Vec<u64>,
    next_id: u64,
}

/// Each element exceeds every earlier one.
pub open spec fn strictly_increasing(s: Seq<u64>) -> bool {
    forall|i: int, j: int| 0 <= i < j < s.len() ==> s[i] < s[j]
}

impl View for Registry {
    type V = Seq<u64>;

    /// The registered identifiers, oldest first.
    closed spec fn view(&self) -> Seq<u64> {
        self.ids@
    }
}

impl Registry {
    /// The identifier the next registration will receive.
    pub closed spec fn next_spec(&self) -> int {
        self.next_id as int
    }

    /// Identifiers strictly increase along the registration order and stay
    /// below the counter — so they are unique, and a fresh identifier never
    /// collides with a present or removed one.
    pub open spec fn wf(&self) -> bool {
        strictly_increasing(self@) && (forall|i: int|
            0 <= i < self@.len() ==> self@[i] < self.next_spec())
    }

    /// An empty registry; the first client will be number 1.
    pub fn new() -> (r: Registry)
        ensures
            r@ == Seq::<u64>::empty(),
            r.wf(),
            r.next_spec() == 1,
    {
        Registry { ids: Vec::new(), next_id: 1 }
    }

    /// The counter value: what the next registration would return.
    pub fn next_id(&self) -> (id: u64)
        ensures
            id as int == self.next_spec(),
    {
        self.next_id
    }

    pub fn len(&self) -> (n: usize)
        ensures
            n == self@.len(),
    {
        self.ids.len()
    }

    /// Registers one new connection: appends a fresh identifier — the counter
    /// value — and advances the counter.
    pub fn register(&mut self) -> (id: u64)
        requires
            old(self).wf(),
            old(self).next_spec() < u64::MAX as int,
        ensures
            final(self).wf(),
            id as int == old(self).next_spec(),
            final(self)@ == old(self)@.push(id),
            final(self).next_spec() == old(self).next_spec() + 1,
    {
        let id = self.next_id;
        self.ids.push(id);
        self.next_id = self.next_id + 1;
        id
    }

    /// Removes the client `id` names, if it is registered: the rest keep
    /// their order, and the size shrinks by exactly one. Removing an unknown
    /// identifier changes nothing. The counter never moves backward.
    pub fn remove(&mut self, id: u64) -> (was_there: bool)
        requires
            old(self).wf(),
        ensures
            final(self).wf(),
            final(self).next_spec() == old(self).next_spec(),
            was_there == old(self)@.contains(id),
            !was_there ==> final(self)@ == old(self)@,
            was_there ==> final(self)@ == old(self)@.remove(old(self)@.index_of(id)),
            was_there ==> final(self)@.len() == old(self)@.len() - 1,
    {
        let ghost pre = old(self)@;
        let mut i: usize = 0;
        while i < self.ids.len()
            invariant
                i <= self.ids.len(),
                old(self).wf(),
                self.ids@ == pre,
                pre == old(self)@,
                self.next_spec() == old(self).next_spec(),
                forall|j: int| 0 <= j < i ==> pre[j] != id,
            decreases self.ids.len() - i,
        {
            if self.ids[i] == id {
                self.ids.remove(i);
                proof {
                    assert(strictly_increasing(pre));
                    assert(pre.contains(id));
                    let w = pre.index_of(id);
                    assert(pre[w] == id);
                    assert(w == i) by {
                        if w < i {
                            assert(pre[w] != id);
                        }
                        if w > i {
                            assert(pre[i as int] < pre[w]);
                        }
                    }
                    assert forall|p: int, q: int|
                        0 <= p < q < self.ids@.len() implies self.ids@[p] < self.ids@[q] by {
                        assert(self.ids@ == pre.remove(i as int));
                        if q < i {
                            assert(pre[p] < pre[q]);
                        } else if p < i {
                            assert(pre[p] < pre[q + 1]);
                        } else {
                            assert(pre[p + 1] < pre[q + 1]);
                        }
                    }
                    assert forall|p: int| 0 <= p < self.ids@.len() implies self.ids@[p]
                        < self.next_spec() by {
                        if p < i {
                            assert(self.ids@[p] == pre[p]);
                        } else {
                            assert(self.ids@[p] == pre[p + 1]);
                        }
                    }
                }
                return true;
            }
            i = i + 1;
        }
        proof {
            if pre.contains(id) {
                let w = pre.index_of(id);
                assert(pre[w] != id);
            }
        }
        false
    }

    /// The identifiers to deliver the next sample to: every currently
    /// registered client, in registration order.
    pub fn clients(&self) -> (v: Vec<u64>)
        ensures
            v@ == self@,
    {
        let mut v: Vec<u64> = Vec::new();
        let mut i: usize = 0;
        while i < self.ids.len()
            invariant
                i <= self.ids.len(),
                v@ == self.ids@.take(i as int),
            decreases self.ids.len() - i,
        {
            v.push(self.ids[i]);
            proof {
                assert(self.ids@.take(i + 1 as int) =~= self.ids@.take(i as int).push(
                    self.ids@[i as int],
                ));
            }
            i = i + 1;
        }
        proof {
            assert(self.ids@.take(self.ids@.len() as int) =~= self.ids@);
        }
        v
    }
}

/// Plans one broadcast: the wire bytes of the sample, built once, and the
/// clients to deliver them to — every registered identifier. All targets get
/// the same bytes. Fails exactly when the sample's timestamp cannot be
/// rendered.
pub fn publish_plan(reg: &Registry, s: &Sample) -> (r: Option<(Vec<u8>, Vec<u64>)>)
    ensures
        r is Some <==> 0 <= s.datetime <= MAX_RFC3339_MILLIS,
        r matches Some(p) ==> p.0@ == sample_json(s.datetime as int, s.grams as int) && p.1@
            == reg@,
{
    match encode_sample(s) {
        Some(payload) => Some((payload, reg.clients())),
        None => None,
    }
}

} // verus!
