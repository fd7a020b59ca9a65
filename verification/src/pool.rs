//! The subscriber pool: an ordered set of subscriber handles. New
//! subscribers are appended as they are accepted; one broadcast pass writes
//! the encoded record to every subscriber and afterwards removes, in one
//! sweep, exactly those whose write failed with a disconnect. Other write
//! failures are tolerated and the subscriber kept, preserving the
//! documented behaviour of the service.
//!
//! The pool holds plain handles; the caller owns the sockets, writes under
//! its lock, and reports one `WriteOutcome` per subscriber, in pool order.

use vstd::prelude::*;

verus! {

/// How one subscriber's write ended during a broadcast pass.
#[derive(Clone, Copy, PartialEq, Eq, Structural, Debug)]
pub enum WriteOutcome {
    /// The whole record was written.
    Delivered,
    /// The write failed because the peer disconnected; the subscriber is
    /// removed after the pass.
    Disconnected,
    /// The write failed some other way; tolerated, the subscriber stays.
    OtherFailure,
}

/// Whether an outcome lets the subscriber stay in the pool.
pub open spec fn keeps(o: WriteOutcome) -> bool {
    !(o is Disconnected)
}

/// The subscribers that remain after a pass with the given outcomes, in
/// their original order.
pub open spec fn surviving(subs: Seq<u64>, outs: Seq<WriteOutcome>) -> Seq<u64>
    decreases subs.len(),
{
    if subs.len() == 0 {
        Seq::<u64>::empty()
    } else {
        let rest = surviving(subs.skip(1), outs.skip(1));
        if keeps(outs[0]) {
            seq![subs[0]] + rest
        } else {
            rest
        }
    }
}

/// The subscribers to whom the record was fully written, in pool order.
pub open spec fn delivered_to(subs: Seq<u64>, outs: Seq<WriteOutcome>) -> Seq<u64>
    decreases subs.len(),
{
    if subs.len() == 0 {
        Seq::<u64>::empty()
    } else {
        let rest = delivered_to(subs.skip(1), outs.skip(1));
        if outs[0] is Delivered {
            seq![subs[0]] + rest
        } else {
            rest
        }
    }
}

/// No handle occurs twice.
pub open spec fn nodup(subs: Seq<u64>) -> bool {
    forall|i: int, j: int| 0 <= i < j < subs.len() ==> subs[i] != subs[j]
}

/// Everything surviving a pass was in the pool before it.
proof fn lemma_surviving_member(subs: Seq<u64>, outs: Seq<WriteOutcome>)
    ensures
        forall|x: u64| #[trigger] surviving(subs, outs).contains(x) ==> subs.contains(x),
    decreases subs.len(),
{
    if subs.len() > 0 {
        lemma_surviving_member(subs.skip(1), outs.skip(1));
        assert forall|x: u64| #[trigger] surviving(subs, outs).contains(x) implies subs.contains(
            x,
        ) by {
            if surviving(subs.skip(1), outs.skip(1)).contains(x) {
                let i = choose|i: int|
                    0 <= i < subs.skip(1).len() && subs.skip(1)[i] == x;
                assert(subs[i + 1] == x);
            } else {
                assert(subs[0] == x);
            }
        }
    }
}

/// A pass never duplicates a handle.
proof fn lemma_surviving_nodup(subs: Seq<u64>, outs: Seq<WriteOutcome>)
    requires
        nodup(subs),
    ensures
        nodup(surviving(subs, outs)),
    decreases subs.len(),
{
    if subs.len() > 0 {
        assert forall|i: int, j: int|
            0 <= i < j < subs.skip(1).len() implies subs.skip(1)[i] != subs.skip(1)[j] by {
            assert(subs.skip(1)[i] == subs[i + 1]);
            assert(subs.skip(1)[j] == subs[j + 1]);
        }
        lemma_surviving_nodup(subs.skip(1), outs.skip(1));
        lemma_surviving_member(subs.skip(1), outs.skip(1));
        let s = surviving(subs, outs);
        if keeps(outs[0]) {
            let rest = surviving(subs.skip(1), outs.skip(1));
            assert forall|i: int, j: int| 0 <= i < j < s.len() implies s[i] != s[j] by {
                if i == 0 {
                    assert(rest.contains(s[j])) by {
                        assert(rest[j - 1] == s[j]);
                    }
                    assert(subs.skip(1).contains(s[j]));
                    let k = choose|k: int|
                        0 <= k < subs.skip(1).len() && subs.skip(1)[k] == s[j];
                    assert(subs[k + 1] == s[j]);
                    assert(subs[0] != subs[k + 1]);
                }
            }
        }
    }
}

/// Fan-out: when every write succeeds, one broadcast pass delivers the
/// record to each subscriber exactly as listed — the delivery list is the
/// subscriber list itself — and no subscriber is removed.
pub proof fn lemma_fanout(subs: Seq<u64>, outs: Seq<WriteOutcome>)
    requires
        outs.len() == subs.len(),
        forall|j: int| 0 <= j < outs.len() ==> outs[j] is Delivered,
    ensures
        delivered_to(subs, outs) == subs,
        surviving(subs, outs) == subs,
    decreases subs.len(),
{
    if subs.len() > 0 {
        assert forall|j: int| 0 <= j < outs.skip(1).len() implies outs.skip(1)[j]
            is Delivered by {
            assert(outs.skip(1)[j] == outs[j + 1]);
        }
        lemma_fanout(subs.skip(1), outs.skip(1));
        assert(delivered_to(subs, outs) =~= subs);
        assert(surviving(subs, outs) =~= subs);
    } else {
        assert(delivered_to(subs, outs) =~= subs);
        assert(surviving(subs, outs) =~= subs);
    }
}

/// Pruning: when subscriber `k`'s write fails with a disconnect and every
/// other write succeeds, the pass still delivered the record to all others,
/// and exactly subscriber `k` is gone afterwards.
pub proof fn lemma_pruning(subs: Seq<u64>, outs: Seq<WriteOutcome>, k: int)
    requires
        nodup(subs),
        outs.len() == subs.len(),
        0 <= k < subs.len(),
        outs[k] is Disconnected,
        forall|j: int| 0 <= j < outs.len() && j != k ==> outs[j] is Delivered,
    ensures
        surviving(subs, outs) == subs.remove(k),
        delivered_to(subs, outs) == subs.remove(k),
        !surviving(subs, outs).contains(subs[k]),
    decreases subs.len(),
{
    assert forall|i: int, j: int|
        0 <= i < j < subs.skip(1).len() implies subs.skip(1)[i] != subs.skip(1)[j] by {
        assert(subs.skip(1)[i] == subs[i + 1]);
        assert(subs.skip(1)[j] == subs[j + 1]);
    }
    if k == 0 {
        assert forall|j: int| 0 <= j < outs.skip(1).len() implies outs.skip(1)[j]
            is Delivered by {
            assert(outs.skip(1)[j] == outs[j + 1]);
        }
        lemma_fanout(subs.skip(1), outs.skip(1));
        assert(surviving(subs, outs) =~= subs.remove(0));
        assert(delivered_to(subs, outs) =~= subs.remove(0));
    } else {
        assert forall|j: int|
            0 <= j < outs.skip(1).len() && j != k - 1 implies outs.skip(1)[j] is Delivered by {
            assert(outs.skip(1)[j] == outs[j + 1]);
        }
        assert(outs.skip(1)[k - 1] is Disconnected) by {
            assert(outs.skip(1)[k - 1] == outs[k]);
        }
        lemma_pruning(subs.skip(1), outs.skip(1), k - 1);
        assert(surviving(subs, outs) =~= subs.remove(k));
        assert(delivered_to(subs, outs) =~= subs.remove(k));
    }
    assert forall|i: int| 0 <= i < subs.remove(k).len() implies subs.remove(k)[i] != subs[k] by {
        if i < k {
            assert(subs.remove(k)[i] == subs[i]);
        } else {
            assert(subs.remove(k)[i] == subs[i + 1]);
        }
    }
    if surviving(subs, outs).contains(subs[k]) {
        let i = choose|i: int|
            0 <= i < surviving(subs, outs).len() && surviving(subs, outs)[i] == subs[k];
        assert(subs.remove(k)[i] == subs[k]);
    }
}

/// Thread-safe use is the caller's: the pool is mutated only under one
/// lock, held for a whole broadcast pass or a single mutation.
pub struct SubscriberPool {
    ids: Vec<u64>,
    next_id: u64,
}

impl SubscriberPool {
    /// The subscriber handles, in accept order.
    pub closed spec fn subscribers(self) -> Seq<u64> {
        self.ids@
    }

    /// The handle the next accepted subscriber will get.
    pub closed spec fn next_handle(self) -> u64 {
        self.next_id
    }

    /// Handles are unique and below the next handle to be issued.
    pub open spec fn wf(self) -> bool {
        &&& nodup(self.subscribers())
        &&& forall|i: int|
            0 <= i < self.subscribers().len() ==> #[trigger] self.subscribers()[i]
                < self.next_handle()
    }

    pub fn new() -> (r: Self)
        ensures
            r.wf(),
            r.subscribers() == Seq::<u64>::empty(),
            r.next_handle() == 0,
    {
        SubscriberPool { ids: Vec::new(), next_id: 0 }
    }

    pub fn subscriber_count(&self) -> (n: usize)
        ensures
            n == self.subscribers().len(),
    {
        self.ids.len()
    }

    /// Whether another subscriber can still be given a fresh handle.
    pub fn can_accept(&self) -> (b: bool)
        ensures
            b == (self.next_handle() < u64::MAX),
    {
        self.next_id < u64::MAX
    }

    /// Append a newly accepted subscriber and hand back its fresh handle.
    pub fn accept_subscriber(&mut self) -> (id: u64)
        requires
            old(self).wf(),
            old(self).next_handle() < u64::MAX,
        ensures
            final(self).wf(),
            final(self).subscribers() == old(self).subscribers().push(id),
            !old(self).subscribers().contains(id),
            id == old(self).next_handle(),
            final(self).next_handle() == old(self).next_handle() + 1,
    {
        let id = self.next_id;
        self.next_id = self.next_id + 1;
        self.ids.push(id);
        proof {
            if old(self).subscribers().contains(id) {
                let i = choose|i: int|
                    0 <= i < old(self).subscribers().len() && old(self).subscribers()[i] == id;
            }
            assert forall|i: int, j: int|
                0 <= i < j < self.ids@.len() implies self.ids@[i] != self.ids@[j] by {
                if j == self.ids@.len() - 1 {
                    assert(old(self).subscribers()[i] < id);
                }
            }
        }
        id
    }

    /// Apply one broadcast pass's outcomes, reported in pool order: remove,
    /// in one sweep after the full pass, exactly the subscribers whose
    /// write failed with a disconnect.
    pub fn apply_broadcast(&mut self, outcomes: &Vec<WriteOutcome>)
        requires
            old(self).wf(),
            outcomes.len() == old(self).subscribers().len(),
        ensures
            final(self).wf(),
            final(self).subscribers() == surviving(old(self).subscribers(), outcomes@),
            final(self).next_handle() == old(self).next_handle(),
    {
        let ghost subs = self.ids@;
        let ghost outs = outcomes@;
        let mut kept: Vec<u64> = Vec::new();
        let mut i: usize = 0;
        proof {
            assert(subs.skip(0) =~= subs);
            assert(outs.skip(0) =~= outs);
            assert(surviving(subs, outs) =~= Seq::<u64>::empty() + surviving(subs, outs));
        }
        while i < self.ids.len()
            invariant
                i <= self.ids@.len(),
                self.ids@ == subs,
                outs == outcomes@,
                outs.len() == subs.len(),
                surviving(subs, outs) == kept@ + surviving(
                    subs.skip(i as int),
                    outs.skip(i as int),
                ),
            decreases self.ids@.len() - i,
        {
            proof {
                assert(subs.skip(i as int).skip(1) =~= subs.skip(i as int + 1));
                assert(outs.skip(i as int).skip(1) =~= outs.skip(i as int + 1));
                assert(subs.skip(i as int)[0] == subs[i as int]);
                assert(outs.skip(i as int)[0] == outs[i as int]);
            }
            let ghost prev = kept@;
            match outcomes[i] {
                WriteOutcome::Disconnected => {
                }
                _ => {
                    kept.push(self.ids[i]);
                }
            }
            proof {
                assert(surviving(subs, outs) =~= kept@ + surviving(
                    subs.skip(i as int + 1),
                    outs.skip(i as int + 1),
                ));
            }
            i = i + 1;
        }
        proof {
            assert(subs.skip(subs.len() as int) =~= Seq::<u64>::empty());
            assert(surviving(subs, outs) =~= kept@);
            lemma_surviving_nodup(subs, outs);
            lemma_surviving_member(subs, outs);
            assert forall|idx: int| 0 <= idx < kept@.len() implies #[trigger] kept@[idx]
                < self.next_id by {
                assert(kept@.contains(kept@[idx]));
                assert(subs.contains(kept@[idx]));
                let j = choose|j: int| 0 <= j < subs.len() && subs[j] == kept@[idx];
            }
        }
        self.ids = kept;
    }
}

} // verus!
