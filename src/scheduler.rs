//! Round-robin scheduling of work descriptors across queue pairs.
use vstd::prelude::*;

use crate::descriptor::ToCardWorkRbDesc;

verus! {

/// The abstract queue: per queue pair, in service order, its pending descriptors.
pub type QueueModel = Seq<(u32, Seq<ToCardWorkRbDesc>)>;

/// Queue pair numbers are distinct and no entry is empty.
pub open spec fn queue_wf(q: QueueModel) -> bool {
    &&& forall|i: int| 0 <= i < q.len() ==> #[trigger] q[i].1.len() > 0
    &&& forall|i: int, j: int| 0 <= i < j < q.len() ==> #[trigger] q[i].0 != #[trigger] q[j].0
}

/// Index of the entry of `qpn` among the first `n` entries, or -1.
pub open spec fn position_in(q: QueueModel, qpn: u32, n: int) -> int
    decreases n,
{
    if n <= 0 {
        -1
    } else if q[n - 1].0 == qpn {
        n - 1
    } else {
        position_in(q, qpn, n - 1)
    }
}

/// Index of the entry of `qpn`, or -1.
pub open spec fn position(q: QueueModel, qpn: u32) -> int {
    position_in(q, qpn, q.len() as int)
}

/// The queue after pushing `batch` for `qpn`: appended to its entry if it
/// has one, else a new entry at the tail. An empty batch changes nothing.
pub open spec fn push_spec(q: QueueModel, qpn: u32, batch: Seq<ToCardWorkRbDesc>) -> QueueModel {
    if batch.len() == 0 {
        q
    } else if position(q, qpn) >= 0 {
        q.update(position(q, qpn), (qpn, q[position(q, qpn)].1 + batch))
    } else {
        q.push((qpn, batch))
    }
}

/// The queue after one pop: the head entry loses its first descriptor and
/// moves to the tail, or leaves when nothing is left in it.
pub open spec fn pop_spec(q: QueueModel) -> QueueModel {
    if q.len() == 0 {
        q
    } else if q[0].1.len() > 1 {
        q.drop_first().push((q[0].0, q[0].1.drop_first()))
    } else {
        q.drop_first()
    }
}

/// The descriptors pending for `qpn`.
pub open spec fn pending(q: QueueModel, qpn: u32) -> Seq<ToCardWorkRbDesc> {
    if position(q, qpn) >= 0 {
        q[position(q, qpn)].1
    } else {
        Seq::empty()
    }
}

/// The queue pairs that `n` successive pops serve.
pub open spec fn served_qpns(q: QueueModel, n: nat) -> Seq<u32>
    decreases n,
{
    if n == 0 || q.len() == 0 {
        Seq::empty()
    } else {
        seq![q[0].0] + served_qpns(pop_spec(q), (n - 1) as nat)
    }
}

/// The queue pair numbers of the entries, in order.
pub open spec fn qpns_of(q: QueueModel) -> Seq<u32> {
    q.map_values(|e: (u32, Seq<ToCardWorkRbDesc>)| e.0)
}

/// The round-robin strategy of the scheduler.
#[derive(Debug)]
pub struct RoundRobinStrategy {
    queue: Vec<(u32, Vec<ToCardWorkRbDesc>)>,
}

impl View for RoundRobinStrategy {
    type V = QueueModel;

    closed spec fn view(&self) -> QueueModel {
        self.queue@.map_values(|e: (u32, Vec<ToCardWorkRbDesc>)| (e.0, e.1@))
    }
}

proof fn lemma_position_in(q: QueueModel, qpn: u32, n: int)
    requires
        0 <= n <= q.len(),
    ensures
        -1 <= position_in(q, qpn, n) < n,
        position_in(q, qpn, n) >= 0 ==> q[position_in(q, qpn, n)].0 == qpn,
        position_in(q, qpn, n) < 0 ==> forall|i: int| 0 <= i < n ==> q[i].0 != qpn,
    decreases n,
{
    if n > 0 {
        lemma_position_in(q, qpn, n - 1);
    }
}

/// In a well-formed queue, the entry of `qpn` is the one whose number is `qpn`.
pub proof fn lemma_position(q: QueueModel, qpn: u32)
    requires
        queue_wf(q),
    ensures
        -1 <= position(q, qpn) < q.len(),
        position(q, qpn) >= 0 ==> q[position(q, qpn)].0 == qpn,
        position(q, qpn) < 0 ==> forall|i: int| 0 <= i < q.len() ==> q[i].0 != qpn,
        forall|i: int| 0 <= i < q.len() && q[i].0 == qpn ==> position(q, qpn) == i,
{
    lemma_position_in(q, qpn, q.len() as int);
}

impl RoundRobinStrategy {
    /// An empty scheduler.
    pub fn new() -> (r: RoundRobinStrategy)
        ensures
            r@ == Seq::<(u32, Seq<ToCardWorkRbDesc>)>::empty(),
            queue_wf(r@),
    {
        let r = RoundRobinStrategy { queue: Vec::new() };
        assert(r@ =~= Seq::<(u32, Seq<ToCardWorkRbDesc>)>::empty());
        r
    }

    /// Queues `desc` behind what is pending for `qpn`.
    pub fn push(&mut self, qpn: u32, desc: Vec<ToCardWorkRbDesc>)
        requires
            queue_wf(old(self)@),
        ensures
            queue_wf(final(self)@),
            final(self)@ == push_spec(old(self)@, qpn, desc@),
    {
        let mut batch = desc;
        let ghost batch0 = batch@;
        if batch.len() == 0 {
            return;
        }
        proof {
            lemma_position(self@, qpn);
        }
        let n = self.queue.len();
        let mut i: usize = 0;
        while i < n
            invariant
                n == self.queue@.len(),
                i <= n,
                self@ == old(self)@,
                queue_wf(self@),
                batch@ == batch0,
                batch0 == desc@,
                batch0.len() > 0,
                forall|k: int| 0 <= k < i ==> self@[k].0 != qpn,
            decreases n - i,
        {
            if self.queue[i].0 == qpn {
                let ghost q0 = self@;
                let mut entry = self.queue.remove(i);
                
                entry.1.append(&mut batch);
                self.queue.insert(i, entry);
                proof {
                    lemma_position(q0, qpn);
                    assert(q0[i as int].0 == qpn);
                    assert(position(q0, qpn) == i);
                    assert(self@ =~= q0.update(i as int, (qpn, q0[i as int].1 + batch0)));
                    assert(forall|k: int| 0 <= k < self@.len() ==> #[trigger] self@[k].0 == q0[k].0);
                }
                return;
            }
            i = i + 1;
        }
        let ghost q0 = self@;
        proof {
            lemma_position(q0, qpn);
        }
        self.queue.push((qpn, batch));
        assert(self@ =~= q0.push((qpn, batch0)));
    }

    /// Takes the first descriptor of the head entry and moves that entry to the
    /// tail, or drops it when it is empty; `None` when nothing is pending.
    pub fn pop(&mut self) -> (r: Option<ToCardWorkRbDesc>)
        requires
            queue_wf(old(self)@),
        ensures
            queue_wf(final(self)@),
            final(self)@ == pop_spec(old(self)@),
            old(self)@.len() == 0 ==> r is None,
            old(self)@.len() > 0 ==> r == Some(old(self)@[0].1[0]),
    {
        if self.queue.len() == 0 {
            return None;
        }
        let ghost q0 = self@;
        let (qpn, mut list) = self.queue.remove(0);
        assert(list@.len() > 0) by {
            assert(q0[0].1 == list@);
        }
        let desc = list.remove(0);
        if list.len() > 0 {
            self.queue.push((qpn, list));
            assert(self@ =~= q0.drop_first().push((q0[0].0, q0[0].1.drop_first())));
        } else {
            assert(self@ =~= q0.drop_first());
        }
        Some(desc)
    }
}

/// Pushing and popping keep a queue well formed.
pub proof fn lemma_wf_preserved(q: QueueModel, qpn: u32, batch: Seq<ToCardWorkRbDesc>)
    requires
        queue_wf(q),
    ensures
        queue_wf(push_spec(q, qpn, batch)),
        queue_wf(pop_spec(q)),
{
    lemma_position(q, qpn);
    let p = push_spec(q, qpn, batch);
    if batch.len() > 0 && position(q, qpn) >= 0 {
        assert(forall|k: int| 0 <= k < p.len() ==> #[trigger] p[k].0 == q[k].0);
    }
    let r = pop_spec(q);
    if q.len() > 0 {
        assert(forall|k: int| 0 <= k < q.len() - 1 ==> #[trigger] r[k] == q[k + 1]);
    }
}

/// In a popped queue, every entry but the served one keeps its pending descriptors.
proof fn lemma_pop_shift(q: QueueModel, other: u32)
    requires
        queue_wf(q),
        q.len() > 0,
    ensures
        other != q[0].0 ==> pending(pop_spec(q), other) == pending(q, other),
        pending(q, q[0].0) == seq![q[0].1[0]] + pending(pop_spec(q), q[0].0),
{
    let r = pop_spec(q);
    lemma_wf_preserved(q, other, Seq::empty());
    lemma_position(q, other);
    lemma_position(r, other);
    lemma_position(q, q[0].0);
    lemma_position(r, q[0].0);
    assert(forall|k: int| 0 <= k < q.len() - 1 ==> #[trigger] r[k] == q[k + 1]);
    if other != q[0].0 && position(q, other) >= 0 {
        let j = position(q, other);
        assert(r[j - 1].0 == other);
    }
    if q[0].1.len() > 1 {
        assert(r[r.len() - 1].0 == q[0].0);
        assert(q[0].1 =~= seq![q[0].1[0]] + q[0].1.drop_first());
    } else {
        assert(q[0].1 =~= seq![q[0].1[0]]);
    }
}

/// First in, first out per queue pair: a push appends the batch to what is
/// pending for its queue pair and leaves every other queue pair alone; a pop
/// takes the oldest pending descriptor of the head queue pair and nothing else.
pub proof fn lemma_fifo_per_qpn(q: QueueModel, qpn: u32, batch: Seq<ToCardWorkRbDesc>, other: u32)
    requires
        queue_wf(q),
    ensures
        pending(push_spec(q, qpn, batch), qpn) == pending(q, qpn) + batch,
        other != qpn ==> pending(push_spec(q, qpn, batch), other) == pending(q, other),
        q.len() > 0 ==> pending(q, q[0].0) == seq![q[0].1[0]] + pending(pop_spec(q), q[0].0),
        q.len() > 0 && other != q[0].0 ==> pending(pop_spec(q), other) == pending(q, other),
{
    let p = push_spec(q, qpn, batch);
    lemma_wf_preserved(q, qpn, batch);
    lemma_position(q, qpn);
    lemma_position(q, other);
    lemma_position(p, qpn);
    lemma_position(p, other);
    if batch.len() == 0 {
        assert(pending(q, qpn) + batch =~= pending(q, qpn));
    } else if position(q, qpn) >= 0 {
        let j = position(q, qpn);
        assert(p[j].0 == qpn);
        if other != qpn && position(q, other) >= 0 {
            assert(p[position(q, other)].0 == other);
        }
    } else {
        assert(p[q.len() as int].0 == qpn);
        assert(Seq::<ToCardWorkRbDesc>::empty() + batch =~= batch);
        if other != qpn && position(q, other) >= 0 {
            assert(p[position(q, other)].0 == other);
        }
    }
    if q.len() > 0 {
        lemma_pop_shift(q, other);
    }
}

/// The first `j` pops of a well-formed queue serve its first `j` entries in order.
proof fn lemma_served_prefix(q: QueueModel, j: nat)
    requires
        queue_wf(q),
        j <= q.len(),
    ensures
        served_qpns(q, j) == qpns_of(q).take(j as int),
    decreases j,
{
    if j > 0 {
        let r = pop_spec(q);
        lemma_wf_preserved(q, 0, Seq::empty());
        lemma_served_prefix(r, (j - 1) as nat);
        assert(forall|k: int| 0 <= k < q.len() - 1 ==> #[trigger] r[k] == q[k + 1]);
        assert(served_qpns(q, j) =~= qpns_of(q).take(j as int));
    }
}

/// Round-robin fairness: from any state, the next `q.len()` pops serve every
/// queue pair that has pending work exactly once, in queue order, whatever
/// the depths of their queues.
pub proof fn lemma_round_robin_fair(q: QueueModel)
    requires
        queue_wf(q),
    ensures
        served_qpns(q, q.len()) == qpns_of(q),
        forall|i: int| 0 <= i < q.len() ==> served_qpns(q, q.len()).contains(#[trigger] q[i].0),
{
    lemma_served_prefix(q, q.len());
    assert(qpns_of(q).take(q.len() as int) =~= qpns_of(q));
    assert forall|i: int| 0 <= i < q.len() implies served_qpns(q, q.len()).contains(#[trigger] q[i].0) by {
        assert(served_qpns(q, q.len())[i] == q[i].0);
    }
}

} // verus!
