//! The netflow book: an append-only ledger of relevant transfers and a
//! latest-wins series of netflow snapshots per exchange label.
use vstd::prelude::*;

use crate::amount::{amount_bound, Amount};
use crate::netflow::{abs, Netflow};
use crate::registry::Address;
use crate::transfer::{ClassifiedFlow, TransferEvent};

verus! {

/// One row of the transfer ledger.
#[derive(Clone, Copy, Debug, PartialEq, Eq)]
pub struct TransferRecord {
    pub id: u64,
    pub block_number: u64,
    pub tx_hash: [u8; 32],
    pub from: Address,
    pub to: Address,
    pub amount: Amount,
}

/// One row of the netflow series.
#[derive(Clone, Debug, PartialEq, Eq)]
pub struct NetflowSnapshot {
    pub id: u64,
    pub label: String,
    pub inflow: Amount,
    pub outflow: Amount,
    pub cumulative: Netflow,
}

impl NetflowSnapshot {
    pub open spec fn delta(self) -> int {
        self.inflow.value() - self.outflow.value()
    }
}

#[derive(Clone, Copy, Debug, PartialEq, Eq)]
pub enum StoreError {
    /// The new cumulative netflow would reach 2^256 in magnitude.
    Overflow,
    /// No row identifier is left.
    IdsExhausted,
}

/// `prior + inflow - outflow`, or `None` where its magnitude reaches 2^256.
pub fn next_cumulative(prior: Netflow, inflow: Amount, outflow: Amount) -> (r: Option<Netflow>)
    requires
        prior.wf(),
    ensures
        r.is_some() == (abs(prior.value() + inflow.value() - outflow.value()) < amount_bound()),
        r matches Some(n) ==> n.wf() && n.value() == prior.value() + inflow.value() - outflow.value(),
{
    prior.checked_add(Netflow::from_difference(inflow, outflow))
}

/// The row of `label` with the greatest identifier, if any.
pub open spec fn latest_in(s: Seq<NetflowSnapshot>, label: Seq<char>) -> Option<NetflowSnapshot>
    decreases s.len(),
{
    if s.len() == 0 {
        None
    } else if s.last().label@ == label {
        Some(s.last())
    } else {
        latest_in(s.drop_last(), label)
    }
}

/// The cumulative netflow of `label` in `s`: that of its latest row, or zero.
pub open spec fn cumulative_in(s: Seq<NetflowSnapshot>, label: Seq<char>) -> int {
    match latest_in(s, label) {
        Some(n) => n.cumulative.value(),
        None => 0,
    }
}

/// The sum of inflow minus outflow over the rows of `label` in `s`.
pub open spec fn delta_sum(s: Seq<NetflowSnapshot>, label: Seq<char>) -> int
    decreases s.len(),
{
    if s.len() == 0 {
        0
    } else if s.last().label@ == label {
        delta_sum(s.drop_last(), label) + s.last().delta()
    } else {
        delta_sum(s.drop_last(), label)
    }
}

/// The ledger and the snapshot series. Each write appends one row to each.
#[derive(Clone, Debug)]
pub struct Ledger {
    pub transfers: Vec<TransferRecord>,
    pub snapshots: Vec<NetflowSnapshot>,
}

impl Ledger {
    /// Rows are numbered from 1 in order of insertion, the two relations
    /// grow together, and each cumulative value adds the row's delta to the
    /// previous cumulative value of its label.
    pub open spec fn wf(&self) -> bool {
        let s = self.snapshots@;
        &&& self.transfers@.len() == s.len()
        &&& forall|i: int| 0 <= i < s.len() ==> (#[trigger] s[i]).id == i + 1
        &&& forall|i: int| 0 <= i < s.len() ==> (#[trigger] self.transfers@[i]).id == i + 1
        &&& forall|i: int| 0 <= i < s.len() ==> (#[trigger] s[i]).cumulative.wf()
        &&& forall|i: int| 0 <= i < s.len() ==> (#[trigger] s[i]).cumulative.value()
            == cumulative_in(s.take(i), s[i].label@) + s[i].delta()
    }

    pub fn new() -> (r: Ledger)
        ensures
            r.wf(),
            r.transfers@.len() == 0,
            r.snapshots@.len() == 0,
    {
        Ledger { transfers: Vec::new(), snapshots: Vec::new() }
    }

    /// The position of the latest snapshot of `label`.
    fn latest_position(&self, label: &String) -> (r: Option<usize>)
        ensures
            match r {
                Some(i) => i < self.snapshots@.len() && latest_in(self.snapshots@, label@) == Some(
                    self.snapshots@[i as int],
                ),
                None => latest_in(self.snapshots@, label@) is None,
            },
    {
        let mut i: usize = self.snapshots.len();
        assert(self.snapshots@.take(i as int) =~= self.snapshots@);
        while i > 0
            invariant
                i <= self.snapshots@.len(),
                latest_in(self.snapshots@, label@) == latest_in(self.snapshots@.take(i as int), label@),
            decreases i,
        {
            let ghost s = self.snapshots@.take(i as int);
            assert(s.drop_last() =~= self.snapshots@.take(i - 1));
            if self.snapshots[i - 1].label == *label {
                return Some(i - 1);
            }
            i = i - 1;
        }
        assert(self.snapshots@.take(0) =~= Seq::<NetflowSnapshot>::empty());
        None
    }

    /// The latest snapshot of `label`, or `None` where nothing was recorded
    /// for it.
    pub fn latest(&self, label: &String) -> (r: Option<&NetflowSnapshot>)
        ensures
            match r {
                Some(n) => latest_in(self.snapshots@, label@) == Some(*n),
                None => latest_in(self.snapshots@, label@) is None,
            },
    {
        match self.latest_position(label) {
            Some(i) => Some(&self.snapshots[i]),
            None => None,
        }
    }

    /// The cumulative netflow of `label` (zero before its first snapshot).
    pub fn cumulative(&self, label: &String) -> (r: Netflow)
        requires
            self.wf(),
        ensures
            r.wf(),
            r.value() == cumulative_in(self.snapshots@, label@),
    {
        match self.latest_position(label) {
            Some(i) => self.snapshots[i].cumulative,
            None => Netflow::zero(),
        }
    }

    /// Appends the transfer to the ledger and a snapshot of `flow` whose
    /// cumulative value adds the flow to the label's previous one. Both rows
    /// are appended, or, on an error, neither.
    pub fn record(&mut self, event: &TransferEvent, flow: &ClassifiedFlow) -> (r: Result<(), StoreError>)
        requires
            old(self).wf(),
        ensures
            final(self).wf(),
            r is Err ==> *final(self) == *old(self),
            r == Err::<(), StoreError>(StoreError::IdsExhausted) <==> old(self).snapshots@.len() >= u64::MAX,
            r == Err::<(), StoreError>(StoreError::Overflow) <==> old(self).snapshots@.len() < u64::MAX
                && abs(cumulative_in(old(self).snapshots@, flow.label@) + flow.inflow.value()
                - flow.outflow.value()) >= amount_bound(),
            r is Ok ==> recorded(*old(self), *final(self), *event, *flow),
    {
        let n = self.snapshots.len();
        if n as u128 >= u64::MAX as u128 {
            return Err(StoreError::IdsExhausted);
        }
        let prior = self.cumulative(&flow.label);
        let cumulative = match next_cumulative(prior, flow.inflow, flow.outflow) {
            Some(c) => c,
            None => return Err(StoreError::Overflow),
        };
        let id = n as u64 + 1;
        let transfer = TransferRecord {
            id,
            block_number: event.block_number,
            tx_hash: event.tx_hash,
            from: event.from,
            to: event.to,
            amount: event.amount,
        };
        let snapshot = NetflowSnapshot {
            id,
            label: flow.label.clone(),
            inflow: flow.inflow,
            outflow: flow.outflow,
            cumulative,
        };
        let ghost before = self.snapshots@;
        let ghost before_t = self.transfers@;
        self.transfers.push(transfer);
        self.snapshots.push(snapshot);
        proof {
            let s = self.snapshots@;
            assert(s.take(n as int) =~= before);
            assert forall|i: int| 0 <= i < s.len() implies (#[trigger] s[i]).cumulative.value()
                == cumulative_in(s.take(i), s[i].label@) + s[i].delta() by {
                if i < n {
                    assert(s.take(i) =~= before.take(i));
                }
            }
            assert(s.drop_last() =~= before);
            assert(self.transfers@.drop_last() =~= before_t);
            assert(s.last() == snapshot);
            assert(self.transfers@.last() == transfer);
        }
        Ok(())
    }
}

proof fn lemma_prefix_cumulative_is_sum(l: Ledger, k: int, label: Seq<char>)
    requires
        l.wf(),
        0 <= k <= l.snapshots@.len(),
    ensures
        cumulative_in(l.snapshots@.take(k), label) == delta_sum(l.snapshots@.take(k), label),
    decreases k,
{
    let s = l.snapshots@;
    if k > 0 {
        lemma_prefix_cumulative_is_sum(l, k - 1, label);
        assert(s.take(k).drop_last() =~= s.take(k - 1));
        assert(s.take(k).last() == s[k - 1]);
    }
}

/// Whatever the order and grouping of the writes, the cumulative netflow of
/// every label equals the sum of inflow minus outflow over all of its rows.
pub proof fn lemma_cumulative_is_sum_of_deltas(l: Ledger, label: Seq<char>)
    requires
        l.wf(),
    ensures
        cumulative_in(l.snapshots@, label) == delta_sum(l.snapshots@, label),
{
    lemma_prefix_cumulative_is_sum(l, l.snapshots@.len() as int, label);
    assert(l.snapshots@.take(l.snapshots@.len() as int) =~= l.snapshots@);
}

/// `after` is `before` with one transfer row for `event` and one snapshot
/// row for `flow` appended, the snapshot adding the flow to the label's
/// cumulative netflow.
pub open spec fn recorded(before: Ledger, after: Ledger, event: TransferEvent, flow: ClassifiedFlow) -> bool {
    let n = before.snapshots@.len();
    let t = after.transfers@.last();
    let s = after.snapshots@.last();
    &&& after.transfers@.len() == n + 1
    &&& after.snapshots@.len() == n + 1
    &&& after.transfers@.drop_last() == before.transfers@
    &&& after.snapshots@.drop_last() == before.snapshots@
    &&& t.id == n + 1 && s.id == n + 1
    &&& t.from == event.from && t.to == event.to && t.amount == event.amount
    &&& t.block_number == event.block_number && t.tx_hash == event.tx_hash
    &&& s.label@ == flow.label@ && s.inflow == flow.inflow && s.outflow == flow.outflow
    &&& s.cumulative.value() == cumulative_in(before.snapshots@, flow.label@) + flow.inflow.value()
        - flow.outflow.value()
}

} // verus!
