//! Grouping of receipts into one timeline per node.

use std::collections::{BTreeMap, BTreeSet};
use vstd::prelude::*;
use vstd::laws_cmp::group_laws_cmp;
use vstd::std_specs::btree::group_btree_axioms;
use crate::error::AuditError;
use crate::period::{is_recognized, period_slot, slot_of};
use crate::receipt::{MintingReceipt, ResourceRewards};
use crate::reward::RewardError;
use crate::timeline::{neutral_period, period_outcome, NodePeriodResult, NodeResult};

verus! {

/// A receipt together with the period under which it is filed.
#[derive(Clone, Debug)]
pub struct PeriodReceipt {
    pub period: u32,
    pub receipt: MintingReceipt,
}

impl PeriodReceipt {
    /// Whether this is a receipt of `node_id` for `period`.
    pub open spec fn is_for(&self, node_id: u32, period: u32) -> bool {
        self.receipt.node_id == node_id && self.period == period
    }

    /// Whether this is a receipt of `node_id`.
    pub open spec fn is_of(&self, node_id: u32) -> bool {
        self.receipt.node_id == node_id
    }

    /// What `evaluate` returns: the period result of the receipt, or the
    /// reason why the receipt alone already stops the run.
    pub open spec fn outcome(&self, rates: ResourceRewards) -> Result<NodePeriodResult, AuditError> {
        let node_id = self.receipt.node_id;
        let period = self.period;
        if !is_recognized(period) {
            Err(AuditError::UnknownPeriod { node_id, period })
        } else {
            match period_outcome(self.receipt, rates) {
                Ok(result) => Ok(result),
                Err(RewardError::ZeroConnectionPrice) => Err(
                    AuditError::ZeroConnectionPrice { node_id, period },
                ),
                Err(RewardError::Overflow) => Err(AuditError::RewardOverflow { node_id, period }),
            }
        }
    }

    /// Checks the period and computes the period result of the receipt.
    pub fn evaluate(&self, rates: &ResourceRewards) -> (outcome: Result<
        NodePeriodResult,
        AuditError,
    >)
        ensures
            outcome == self.outcome(*rates),
    {
        let node_id = self.receipt.node_id;
        let period = self.period;
        if period_slot(period).is_none() {
            return Err(AuditError::UnknownPeriod { node_id, period });
        }
        match NodePeriodResult::from_receipt(&self.receipt, rates) {
            Ok(result) => Ok(result),
            Err(RewardError::ZeroConnectionPrice) => Err(
                AuditError::ZeroConnectionPrice { node_id, period },
            ),
            Err(RewardError::Overflow) => Err(AuditError::RewardOverflow { node_id, period }),
        }
    }
}

/// Whether one of the first `upto` entries is a receipt of `node_id` for `period`.
pub open spec fn has_receipt(entries: Seq<PeriodReceipt>, upto: int, node_id: u32, period: u32) -> bool {
    exists|j: int| 0 <= j < upto && (#[trigger] entries[j]).is_for(node_id, period)
}

/// Whether one of the first `upto` entries is a receipt of `node_id`.
pub open spec fn has_node(entries: Seq<PeriodReceipt>, upto: int, node_id: u32) -> bool {
    exists|j: int| 0 <= j < upto && (#[trigger] entries[j]).is_of(node_id)
}

/// What is wrong with entry `i`, if anything: what its own outcome says, or
/// else that an earlier entry is a receipt of the same node for the same period.
pub open spec fn fault_at(entries: Seq<PeriodReceipt>, rates: ResourceRewards, i: int) -> Option<
    AuditError,
> {
    let node_id = entries[i].receipt.node_id;
    let period = entries[i].period;
    match entries[i].outcome(rates) {
        Err(e) => Some(e),
        Ok(_) => if has_receipt(entries, i, node_id, period) {
            Some(AuditError::DuplicateReceipt { node_id, period })
        } else {
            None
        },
    }
}

/// Whether nothing is wrong with the first `upto` entries.
pub open spec fn faultless(entries: Seq<PeriodReceipt>, rates: ResourceRewards, upto: int) -> bool {
    forall|j: int| 0 <= j < upto ==> (#[trigger] fault_at(entries, rates, j)) is None
}

/// Whether `error` is what is wrong with entry `i`, the first with a fault.
pub open spec fn first_fault(
    entries: Seq<PeriodReceipt>,
    rates: ResourceRewards,
    i: int,
    error: AuditError,
) -> bool {
    &&& 0 <= i < entries.len()
    &&& faultless(entries, rates, i)
    &&& fault_at(entries, rates, i) == Some(error)
}

/// Whether `results` holds the timelines of the first `upto` entries: a
/// timeline for each node that has a receipt and for no other, in it the
/// period result of each receipt in the slot of its period, and the neutral
/// result in each slot for which the node has no receipt.
pub open spec fn is_aggregate(
    entries: Seq<PeriodReceipt>,
    rates: ResourceRewards,
    upto: int,
    results: Map<u32, NodeResult>,
) -> bool {
    &&& forall|node_id: u32| #[trigger]
        results.contains_key(node_id) <==> has_node(entries, upto, node_id)
    &&& forall|j: int|
        0 <= j < upto ==> results.contains_key((#[trigger] entries[j]).receipt.node_id)
            && entries[j].outcome(rates) == Ok::<NodePeriodResult, AuditError>(
            results[entries[j].receipt.node_id]@[slot_of(entries[j].period)],
        )
    &&& forall|node_id: u32, period: u32|
        results.contains_key(node_id) && is_recognized(period) && !#[trigger] has_receipt(
            entries,
            upto,
            node_id,
            period,
        ) ==> results[node_id]@[slot_of(period)] == neutral_period()
}

proof fn lemma_has_receipt_step(entries: Seq<PeriodReceipt>, i: int, node_id: u32, period: u32)
    requires
        0 <= i < entries.len(),
    ensures
        has_receipt(entries, i + 1, node_id, period) <==> has_receipt(entries, i, node_id, period)
            || entries[i].is_for(node_id, period),
{
    if has_receipt(entries, i + 1, node_id, period) {
        let j = choose|j: int| 0 <= j < i + 1 && (#[trigger] entries[j]).is_for(node_id, period);
        if j < i {
            assert(has_receipt(entries, i, node_id, period));
        }
    }
    if has_receipt(entries, i, node_id, period) {
        let j = choose|j: int| 0 <= j < i && (#[trigger] entries[j]).is_for(node_id, period);
        assert(0 <= j < i + 1 && entries[j].is_for(node_id, period));
    }
    if entries[i].is_for(node_id, period) {
        assert(0 <= i < i + 1 && entries[i].is_for(node_id, period));
    }
}

proof fn lemma_has_node_step(entries: Seq<PeriodReceipt>, i: int, node_id: u32)
    requires
        0 <= i < entries.len(),
    ensures
        has_node(entries, i + 1, node_id) <==> has_node(entries, i, node_id) || entries[i].is_of(
            node_id,
        ),
{
    if has_node(entries, i + 1, node_id) {
        let j = choose|j: int| 0 <= j < i + 1 && (#[trigger] entries[j]).is_of(node_id);
        if j < i {
            assert(has_node(entries, i, node_id));
        }
    }
    if has_node(entries, i, node_id) {
        let j = choose|j: int| 0 <= j < i && (#[trigger] entries[j]).is_of(node_id);
        assert(0 <= j < i + 1 && entries[j].is_of(node_id));
    }
    if entries[i].is_of(node_id) {
        assert(0 <= i < i + 1 && entries[i].is_of(node_id));
    }
}

/// One more faultless entry, stored in the slot of its period, keeps the
/// timelines those of the entries read so far.
proof fn lemma_aggregate_step(
    entries: Seq<PeriodReceipt>,
    rates: ResourceRewards,
    i: int,
    before: Map<u32, NodeResult>,
    timeline: NodeResult,
    result: NodePeriodResult,
)
    requires
        0 <= i < entries.len(),
        is_aggregate(entries, rates, i, before),
        fault_at(entries, rates, i) is None,
        entries[i].outcome(rates) == Ok::<NodePeriodResult, AuditError>(result),
        timeline@.len() == 6,
        before.contains_key(entries[i].receipt.node_id) ==> timeline@
            == before[entries[i].receipt.node_id]@.update(slot_of(entries[i].period), result),
        !before.contains_key(entries[i].receipt.node_id) ==> forall|slot: int|
            0 <= slot < 6 ==> timeline@[slot] == (if slot == slot_of(entries[i].period) {
                result
            } else {
                neutral_period()
            }),
    ensures
        is_aggregate(entries, rates, i + 1, before.insert(entries[i].receipt.node_id, timeline)),
{
    let node = entries[i].receipt.node_id;
    let period = entries[i].period;
    let after = before.insert(node, timeline);
    assert(is_recognized(period));
    assert(!has_receipt(entries, i, node, period));
    assert forall|node_id: u32| #[trigger]
        after.contains_key(node_id) <==> has_node(entries, i + 1, node_id) by {
        lemma_has_node_step(entries, i, node_id);
    }
    assert forall|j: int| 0 <= j < i + 1 implies after.contains_key(
        (#[trigger] entries[j]).receipt.node_id,
    ) && entries[j].outcome(rates) == Ok::<NodePeriodResult, AuditError>(
        after[entries[j].receipt.node_id]@[slot_of(entries[j].period)],
    ) by {
        if j < i {
            if entries[j].receipt.node_id == node {
                assert(is_recognized(entries[j].period));
                if entries[j].period == period {
                    assert(entries[j].is_for(node, period));
                    assert(has_receipt(entries, i, node, period));
                }
            }
        }
    }
    assert forall|node_id: u32, p: u32|
        after.contains_key(node_id) && is_recognized(p) && !#[trigger] has_receipt(
            entries,
            i + 1,
            node_id,
            p,
        ) implies after[node_id]@[slot_of(p)] == neutral_period() by {
        lemma_has_receipt_step(entries, i, node_id, p);
        if node_id == node {
            assert(p != period);
        }
    }
}

/// Notes that `node_id` has a receipt for `period`; `false` if that was
/// noted before.
fn note_receipt(seen: &mut BTreeSet<(u32, u32)>, node_id: u32, period: u32) -> (fresh: bool)
    ensures
        fresh == !old(seen)@.contains((node_id, period)),
        final(seen)@ == old(seen)@.insert((node_id, period)),
{
    broadcast use group_btree_axioms;
    broadcast use group_laws_cmp;

    seen.insert((node_id, period))
}

/// The timeline of `node_id` as far as it is known.
pub(crate) fn known_timeline(results: &BTreeMap<u32, NodeResult>, node_id: u32) -> (known: Option<NodeResult>)
    ensures
        known == (if results@.contains_key(node_id) {
            Some(results@[node_id])
        } else {
            None
        }),
{
    broadcast use group_btree_axioms;
    broadcast use group_laws_cmp;

    match results.get(&node_id) {
        Some(timeline) => Some(*timeline),
        None => None,
    }
}

/// Puts `timeline` in the place of what is known of `node_id`.
fn store_timeline(results: &mut BTreeMap<u32, NodeResult>, node_id: u32, timeline: NodeResult)
    ensures
        final(results)@ == old(results)@.insert(node_id, timeline),
{
    broadcast use group_btree_axioms;
    broadcast use group_laws_cmp;

    results.insert(node_id, timeline);
}

/// Builds the timeline of every node from all the receipts of a run.
///
/// The run is refused at the first entry with a fault: a period that is not
/// audited, a receipt whose expected reward cannot be computed, or a second
/// receipt of one node for one period.
pub fn aggregate(entries: &Vec<PeriodReceipt>, rates: &ResourceRewards) -> (outcome: Result<
    BTreeMap<u32, NodeResult>,
    AuditError,
>)
    ensures
        match outcome {
            Ok(results) => faultless(entries@, *rates, entries@.len() as int) && is_aggregate(
                entries@,
                *rates,
                entries@.len() as int,
                results@,
            ),
            Err(error) => exists|i: int| first_fault(entries@, *rates, i, error),
        },
{
    let mut results: BTreeMap<u32, NodeResult> = BTreeMap::new();
    let mut seen: BTreeSet<(u32, u32)> = BTreeSet::new();
    let mut i: usize = 0;
    while i < entries.len()
        invariant
            0 <= i <= entries@.len(),
            faultless(entries@, *rates, i as int),
            is_aggregate(entries@, *rates, i as int, results@),
            forall|node_id: u32, period: u32| #[trigger]
                seen@.contains((node_id, period)) <==> has_receipt(
                    entries@,
                    i as int,
                    node_id,
                    period,
                ),
        decreases entries@.len() - i,
    {
        let entry = &entries[i];
        let node_id = entry.receipt.node_id;
        let period = entry.period;
        let result = match entry.evaluate(rates) {
            Ok(result) => result,
            Err(error) => {
                assert(first_fault(entries@, *rates, i as int, error));
                return Err(error);
            },
        };
        if !note_receipt(&mut seen, node_id, period) {
            let error = AuditError::DuplicateReceipt { node_id, period };
            assert(first_fault(entries@, *rates, i as int, error));
            return Err(error);
        }
        let mut timeline = match known_timeline(&results, node_id) {
            Some(known) => known,
            None => NodeResult::default(),
        };
        timeline.set(period, result);
        proof {
            lemma_aggregate_step(entries@, *rates, i as int, results@, timeline, result);
            assert forall|n: u32, p: u32| #[trigger]
                seen@.contains((n, p)) <==> has_receipt(entries@, i + 1, n, p) by {
                lemma_has_receipt_step(entries@, i as int, n, p);
            }
        }
        store_timeline(&mut results, node_id, timeline);
        i += 1;
    }
    Ok(results)
}

} // verus!
