//! The rows of the report: one for each node that was ever a titan.

use std::collections::BTreeMap;
use vstd::prelude::*;
use vstd::laws_cmp::group_laws_cmp;
use vstd::std_specs::btree::{axiom_increasing_seq_meaning, group_btree_axioms};
use vstd::std_specs::cmp::OrdSpec;
use vstd::std_specs::iter::IteratorSpec;
use crate::aggregate::known_timeline;
use crate::error::AuditError;
use crate::timeline::{any_titan, NodePeriodResult, NodeResult};

verus! {

/// What the report says of one node.
#[derive(Clone, Copy, Debug, PartialEq, Eq)]
pub struct ReportRow {
    pub node_id: u32,
    /// The node's periods, titan or not.
    pub result: NodeResult,
    /// Sum of the expected payouts of all periods.
    pub total_expected: u64,
    /// Sum of the received payouts of all periods.
    pub total_received: u64,
    /// What is still to send: negative where the node received too much.
    pub difference: i64,
}

/// Sum of the expected payouts of `periods`.
pub open spec fn sum_expected(periods: Seq<NodePeriodResult>) -> int
    decreases periods.len(),
{
    if periods.len() == 0 {
        0
    } else {
        sum_expected(periods.drop_last()) + periods.last().expected_payout
    }
}

/// Sum of the received payouts of `periods`.
pub open spec fn sum_received(periods: Seq<NodePeriodResult>) -> int
    decreases periods.len(),
{
    if periods.len() == 0 {
        0
    } else {
        sum_received(periods.drop_last()) + periods.last().actual_payout
    }
}

/// Whether both totals of a timeline fit in 64 bits, and their difference in
/// 64 bits with a sign.
pub open spec fn totals_fit(periods: Seq<NodePeriodResult>) -> bool {
    &&& sum_expected(periods) <= u64::MAX
    &&& sum_received(periods) <= u64::MAX
    &&& i64::MIN <= sum_expected(periods) - sum_received(periods) <= i64::MAX
}

/// The row of a node with the given timeline.
pub open spec fn row_of(node_id: u32, result: NodeResult) -> ReportRow {
    ReportRow {
        node_id,
        result,
        total_expected: sum_expected(result@) as u64,
        total_received: sum_received(result@) as u64,
        difference: (sum_expected(result@) - sum_received(result@)) as i64,
    }
}

/// Adds up a node's periods and takes expected minus received.
pub fn reconcile_node(node_id: u32, result: &NodeResult) -> (outcome: Result<ReportRow, AuditError>)
    ensures
        totals_fit(result@) ==> outcome == Ok::<ReportRow, AuditError>(row_of(node_id, *result)),
        !totals_fit(result@) ==> outcome == Err::<ReportRow, AuditError>(
            AuditError::TotalOverflow { node_id },
        ),
{
    let mut expected: u128 = 0;
    let mut received: u128 = 0;
    let mut slot: usize = 0;
    while slot < 6
        invariant
            0 <= slot <= 6,
            result@.len() == 6,
            expected == sum_expected(result@.take(slot as int)),
            received == sum_received(result@.take(slot as int)),
            expected <= slot * u64::MAX,
            received <= slot * u64::MAX,
        decreases 6 - slot,
    {
        assert(result@.take(slot + 1).drop_last() =~= result@.take(slot as int));
        expected = expected + result.periods[slot].expected_payout as u128;
        received = received + result.periods[slot].actual_payout as u128;
        slot += 1;
    }
    assert(result@.take(6) =~= result@);
    if expected > u64::MAX as u128 || received > u64::MAX as u128 {
        return Err(AuditError::TotalOverflow { node_id });
    }
    let difference: i128 = expected as i128 - received as i128;
    if difference < i64::MIN as i128 || difference > i64::MAX as i128 {
        return Err(AuditError::TotalOverflow { node_id });
    }
    Ok(
        ReportRow {
            node_id,
            result: *result,
            total_expected: expected as u64,
            total_received: received as u64,
            difference: difference as i64,
        },
    )
}

/// Whether the node ids go strictly up.
pub open spec fn ascending(ids: Seq<u32>) -> bool {
    forall|a: int, b: int| 0 <= a < b < ids.len() ==> ids[a] < ids[b]
}

/// The nodes that have a timeline, in ascending order.
pub fn node_ids(results: &BTreeMap<u32, NodeResult>) -> (ids: Vec<u32>)
    ensures
        ascending(ids@),
        forall|node_id: u32| results@.contains_key(node_id) <==> ids@.contains(node_id),
{
    broadcast use group_btree_axioms;
    broadcast use group_laws_cmp;

    let mut ids: Vec<u32> = Vec::new();
    let ghost keys = results.keys().remaining();
    for node_id in it: results.keys()
        invariant
            ids@ == it.seq().unref().take(it.index()),
    {
        ids.push(*node_id);
    }
    proof {
        assert(ids@ == keys.unref());
        axiom_increasing_seq_meaning::<&u32>(keys);
        assert forall|a: int, b: int| 0 <= a < b < ids@.len() implies ids@[a] < ids@[b] by {
            assert(OrdSpec::cmp_spec(&keys[a], &keys[b]) is Less);
        }
        assert(ids@.to_set() == results@.dom());
        assert forall|node_id: u32| results@.contains_key(node_id) <==> ids@.contains(node_id) by {
            assert(ids@.to_set().contains(node_id) <==> results@.dom().contains(node_id));
        }
    }
    ids
}

/// Whether `rows` has a row for `node_id`.
pub open spec fn has_row(rows: Seq<ReportRow>, node_id: u32) -> bool {
    exists|k: int| 0 <= k < rows.len() && (#[trigger] rows[k]).node_id == node_id
}

/// Whether `node_id` is a titan whose totals cannot be given.
pub open spec fn total_fault(results: Map<u32, NodeResult>, node_id: u32) -> bool {
    results.contains_key(node_id) && any_titan(results[node_id]@) && !totals_fit(
        results[node_id]@,
    )
}

/// Whether `rows` is the report of `results`: the rows go up by node id,
/// each is the row of a node that has a titan period, and every such node
/// has a row.
pub open spec fn is_report(results: Map<u32, NodeResult>, rows: Seq<ReportRow>) -> bool {
    &&& forall|a: int, b: int|
        0 <= a < b < rows.len() ==> (#[trigger] rows[a]).node_id < (#[trigger] rows[b]).node_id
    &&& forall|k: int|
        0 <= k < rows.len() ==> {
            let node_id = (#[trigger] rows[k]).node_id;
            &&& results.contains_key(node_id)
            &&& any_titan(results[node_id]@)
            &&& totals_fit(results[node_id]@)
            &&& rows[k] == row_of(node_id, results[node_id])
        }
    &&& forall|node_id: u32|
        #![trigger results.contains_key(node_id)]
        #![trigger has_row(rows, node_id)]
        results.contains_key(node_id) && any_titan(results[node_id]@) ==> has_row(rows, node_id)
}

/// Whether `error` names the titan with the lowest node id whose totals
/// cannot be given.
pub open spec fn first_total_fault(results: Map<u32, NodeResult>, error: AuditError) -> bool {
    &&& error == AuditError::TotalOverflow { node_id: error.node() }
    &&& total_fault(results, error.node())
    &&& forall|lower: u32| lower < error.node() ==> !#[trigger] total_fault(results, lower)
}

proof fn lemma_has_row_push(rows: Seq<ReportRow>, row: ReportRow, node_id: u32)
    ensures
        has_row(rows.push(row), node_id) <==> has_row(rows, node_id) || row.node_id == node_id,
{
    let longer = rows.push(row);
    if has_row(rows, node_id) {
        let k = choose|k: int| 0 <= k < rows.len() && (#[trigger] rows[k]).node_id == node_id;
        assert(longer[k] == rows[k]);
    }
    if row.node_id == node_id {
        assert(longer[rows.len() as int] == row);
    }
    if has_row(longer, node_id) {
        let k = choose|k: int| 0 <= k < longer.len() && (#[trigger] longer[k]).node_id == node_id;
        if k < rows.len() {
            assert(longer[k] == rows[k]);
        }
    }
}

/// Walks the nodes by ascending id and makes a row for each that has a titan
/// period; the others are left out. Refused at the first titan whose totals
/// do not fit.
pub fn report(results: &BTreeMap<u32, NodeResult>) -> (outcome: Result<Vec<ReportRow>, AuditError>)
    ensures
        match outcome {
            Ok(rows) => is_report(results@, rows@),
            Err(error) => first_total_fault(results@, error),
        },
{
    let ids = node_ids(results);
    let mut rows: Vec<ReportRow> = Vec::new();
    let mut i: usize = 0;
    while i < ids.len()
        invariant
            0 <= i <= ids@.len(),
            ascending(ids@),
            forall|node_id: u32| results@.contains_key(node_id) <==> ids@.contains(node_id),
            forall|a: int, b: int|
                0 <= a < b < rows@.len() ==> (#[trigger] rows@[a]).node_id < (
                #[trigger] rows@[b]).node_id,
            forall|k: int, later: int|
                0 <= k < rows@.len() && i <= later < ids@.len() ==> (#[trigger] rows@[k]).node_id
                    < #[trigger] ids@[later],
            forall|k: int|
                0 <= k < rows@.len() ==> {
                    let node_id = (#[trigger] rows@[k]).node_id;
                    &&& results@.contains_key(node_id)
                    &&& any_titan(results@[node_id]@)
                    &&& totals_fit(results@[node_id]@)
                    &&& rows@[k] == row_of(node_id, results@[node_id])
                },
            forall|earlier: int|
                0 <= earlier < i && any_titan(results@[#[trigger] ids@[earlier]]@) ==> has_row(
                    rows@,
                    ids@[earlier],
                ),
            forall|earlier: int|
                0 <= earlier < i ==> !total_fault(results@, #[trigger] ids@[earlier]),
        decreases ids@.len() - i,
    {
        let node_id = ids[i];
        assert(ids@.contains(node_id));
        let result = match known_timeline(results, node_id) {
            Some(result) => result,
            None => {
                i += 1;
                continue;
            },
        };
        // We only really care about nodes which have been a titan at some point
        if result.is_titan() {
            let row = match reconcile_node(node_id, &result) {
                Ok(row) => row,
                Err(error) => {
                    proof {
                        assert forall|lower: u32| lower < node_id implies !#[trigger] total_fault(
                            results@,
                            lower,
                        ) by {
                            if results@.contains_key(lower) {
                                assert(ids@.contains(lower));
                                let at = choose|at: int| 0 <= at < ids@.len() && ids@[at] == lower;
                                assert(at < i);
                            }
                        }
                    }
                    return Err(error);
                },
            };
            proof {
                let ghost before = rows@;
                assert forall|earlier: int|
                    0 <= earlier < i + 1 && any_titan(
                        results@[#[trigger] ids@[earlier]]@,
                    ) implies has_row(before.push(row), ids@[earlier]) by {
                    lemma_has_row_push(before, row, ids@[earlier]);
                }
            }
            rows.push(row);
        }
        i += 1;
    }
    proof {
        assert forall|node_id: u32|
            results@.contains_key(node_id) && any_titan(results@[node_id]@) implies has_row(
            rows@,
            node_id,
        ) by {
            assert(ids@.contains(node_id));
            let at = choose|at: int| 0 <= at < ids@.len() && ids@[at] == node_id;
            assert(any_titan(results@[ids@[at]]@));
        }
    }
    Ok(rows)
}

} // verus!
