//! What holds of every run.

use vstd::prelude::*;
use crate::aggregate::{faultless, first_fault, has_receipt, is_aggregate, PeriodReceipt};
use crate::audit::{is_reconciliation, is_refusal};
use crate::error::AuditError;
use crate::period::{is_recognized, slot_of, FIRST_PERIOD};
use crate::receipt::ResourceRewards;
use crate::render::is_rendering;
use crate::report::{first_total_fault, has_row, is_report, ReportRow};
use crate::timeline::{any_titan, neutral_period, NodePeriodResult, NodeResult};

verus! {

/// The receipts determine the timelines: two sets of timelines of the same
/// entries are the same.
pub proof fn lemma_timelines_determined(
    entries: Seq<PeriodReceipt>,
    rates: ResourceRewards,
    upto: int,
    first: Map<u32, NodeResult>,
    second: Map<u32, NodeResult>,
)
    requires
        is_aggregate(entries, rates, upto, first),
        is_aggregate(entries, rates, upto, second),
    ensures
        first == second,
{
    assert forall|node_id: u32| first.contains_key(node_id) implies second.contains_key(node_id)
        && first[node_id] == second[node_id] by {
        let a = first[node_id];
        let b = second[node_id];
        assert(a@.len() == 6 && b@.len() == 6);
        assert forall|slot: int| 0 <= slot < 6 implies a@[slot] == b@[slot] by {
            let period = (FIRST_PERIOD + slot) as u32;
            assert(is_recognized(period) && slot_of(period) == slot);
            if has_receipt(entries, upto, node_id, period) {
                let j = choose|j: int|
                    0 <= j < upto && (#[trigger] entries[j]).is_for(node_id, period);
                assert(entries[j].outcome(rates) == Ok::<NodePeriodResult, AuditError>(a@[slot]));
                assert(entries[j].outcome(rates) == Ok::<NodePeriodResult, AuditError>(b@[slot]));
            }
        }
        assert(a@ =~= b@);
        assert(a.periods == b.periods);
    }
    assert forall|node_id: u32| second.contains_key(node_id) implies first.contains_key(
        node_id,
    ) by {}
    assert(first =~= second);
}

/// The row that stands `back` places from the end, the last being the first.
spec fn from_end(rows: Seq<ReportRow>, back: int) -> ReportRow {
    rows[rows.len() - back]
}

/// The rows of two reports agree as far as both go back from their ends.
proof fn lemma_rows_agree(
    results: Map<u32, NodeResult>,
    first: Seq<ReportRow>,
    second: Seq<ReportRow>,
    back: int,
)
    requires
        is_report(results, first),
        is_report(results, second),
        0 <= back <= first.len(),
    ensures
        back <= second.len(),
        forall|k: int|
            1 <= k <= back ==> (#[trigger] from_end(first, k)).node_id == from_end(
                second,
                k,
            ).node_id,
    decreases back,
{
    if back > 0 {
        lemma_rows_agree(results, first, second, back - 1);
        let row = first[first.len() - back];
        // the row has a counterpart
        assert(has_row(second, row.node_id));
        let at = choose|at: int| 0 <= at < second.len() && (#[trigger] second[at]).node_id
            == row.node_id;
        // which cannot lie among the rows that already agree
        if at > second.len() - back {
            let k = second.len() - at;
            assert(from_end(first, k).node_id == from_end(second, k).node_id);
            assert(first[first.len() - back].node_id < first[first.len() - k].node_id);
        }
        // nor before the place that is next
        if at < second.len() - back {
            let other = second[second.len() - back];
            assert(has_row(first, other.node_id));
            let there = choose|there: int| 0 <= there < first.len() && (#[trigger] first[there]).node_id
                == other.node_id;
            assert(second[at].node_id < second[second.len() - back].node_id);
            if there > first.len() - back {
                let k = first.len() - there;
                assert(from_end(first, k).node_id == from_end(second, k).node_id);
                assert(second[second.len() - back].node_id < second[second.len() - k].node_id);
            } else if there < first.len() - back {
                assert(first[there].node_id < first[first.len() - back].node_id);
            }
        }
    }
}

/// The timelines determine the report: two reports of the same timelines
/// have the same rows in the same order.
pub proof fn lemma_report_determined(
    results: Map<u32, NodeResult>,
    first: Seq<ReportRow>,
    second: Seq<ReportRow>,
)
    requires
        is_report(results, first),
        is_report(results, second),
    ensures
        first == second,
{
    lemma_rows_agree(results, first, second, first.len() as int);
    lemma_rows_agree(results, second, first, second.len() as int);
    assert forall|k: int| 0 <= k < first.len() implies first[k] == second[k] by {
        let back = first.len() - k;
        assert(from_end(first, back).node_id == from_end(second, back).node_id);
    }
    assert(first =~= second);
}

/// Run twice over the same receipts, the reconciliation gives the same rows.
pub proof fn lemma_reconciliation_determined(
    entries: Seq<PeriodReceipt>,
    rates: ResourceRewards,
    first: Seq<ReportRow>,
    second: Seq<ReportRow>,
)
    requires
        is_reconciliation(entries, rates, first),
        is_reconciliation(entries, rates, second),
    ensures
        first == second,
{
    let upto = entries.len() as int;
    let a = choose|results: Map<u32, NodeResult>|
        #![trigger is_report(results, first)]
        is_aggregate(entries, rates, upto, results) && is_report(results, first);
    let b = choose|results: Map<u32, NodeResult>|
        #![trigger is_report(results, second)]
        is_aggregate(entries, rates, upto, results) && is_report(results, second);
    lemma_timelines_determined(entries, rates, upto, a, b);
    lemma_report_determined(a, first, second);
}

/// Run twice over the same receipts, the audit gives the same lines,
/// character for character.
pub proof fn lemma_audit_idempotent(
    entries: Seq<PeriodReceipt>,
    rates: ResourceRewards,
    first_rows: Seq<ReportRow>,
    first_lines: Seq<Seq<char>>,
    second_rows: Seq<ReportRow>,
    second_lines: Seq<Seq<char>>,
)
    requires
        is_reconciliation(entries, rates, first_rows),
        is_rendering(first_rows, first_lines),
        is_reconciliation(entries, rates, second_rows),
        is_rendering(second_rows, second_lines),
    ensures
        first_lines == second_lines,
{
    lemma_reconciliation_determined(entries, rates, first_rows, second_rows);
    assert forall|k: int| 0 <= k < first_lines.len() implies first_lines[k] == second_lines[k] by {
        if k > 0 {
            assert(first_lines[(k - 1) + 1] == second_lines[(k - 1) + 1]);
        }
    }
    assert(first_lines =~= second_lines);
}

/// A run is refused for one reason only, and a run that is refused has no
/// report.
pub proof fn lemma_refusal_determined(
    entries: Seq<PeriodReceipt>,
    rates: ResourceRewards,
    first: AuditError,
    second: AuditError,
    rows: Seq<ReportRow>,
)
    requires
        is_refusal(entries, rates, first),
    ensures
        is_refusal(entries, rates, second) ==> first == second,
        !(faultless(entries, rates, entries.len() as int) && is_reconciliation(
            entries,
            rates,
            rows,
        )),
{
    let upto = entries.len() as int;
    if exists|i: int| first_fault(entries, rates, i, first) {
        let i = choose|i: int| first_fault(entries, rates, i, first);
        assert(!faultless(entries, rates, upto));
        if is_refusal(entries, rates, second) {
            let j = choose|j: int| first_fault(entries, rates, j, second);
            assert(i == j);
        }
    } else {
        let a = choose|results: Map<u32, NodeResult>|
            #![trigger first_total_fault(results, first)]
            is_aggregate(entries, rates, upto, results) && first_total_fault(results, first);
        if is_refusal(entries, rates, second) {
            if exists|j: int| first_fault(entries, rates, j, second) {
                let j = choose|j: int| first_fault(entries, rates, j, second);
                assert(false);
            }
            let b = choose|results: Map<u32, NodeResult>|
                #![trigger first_total_fault(results, second)]
                is_aggregate(entries, rates, upto, results) && first_total_fault(results, second);
            lemma_timelines_determined(entries, rates, upto, a, b);
            assert(first.node() == second.node());
        }
        if is_reconciliation(entries, rates, rows) {
            let c = choose|results: Map<u32, NodeResult>|
                #![trigger is_report(results, rows)]
                is_aggregate(entries, rates, upto, results) && is_report(results, rows);
            lemma_timelines_determined(entries, rates, upto, a, c);
            assert(has_row(rows, first.node()));
        }
    }
}

/// Every period result in the timelines of a run has an uptime of a hundred
/// percent at most.
pub proof fn lemma_timelines_well_formed(
    entries: Seq<PeriodReceipt>,
    rates: ResourceRewards,
    results: Map<u32, NodeResult>,
    node_id: u32,
    slot: int,
)
    requires
        is_aggregate(entries, rates, entries.len() as int, results),
        results.contains_key(node_id),
        0 <= slot < 6,
    ensures
        results[node_id]@[slot].well_formed(),
{
    let upto = entries.len() as int;
    let period = (FIRST_PERIOD + slot) as u32;
    assert(is_recognized(period) && slot_of(period) == slot);
    if has_receipt(entries, upto, node_id, period) {
        let j = choose|j: int| 0 <= j < upto && (#[trigger] entries[j]).is_for(node_id, period);
        assert(entries[j].outcome(rates) == Ok::<NodePeriodResult, AuditError>(
            results[node_id]@[slot],
        ));
    }
}

/// A node that was a titan in none of its receipts has no row in the report.
pub proof fn lemma_never_titan_has_no_row(
    entries: Seq<PeriodReceipt>,
    rates: ResourceRewards,
    rows: Seq<ReportRow>,
    node_id: u32,
)
    requires
        is_reconciliation(entries, rates, rows),
        forall|j: int|
            0 <= j < entries.len() && (#[trigger] entries[j]).is_of(node_id) ==> !(
            entries[j].outcome(rates) matches Ok(result) && result.titan()),
    ensures
        !has_row(rows, node_id),
{
    let upto = entries.len() as int;
    let results = choose|results: Map<u32, NodeResult>|
        #![trigger is_report(results, rows)]
        is_aggregate(entries, rates, upto, results) && is_report(results, rows);
    if has_row(rows, node_id) {
        let k = choose|k: int| 0 <= k < rows.len() && (#[trigger] rows[k]).node_id == node_id;
        let timeline = results[node_id]@;
        assert(any_titan(timeline));
        let slot = choose|slot: int| 0 <= slot < timeline.len() && (#[trigger] timeline[slot]).titan();
        let period = (FIRST_PERIOD + slot) as u32;
        assert(is_recognized(period) && slot_of(period) == slot);
        assert(!neutral_period().titan());
        assert(has_receipt(entries, upto, node_id, period));
        let j = choose|j: int| 0 <= j < upto && (#[trigger] entries[j]).is_for(node_id, period);
        assert(entries[j].is_of(node_id));
        assert(entries[j].outcome(rates) == Ok::<NodePeriodResult, AuditError>(timeline[slot]));
    }
}

/// A node that was a titan in one period has a row, in which the period of
/// each of its receipts holds what the receipt gives and every other period
/// the neutral result.
pub proof fn lemma_titan_row(
    entries: Seq<PeriodReceipt>,
    rates: ResourceRewards,
    rows: Seq<ReportRow>,
    j: int,
)
    requires
        is_reconciliation(entries, rates, rows),
        0 <= j < entries.len(),
        entries[j].outcome(rates) matches Ok(result) && result.titan(),
    ensures
        exists|k: int|
            0 <= k < rows.len() && {
                let row = #[trigger] rows[k];
                &&& row.node_id == entries[j].receipt.node_id
                &&& entries[j].outcome(rates) == Ok::<NodePeriodResult, AuditError>(
                    row.result@[slot_of(entries[j].period)],
                )
                &&& forall|period: u32|
                    is_recognized(period) && !#[trigger] has_receipt(
                        entries,
                        entries.len() as int,
                        row.node_id,
                        period,
                    ) ==> row.result@[slot_of(period)] == neutral_period()
            },
{
    let upto = entries.len() as int;
    let node_id = entries[j].receipt.node_id;
    let results = choose|results: Map<u32, NodeResult>|
        #![trigger is_report(results, rows)]
        is_aggregate(entries, rates, upto, results) && is_report(results, rows);
    assert(results.contains_key(entries[j].receipt.node_id));
    let timeline = results[node_id]@;
    assert(is_recognized(entries[j].period));
    assert(timeline[slot_of(entries[j].period)].titan());
    assert(any_titan(timeline));
    assert(has_row(rows, node_id));
    let k = choose|k: int| 0 <= k < rows.len() && (#[trigger] rows[k]).node_id == node_id;
    assert(rows[k].result == results[node_id]);
}

} // verus!
