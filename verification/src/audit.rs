//! A whole run: from the receipts to the lines of the report.

use vstd::prelude::*;
use crate::aggregate::{aggregate, faultless, first_fault, is_aggregate, PeriodReceipt};
use crate::error::AuditError;
use crate::receipt::ResourceRewards;
use crate::render::{is_rendering, render_report};
use crate::report::{first_total_fault, is_report, report, ReportRow};
use crate::reward::{titan_resource_rewards, titan_rewards};
use crate::timeline::NodeResult;

verus! {

/// Whether `rows` is the report of the timelines that `entries` give.
pub open spec fn is_reconciliation(
    entries: Seq<PeriodReceipt>,
    rates: ResourceRewards,
    rows: Seq<ReportRow>,
) -> bool {
    exists|results: Map<u32, NodeResult>|
        #![trigger is_report(results, rows)]
        is_aggregate(entries, rates, entries.len() as int, results) && is_report(results, rows)
}

/// Whether `error` is what a run over `entries` is refused for: the first
/// fault among the entries, or, if they have none, the titan with the lowest
/// node id whose totals cannot be given.
pub open spec fn is_refusal(
    entries: Seq<PeriodReceipt>,
    rates: ResourceRewards,
    error: AuditError,
) -> bool {
    ||| exists|i: int| first_fault(entries, rates, i, error)
    ||| faultless(entries, rates, entries.len() as int) && exists|results: Map<u32, NodeResult>|
        #![trigger first_total_fault(results, error)]
        is_aggregate(entries, rates, entries.len() as int, results) && first_total_fault(
            results,
            error,
        )
}

/// Reconciles all the receipts of a run against `rates`: a row for each node
/// that was a titan in some period, by ascending node id.
pub fn reconcile(entries: &Vec<PeriodReceipt>, rates: &ResourceRewards) -> (outcome: Result<
    Vec<ReportRow>,
    AuditError,
>)
    ensures
        match outcome {
            Ok(rows) => faultless(entries@, *rates, entries@.len() as int) && is_reconciliation(
                entries@,
                *rates,
                rows@,
            ),
            Err(error) => is_refusal(entries@, *rates, error),
        },
{
    let results = match aggregate(entries, rates) {
        Ok(results) => results,
        Err(error) => {
            return Err(error);
        },
    };
    match report(&results) {
        Ok(rows) => {
            assert(is_report(results@, rows@));
            Ok(rows)
        },
        Err(error) => {
            assert(first_total_fault(results@, error));
            Err(error)
        },
    }
}

/// Reconciles all the receipts of a run against the titan schedule and
/// renders the report: the title line, then a line for each row.
pub fn audit(entries: &Vec<PeriodReceipt>) -> (outcome: Result<Vec<String>, AuditError>)
    ensures
        match outcome {
            Ok(lines) => faultless(entries@, titan_rewards(), entries@.len() as int)
                && exists|rows: Seq<ReportRow>|
                #![trigger is_reconciliation(entries@, titan_rewards(), rows)]
                is_reconciliation(entries@, titan_rewards(), rows) && is_rendering(
                    rows,
                    lines@.map_values(|line: String| line@),
                ),
            Err(error) => is_refusal(entries@, titan_rewards(), error),
        },
{
    let rates = titan_resource_rewards();
    match reconcile(entries, &rates) {
        Ok(rows) => {
            let lines = render_report(&rows);
            assert(is_reconciliation(entries@, titan_rewards(), rows@));
            Ok(lines)
        },
        Err(error) => Err(error),
    }
}

} // verus!
