//! The report as comma-separated text.

use vstd::prelude::*;
use vstd::string::StringExecFns;
use crate::format::{
    decimal, diff_tft_text, percentage_text, push_decimal, push_diff_tft, push_percentage,
    push_tft, tft_text,
};
use crate::period::{slot_period, FIRST_PERIOD, PERIOD_COUNT};
use crate::report::ReportRow;
use crate::timeline::NodePeriodResult;

verus! {

/// Text of a flag.
pub open spec fn flag_text(flag: bool) -> Seq<char> {
    if flag {
        "true"@
    } else {
        "false"@
    }
}

/// The four columns of one period, each behind a comma: the titan flag, the
/// uptime, the expected and the received TFT.
pub open spec fn period_columns(result: NodePeriodResult) -> Seq<char> {
    ","@ + flag_text(result.titan()) + ","@ + percentage_text(result.uptime_percentage as nat)
        + ","@ + tft_text(result.expected_payout as nat) + ","@ + tft_text(
        result.actual_payout as nat,
    )
}

/// The columns of the first `count` periods, in order.
pub open spec fn periods_columns(periods: Seq<NodePeriodResult>, count: nat) -> Seq<char>
    decreases count,
{
    if count == 0 {
        Seq::empty()
    } else {
        periods_columns(periods, (count - 1) as nat) + period_columns(periods[count - 1])
    }
}

/// The line of a row: the node id, the columns of each period, both totals
/// and the difference.
pub open spec fn row_text(row: ReportRow) -> Seq<char> {
    decimal(row.node_id as nat) + periods_columns(row.result@, PERIOD_COUNT as nat) + ","@
        + tft_text(row.total_expected as nat) + ","@ + tft_text(row.total_received as nat) + ","@
        + diff_tft_text(row.difference as int)
}

/// The four column titles of one period, each behind a comma.
pub open spec fn period_titles(period: nat) -> Seq<char> {
    ",p"@ + decimal(period) + " titan,p"@ + decimal(period) + " uptime,p"@ + decimal(period)
        + " expected TFT,p"@ + decimal(period) + " received TFT"@
}

/// The column titles of the first `count` audited periods, in order.
pub open spec fn periods_titles(count: nat) -> Seq<char>
    decreases count,
{
    if count == 0 {
        Seq::empty()
    } else {
        periods_titles((count - 1) as nat) + period_titles((FIRST_PERIOD + count - 1) as nat)
    }
}

/// The title line of the report.
pub open spec fn header_text() -> Seq<char> {
    "node_id"@ + periods_titles(PERIOD_COUNT as nat)
        + ",Total expected TFT, Total received TFT,Difference (to send)"@
}

/// Whether `lines` is the report of `rows` as text: the title line, then the
/// line of each row in order.
pub open spec fn is_rendering(rows: Seq<ReportRow>, lines: Seq<Seq<char>>) -> bool {
    &&& lines.len() == rows.len() + 1
    &&& lines[0] == header_text()
    &&& forall|k: int| 0 <= k < rows.len() ==> #[trigger] lines[k + 1] == row_text(rows[k])
}

fn push_period_columns(out: &mut String, result: &NodePeriodResult)
    ensures
        final(out)@ == old(out)@ + period_columns(*result),
{
    out.append(",");
    if result.is_titan() {
        out.append("true");
    } else {
        out.append("false");
    }
    out.append(",");
    push_percentage(out, result.uptime_percentage);
    out.append(",");
    push_tft(out, result.expected_payout);
    out.append(",");
    push_tft(out, result.actual_payout);
    assert(final(out)@ =~= old(out)@ + period_columns(*result));
}

/// Renders the line of a row.
pub fn render_row(row: &ReportRow) -> (line: String)
    ensures
        line@ == row_text(*row),
{
    let mut line = String::new();
    push_decimal(&mut line, row.node_id as u64);
    let mut slot: usize = 0;
    while slot < 6
        invariant
            0 <= slot <= 6,
            row.result@.len() == 6,
            line@ == decimal(row.node_id as nat) + periods_columns(row.result@, slot as nat),
        decreases 6 - slot,
    {
        push_period_columns(&mut line, &row.result.periods[slot]);
        slot += 1;
        assert(line@ =~= decimal(row.node_id as nat) + periods_columns(row.result@, slot as nat));
    }
    line.append(",");
    push_tft(&mut line, row.total_expected);
    line.append(",");
    push_tft(&mut line, row.total_received);
    line.append(",");
    push_diff_tft(&mut line, row.difference);
    assert(line@ =~= row_text(*row));
    line
}

fn push_period_titles(out: &mut String, period: u32)
    ensures
        final(out)@ == old(out)@ + period_titles(period as nat),
{
    out.append(",p");
    push_decimal(out, period as u64);
    out.append(" titan,p");
    push_decimal(out, period as u64);
    out.append(" uptime,p");
    push_decimal(out, period as u64);
    out.append(" expected TFT,p");
    push_decimal(out, period as u64);
    out.append(" received TFT");
    assert(final(out)@ =~= old(out)@ + period_titles(period as nat));
}

/// Renders the title line.
pub fn render_header() -> (line: String)
    ensures
        line@ == header_text(),
{
    let mut line = String::new();
    line.append("node_id");
    let mut slot: usize = 0;
    while slot < 6
        invariant
            0 <= slot <= 6,
            line@ == "node_id"@ + periods_titles(slot as nat),
        decreases 6 - slot,
    {
        push_period_titles(&mut line, slot_period(slot));
        slot += 1;
        assert(line@ =~= "node_id"@ + periods_titles(slot as nat));
    }
    line.append(",Total expected TFT, Total received TFT,Difference (to send)");
    line
}

/// Renders the whole report, a line for the titles and one for each row.
pub fn render_report(rows: &Vec<ReportRow>) -> (lines: Vec<String>)
    ensures
        is_rendering(rows@, lines@.map_values(|line: String| line@)),
{
    let mut lines: Vec<String> = Vec::new();
    lines.push(render_header());
    let mut k: usize = 0;
    while k < rows.len()
        invariant
            0 <= k <= rows@.len(),
            lines@.len() == k + 1,
            lines@[0]@ == header_text(),
            forall|r: int| 0 <= r < k ==> (#[trigger] lines@[r + 1])@ == row_text(rows@[r]),
        decreases rows@.len() - k,
    {
        lines.push(render_row(&rows[k]));
        k += 1;
    }
    proof {
        let texts = lines@.map_values(|line: String| line@);
        assert forall|r: int| 0 <= r < rows@.len() implies #[trigger] texts[r + 1] == row_text(
            rows@[r],
        ) by {
            assert(texts[r + 1] == lines@[r + 1]@);
        }
    }
    lines
}

} // verus!
