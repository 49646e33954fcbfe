use std::collections::BTreeMap;
use titan_audit::aggregate::PeriodReceipt;
use titan_audit::audit::{audit, reconcile};
use titan_audit::error::AuditError;
use titan_audit::period::STANDARD_PERIOD_DURATION;
use titan_audit::receipt::{MintingReceipt, ResourceRewards, Reward, ScaledUsage};
use titan_audit::render::{render_header, render_report, render_row};
use titan_audit::report::{node_ids, reconcile_node, report, ReportRow};
use titan_audit::reward::titan_resource_rewards;
use titan_audit::timeline::{NodePeriodResult, NodeResult};

const HEADER: &str = "node_id,p52 titan,p52 uptime,p52 expected TFT,p52 received TFT,p53 titan,p53 uptime,p53 expected TFT,p53 received TFT,p54 titan,p54 uptime,p54 expected TFT,p54 received TFT,p55 titan,p55 uptime,p55 expected TFT,p55 received TFT,p56 titan,p56 uptime,p56 expected TFT,p56 received TFT,p57 titan,p57 uptime,p57 expected TFT,p57 received TFT,Total expected TFT, Total received TFT,Difference (to send)";

const NEUTRAL: &str = ",false,0.000%,0.0000000,0.0000000";

fn entry(period: u32, node_id: u32, policy: u32, node_type: &str, uptime: u64, paid: u64) -> PeriodReceipt {
    PeriodReceipt {
        period,
        receipt: MintingReceipt {
            node_id,
            farming_policy_id: policy,
            node_type: String::from(node_type),
            measured_uptime: uptime,
            tft_connection_price: 50,
            usage: ScaledUsage { cu: 20_000_000, su: 15_000_000, nu: 2_500_000, ip: 10_000_000 },
            reward: Reward { musd: 0, tft: paid },
            resource_rewards: ResourceRewards::default(),
        },
    }
}

fn slot(policy: u32, expected: u64, paid: u64) -> NodePeriodResult {
    NodePeriodResult {
        farming_policy: policy,
        uptime_percentage: 100_000,
        expected_payout: expected,
        actual_payout: paid,
        is_certified: false,
    }
}

fn timeline(slots: &[(u32, NodePeriodResult)]) -> NodeResult {
    let mut timeline = NodeResult::default();
    for (period, result) in slots {
        assert!(timeline.set(*period, *result));
    }
    timeline
}

#[test]
fn header_names_every_column() {
    assert_eq!(render_header(), HEADER);
}

#[test]
fn report_of_nothing_is_the_header_alone() {
    assert_eq!(audit(&Vec::new()), Ok(vec![String::from(HEADER)]));
    assert_eq!(render_report(&Vec::new()), vec![String::from(HEADER)]);
}

#[test]
fn titan_in_one_period_uncertified_in_another() {
    let entries = vec![
        entry(52, 42, 2, "DIY", STANDARD_PERIOD_DURATION, 1_578_100_000),
        entry(53, 42, 1, "DIY", STANDARD_PERIOD_DURATION / 2, 100),
    ];
    let rows = reconcile(&entries, &titan_resource_rewards()).unwrap();
    assert_eq!(rows.len(), 1);
    let row = &rows[0];
    assert_eq!(row.node_id, 42);
    assert!(row.result.periods[0].is_titan());
    assert_eq!(row.result.periods[0].expected_payout, row.result.periods[0].actual_payout);
    assert_eq!(row.result.periods[0].uptime_percentage, 100_000);
    assert!(!row.result.periods[1].is_titan());
    for slot in 2..6 {
        assert_eq!(row.result.periods[slot], NodePeriodResult::default());
    }
    assert_eq!(row.total_expected, 2_367_150_000);
    assert_eq!(row.total_received, 1_578_100_100);
    assert_eq!(row.difference, 789_049_900);
    let lines = audit(&entries).unwrap();
    assert_eq!(
        lines,
        vec![
            String::from(HEADER),
            format!(
                "42,true,100.000%,157.8100000,157.8100000,false,50.000%,78.9050000,0.0000100{}{}{}{},236.7150000,157.8100100,78.9049900",
                NEUTRAL, NEUTRAL, NEUTRAL, NEUTRAL
            ),
        ]
    );
}

#[test]
fn titan_in_exactly_one_period_leaves_the_others_neutral() {
    let entries = vec![entry(55, 7, 1, "CERTIFIED", 1_000_000, 4_284_552_262)];
    let lines = audit(&entries).unwrap();
    assert_eq!(
        lines[1],
        format!(
            "7{}{}{},true,38.010%,59.9837316,428.4552262{}{},59.9837316,428.4552262,-368.4714946",
            NEUTRAL, NEUTRAL, NEUTRAL, NEUTRAL, NEUTRAL
        )
    );
    assert_eq!(lines.len(), 2);
}

#[test]
fn node_that_was_never_titan_is_left_out() {
    let entries = vec![
        entry(52, 1, 1, "DIY", 1_000_000, 5),
        entry(53, 1, 0, "CERTIFIED", 1_000_000, 5),
        entry(54, 1, 3, "CERTIFIED", 1_000_000, 5),
        entry(52, 2, 1, "Certified", 1_000_000, 5),
    ];
    assert_eq!(reconcile(&entries, &titan_resource_rewards()).unwrap().len(), 0);
    assert_eq!(audit(&entries), Ok(vec![String::from(HEADER)]));
}

#[test]
fn rows_go_up_by_node_id_whatever_the_order_of_the_receipts() {
    let entries = vec![
        entry(52, 300, 2, "DIY", 0, 0),
        entry(52, 20, 1, "DIY", 0, 0),
        entry(52, 1000, 1, "CERTIFIED", 0, 0),
        entry(53, 20, 1, "DIY", 0, 0),
        entry(52, 4, 2, "DIY", 0, 0),
        entry(57, 300, 1, "DIY", 0, 0),
    ];
    let rows = reconcile(&entries, &titan_resource_rewards()).unwrap();
    let ids: Vec<u32> = rows.iter().map(|row| row.node_id).collect();
    assert_eq!(ids, vec![4, 300, 1000]);
    let lines = audit(&entries).unwrap();
    assert_eq!(lines.len(), 4);
    assert!(lines[1].starts_with("4,true,"));
    assert!(lines[2].starts_with("300,true,"));
    assert!(lines[3].starts_with("1000,true,"));
}

#[test]
fn overpaid_by_one_unit_shows_a_negative_difference() {
    let entries = vec![entry(52, 5, 2, "DIY", 0, 1)];
    let rows = reconcile(&entries, &titan_resource_rewards()).unwrap();
    assert_eq!(rows[0].difference, -1);
    let line = render_row(&rows[0]);
    assert!(line.ends_with(",0.0000000,0.0000001,-0.0000001"));
}

#[test]
fn running_twice_gives_the_same_lines() {
    let entries = vec![
        entry(52, 300, 2, "DIY", 77_777, 123),
        entry(53, 20, 1, "CERTIFIED", 2_000_000, 456),
        entry(52, 20, 1, "DIY", 1_000_000, 789),
    ];
    let first = audit(&entries).unwrap();
    let second = audit(&entries).unwrap();
    assert_eq!(first, second);
    assert_eq!(first.len(), 3);
    let refused = vec![entry(60, 1, 2, "DIY", 0, 0)];
    assert_eq!(audit(&refused), audit(&refused));
}

#[test]
fn totals_add_up_all_six_periods() {
    let result = timeline(&[
        (52, slot(2, 1, 10)),
        (53, slot(1, 20, 200)),
        (54, slot(0, 300, 3_000)),
        (55, slot(1, 4_000, 40_000)),
        (56, slot(2, 50_000, 500_000)),
        (57, slot(9, 600_000, 6_000_000)),
    ]);
    let row = reconcile_node(3, &result).unwrap();
    assert_eq!(row.node_id, 3);
    assert_eq!(row.total_expected, 654_321);
    assert_eq!(row.total_received, 6_543_210);
    assert_eq!(row.difference, -5_888_889);
    assert_eq!(row.result.periods, result.periods);
}

#[test]
fn totals_at_the_edge_of_the_range() {
    let top = i64::MAX as u64;
    let fits = timeline(&[(52, slot(2, u64::MAX, u64::MAX - top))]);
    let row = reconcile_node(1, &fits).unwrap();
    assert_eq!((row.total_expected, row.total_received, row.difference), (u64::MAX, top + 1, i64::MAX));
    let low = timeline(&[(52, slot(2, 0, top + 1))]);
    assert_eq!(reconcile_node(1, &low).unwrap().difference, i64::MIN);
    let below = timeline(&[(52, slot(2, 0, top + 2))]);
    assert_eq!(reconcile_node(1, &below), Err(AuditError::TotalOverflow { node_id: 1 }));
    let above = timeline(&[(52, slot(2, top + 1, 0))]);
    assert_eq!(reconcile_node(9, &above), Err(AuditError::TotalOverflow { node_id: 9 }));
    let sum = timeline(&[(52, slot(2, u64::MAX, u64::MAX)), (57, slot(2, 1, 1))]);
    assert_eq!(reconcile_node(2, &sum), Err(AuditError::TotalOverflow { node_id: 2 }));
}

#[test]
fn totals_out_of_range_stop_the_run_at_the_lowest_titan() {
    let mut results = BTreeMap::new();
    results.insert(30u32, timeline(&[(52, slot(2, 0, u64::MAX))]));
    results.insert(10u32, timeline(&[(52, slot(2, 5, 4))]));
    results.insert(20u32, timeline(&[(52, slot(2, 0, u64::MAX)), (53, slot(2, 0, 1))]));
    results.insert(5u32, timeline(&[(52, slot(0, 0, u64::MAX))]));
    assert_eq!(node_ids(&results), vec![5, 10, 20, 30]);
    assert_eq!(report(&results), Err(AuditError::TotalOverflow { node_id: 20 }));
    results.remove(&20);
    assert_eq!(report(&results), Err(AuditError::TotalOverflow { node_id: 30 }));
    results.remove(&30);
    let rows = report(&results).unwrap();
    assert_eq!(rows.len(), 1);
    assert_eq!((rows[0].node_id, rows[0].difference), (10, 1));
}

#[test]
fn totals_out_of_range_are_refused_by_the_whole_run() {
    let entries = vec![entry(52, 8, 2, "DIY", 0, u64::MAX), entry(53, 8, 1, "DIY", 0, 1)];
    assert_eq!(audit(&entries), Err(AuditError::TotalOverflow { node_id: 8 }));
    let harmless = vec![entry(52, 8, 1, "DIY", 0, u64::MAX), entry(53, 8, 1, "DIY", 0, 1)];
    assert_eq!(audit(&harmless), Ok(vec![String::from(HEADER)]));
}

#[test]
fn faulty_receipt_is_refused_by_the_whole_run() {
    let entries = vec![entry(52, 8, 2, "DIY", 0, 0), entry(52, 8, 2, "DIY", 0, 0)];
    assert_eq!(audit(&entries), Err(AuditError::DuplicateReceipt { node_id: 8, period: 52 }));
    assert_eq!(
        reconcile(&entries, &titan_resource_rewards()).unwrap_err(),
        AuditError::DuplicateReceipt { node_id: 8, period: 52 }
    );
}

#[test]
fn row_renders_what_it_holds() {
    let row = ReportRow {
        node_id: 4_000_000_000,
        result: timeline(&[(57, slot(2, 10_000_000, 5))]),
        total_expected: 10_000_000,
        total_received: 5,
        difference: 9_999_995,
    };
    assert_eq!(
        render_row(&row),
        format!(
            "4000000000{}{}{}{}{},true,100.000%,1.0000000,0.0000005,1.0000000,0.0000005,0.9999995",
            NEUTRAL, NEUTRAL, NEUTRAL, NEUTRAL, NEUTRAL
        )
    );
}
