use titan_audit::period::STANDARD_PERIOD_DURATION;
use titan_audit::receipt::{
    default_farming_policy_id, MintingReceipt, ResourceRewards, Reward, ScaledUsage,
};
use titan_audit::reward::{
    calculate_expected_reward, calculate_expected_titan_reward, titan_resource_rewards,
    RewardError, TFT_PRECISION,
};

fn receipt(usage: ScaledUsage, price: u64, uptime: u64) -> MintingReceipt {
    MintingReceipt {
        node_id: 11,
        farming_policy_id: default_farming_policy_id(),
        node_type: String::from("DIY"),
        measured_uptime: uptime,
        tft_connection_price: price,
        usage,
        reward: Reward { musd: 0, tft: 0 },
        resource_rewards: ResourceRewards::default(),
    }
}

fn usage() -> ScaledUsage {
    ScaledUsage { cu: 20_000_000, su: 15_000_000, nu: 2_500_000, ip: 10_000_000 }
}

#[test]
fn constants_of_the_schedule() {
    assert_eq!(TFT_PRECISION, 10_000_000);
    assert_eq!(STANDARD_PERIOD_DURATION, 24 * 60 * 60 * (365 * 3 + 366 * 2) / 60);
    let titan = titan_resource_rewards();
    assert_eq!((titan.cu, titan.su, titan.nu, titan.ipv4), (3000, 1250, 38, 6));
    let initial = ResourceRewards::default();
    assert_eq!((initial.cu, initial.su, initial.nu, initial.ipv4), (2400, 1000, 30, 5));
    assert_eq!(default_farming_policy_id(), 1);
}

#[test]
fn full_period_earns_the_full_reward() {
    let r = receipt(usage(), 50, STANDARD_PERIOD_DURATION);
    assert_eq!(calculate_expected_titan_reward(&r), Ok(1_578_100_000));
}

#[test]
fn half_period_earns_half_the_reward() {
    let r = receipt(usage(), 50, STANDARD_PERIOD_DURATION / 2);
    assert_eq!(calculate_expected_titan_reward(&r), Ok(789_050_000));
}

#[test]
fn no_uptime_earns_nothing() {
    let r = receipt(usage(), 50, 0);
    assert_eq!(calculate_expected_titan_reward(&r), Ok(0));
}

#[test]
fn uptime_beyond_the_period_earns_more_than_the_full_reward() {
    let r = receipt(usage(), 50, 2 * STANDARD_PERIOD_DURATION);
    assert_eq!(calculate_expected_titan_reward(&r), Ok(3_156_200_000));
}

#[test]
fn price_division_truncates_before_the_uptime_is_applied() {
    let r = receipt(usage(), 7, 1_000_000);
    assert_eq!(calculate_expected_titan_reward(&r), Ok(4_284_552_262));
    let tiny = receipt(ScaledUsage { cu: 3, su: 3, nu: 3, ip: 3 }, 7, 100);
    assert_eq!(calculate_expected_titan_reward(&tiny), Ok(0));
    let unit = receipt(ScaledUsage { cu: 1, su: 1, nu: 1, ip: 1 }, 3, STANDARD_PERIOD_DURATION);
    assert_eq!(calculate_expected_titan_reward(&unit), Ok(1431));
}

#[test]
fn doubled_uptime_doubles_the_reward_up_to_truncation() {
    let once = calculate_expected_titan_reward(&receipt(usage(), 7, 1_000_000)).unwrap();
    let twice = calculate_expected_titan_reward(&receipt(usage(), 7, 2_000_000)).unwrap();
    let thrice = calculate_expected_titan_reward(&receipt(usage(), 7, 3_000_000)).unwrap();
    assert_eq!(twice, 8_569_104_525);
    assert_eq!(thrice, 12_853_656_788);
    assert!(2 * once <= twice && twice < 2 * once + 2);
    assert!(3 * once <= thrice && thrice < 3 * once + 3);
}

#[test]
fn another_schedule_gives_another_reward() {
    let r = receipt(usage(), 50, STANDARD_PERIOD_DURATION);
    assert_eq!(calculate_expected_reward(&r, &ResourceRewards::default()), Ok(1_262_500_000));
    assert_eq!(calculate_expected_reward(&r, &titan_resource_rewards()), Ok(1_578_100_000));
}

#[test]
fn zero_connection_price_is_refused() {
    let r = receipt(usage(), 0, STANDARD_PERIOD_DURATION);
    assert_eq!(calculate_expected_titan_reward(&r), Err(RewardError::ZeroConnectionPrice));
    let idle = receipt(ScaledUsage { cu: 0, su: 0, nu: 0, ip: 0 }, 0, 0);
    assert_eq!(calculate_expected_titan_reward(&idle), Err(RewardError::ZeroConnectionPrice));
}

#[test]
fn usage_term_out_of_range_is_refused() {
    let r = receipt(ScaledUsage { cu: u64::MAX, su: 0, nu: 0, ip: 0 }, 50, 1);
    assert_eq!(calculate_expected_titan_reward(&r), Err(RewardError::Overflow));
    let last = receipt(ScaledUsage { cu: 0, su: 0, nu: 0, ip: u64::MAX / 5 }, 50, 1);
    assert_eq!(calculate_expected_titan_reward(&last), Err(RewardError::Overflow));
}

#[test]
fn usage_sum_out_of_range_is_refused() {
    let third = u64::MAX / 3;
    let rates = ResourceRewards { cu: 1, su: 1, nu: 1, ipv4: 1 };
    let fits = receipt(ScaledUsage { cu: third, su: third, nu: third, ip: 0 }, 1, 0);
    assert_eq!(calculate_expected_reward(&fits, &rates), Ok(0));
    let over = receipt(ScaledUsage { cu: third, su: third, nu: third, ip: 1 }, 1, 0);
    assert_eq!(calculate_expected_reward(&over, &rates), Err(RewardError::Overflow));
}

#[test]
fn uptime_product_out_of_range_is_refused() {
    let rates = ResourceRewards { cu: 1, su: 0, nu: 0, ipv4: 0 };
    let edge = ScaledUsage { cu: u64::MAX / 2, su: 0, nu: 0, ip: 0 };
    assert_eq!(
        calculate_expected_reward(&receipt(edge, 1, 2), &rates),
        Ok((u64::MAX - 1) / STANDARD_PERIOD_DURATION)
    );
    assert_eq!(calculate_expected_reward(&receipt(edge, 1, 3), &rates), Err(RewardError::Overflow));
}

#[test]
fn rewards_subtract_field_by_field_and_stop_at_zero() {
    let a = Reward { musd: 10, tft: 3 };
    let b = Reward { musd: 4, tft: 8 };
    let d = a - b;
    assert_eq!((d.musd, d.tft), (6, 0));
    let e = b - a;
    assert_eq!((e.musd, e.tft), (0, 5));
    let z = a - a;
    assert_eq!((z.musd, z.tft), (0, 0));
}
