//! The reward that a node is owed under a given schedule.

use vstd::prelude::*;
use crate::period::STANDARD_PERIOD_DURATION;
use crate::receipt::{MintingReceipt, ResourceRewards, ScaledUsage};

verus! {

/// Precision of 1 TFT.
pub const TFT_PRECISION: u64 = 10_000_000;

/// Why no expected reward could be computed for a receipt.
#[derive(Clone, Copy, Debug, PartialEq, Eq, Structural)]
pub enum RewardError {
    /// The receipt carries a connection price of zero.
    ZeroConnectionPrice,
    /// An intermediate amount does not fit in 64 bits.
    Overflow,
}

/// Farming policy 2, taken from chain.
pub open spec fn titan_rewards() -> ResourceRewards {
    ResourceRewards { cu: 3000, su: 1250, nu: 38, ipv4: 6 }
}

/// The schedule of the titan farming policy.
pub fn titan_resource_rewards() -> (rewards: ResourceRewards)
    ensures
        rewards == titan_rewards(),
{
    ResourceRewards { cu: 3000, su: 1250, nu: 38, ipv4: 6 }
}

/// Reward for a full period in milli USD, still at the scale of the usage.
pub open spec fn scaled_musd(usage: ScaledUsage, rates: ResourceRewards) -> int {
    usage.cu * rates.cu + usage.su * rates.su + usage.nu * rates.nu + usage.ip * rates.ipv4
}

/// Reward for a full period in TFT units. The connection price is in milli USD
/// per TFT, so dividing the upscaled amount by it leaves TFT units.
pub open spec fn full_reward(usage: ScaledUsage, rates: ResourceRewards, price: int) -> int {
    scaled_musd(usage, rates) / price
}

/// Reward in TFT units for the part of a standard period that the node was up:
/// multiplied by the uptime first, divided by the period's duration after.
pub open spec fn expected_reward(
    usage: ScaledUsage,
    rates: ResourceRewards,
    price: int,
    uptime: int,
) -> int {
    full_reward(usage, rates, price) * uptime / (STANDARD_PERIOD_DURATION as int)
}

/// Whether every intermediate amount of the computation fits in 64 bits.
pub open spec fn reward_fits(
    usage: ScaledUsage,
    rates: ResourceRewards,
    price: int,
    uptime: int,
) -> bool {
    &&& scaled_musd(usage, rates) <= u64::MAX
    &&& full_reward(usage, rates, price) * uptime <= u64::MAX
}

/// What `calculate_expected_reward` returns for the given measurements.
pub open spec fn reward_outcome(
    usage: ScaledUsage,
    rates: ResourceRewards,
    price: u64,
    uptime: u64,
) -> Result<u64, RewardError> {
    if price == 0 {
        Err(RewardError::ZeroConnectionPrice)
    } else if !reward_fits(usage, rates, price as int, uptime as int) {
        Err(RewardError::Overflow)
    } else {
        Ok(expected_reward(usage, rates, price as int, uptime as int) as u64)
    }
}

proof fn lemma_product_bounds(a: u64, b: u64)
    ensures
        0 <= a * b,
{
    assert(0 <= a * b) by (nonlinear_arith);
}

proof fn lemma_quotient_bounds(x: int, d: int)
    requires
        0 <= x,
        0 < d,
    ensures
        0 <= x / d <= x,
{
    assert(0 <= x / d <= x) by (nonlinear_arith)
        requires
            0 <= x,
            0 < d,
    ;
}

/// Calculate the reward that `receipt` would have earned under `rates`.
///
/// A connection price of zero is refused, and so is a receipt for which the
/// upscaled milli USD amount or the product with the uptime leaves 64 bits.
pub fn calculate_expected_reward(receipt: &MintingReceipt, rates: &ResourceRewards) -> (outcome:
    Result<u64, RewardError>)
    ensures
        outcome == reward_outcome(
            receipt.usage,
            *rates,
            receipt.tft_connection_price,
            receipt.measured_uptime,
        ),
        outcome matches Ok(reward) ==> reward == expected_reward(
            receipt.usage,
            *rates,
            receipt.tft_connection_price as int,
            receipt.measured_uptime as int,
        ),
{
    let usage = receipt.usage;
    let price = receipt.tft_connection_price;
    let uptime = receipt.measured_uptime;
    if price == 0 {
        return Err(RewardError::ZeroConnectionPrice);
    }
    proof {
        lemma_product_bounds(usage.cu, rates.cu);
        lemma_product_bounds(usage.su, rates.su);
        lemma_product_bounds(usage.nu, rates.nu);
        lemma_product_bounds(usage.ip, rates.ipv4);
    }
    let cu = match usage.cu.checked_mul(rates.cu) {
        Some(v) => v,
        None => { return Err(RewardError::Overflow); },
    };
    let su = match usage.su.checked_mul(rates.su) {
        Some(v) => v,
        None => { return Err(RewardError::Overflow); },
    };
    let nu = match usage.nu.checked_mul(rates.nu) {
        Some(v) => v,
        None => { return Err(RewardError::Overflow); },
    };
    let ip = match usage.ip.checked_mul(rates.ipv4) {
        Some(v) => v,
        None => { return Err(RewardError::Overflow); },
    };
    let cloud = match cu.checked_add(su) {
        Some(v) => v,
        None => { return Err(RewardError::Overflow); },
    };
    let network = match cloud.checked_add(nu) {
        Some(v) => v,
        None => { return Err(RewardError::Overflow); },
    };
    let full_musd_reward_upscaled = match network.checked_add(ip) {
        Some(v) => v,
        None => { return Err(RewardError::Overflow); },
    };
    assert(full_musd_reward_upscaled == scaled_musd(usage, *rates));
    let full_tft_reward: u64 = full_musd_reward_upscaled / price;
    assert(full_tft_reward == full_reward(usage, *rates, price as int));
    // scale, use default period duration so we account for nodes which did not come online until
    // the period already started
    let scaled = match full_tft_reward.checked_mul(uptime) {
        Some(v) => v,
        None => { return Err(RewardError::Overflow); },
    };
    proof {
        lemma_product_bounds(full_tft_reward, uptime);
        lemma_quotient_bounds(scaled as int, STANDARD_PERIOD_DURATION as int);
    }
    Ok(scaled / STANDARD_PERIOD_DURATION)
}

/// Calculate the expected reward as if the node had farming policy 2.
pub fn calculate_expected_titan_reward(receipt: &MintingReceipt) -> (outcome: Result<
    u64,
    RewardError,
>)
    ensures
        outcome == reward_outcome(
            receipt.usage,
            titan_rewards(),
            receipt.tft_connection_price,
            receipt.measured_uptime,
        ),
{
    let rates = titan_resource_rewards();
    calculate_expected_reward(receipt, &rates)
}

/// The expected reward is never negative, and it follows the uptime: with the
/// usage held fixed, an uptime that is `factor` times as long gives `factor`
/// times the reward, plus what truncation lost, which is less than `factor`
/// units.
pub proof fn lemma_reward_proportional_to_uptime(
    usage: ScaledUsage,
    rates: ResourceRewards,
    price: u64,
    uptime: u64,
    factor: nat,
)
    requires
        price > 0,
        factor >= 1,
    ensures
        expected_reward(usage, rates, price as int, uptime as int) >= 0,
        factor * expected_reward(usage, rates, price as int, uptime as int) <= expected_reward(
            usage,
            rates,
            price as int,
            factor * uptime,
        ),
        expected_reward(usage, rates, price as int, factor * uptime) < factor * expected_reward(
            usage,
            rates,
            price as int,
            uptime as int,
        ) + factor,
{
    lemma_product_bounds(usage.cu, rates.cu);
    lemma_product_bounds(usage.su, rates.su);
    lemma_product_bounds(usage.nu, rates.nu);
    lemma_product_bounds(usage.ip, rates.ipv4);
    let full = full_reward(usage, rates, price as int);
    lemma_quotient_bounds(scaled_musd(usage, rates), price as int);
    let d = STANDARD_PERIOD_DURATION as int;
    let x = full * uptime;
    let y = full * (factor * uptime);
    let k = factor as int;
    assert(x >= 0 && y == k * x) by (nonlinear_arith)
        requires
            full >= 0,
            uptime >= 0,
            x == full * uptime,
            y == full * (factor * uptime),
            k == factor,
    ;
    let q = x / d;
    let r = x % d;
    assert(x == d * q + r && 0 <= r < d);
    assert(k * (d * q) <= y < k * (d * q) + k * d && k * (d * q) == d * (k * q) && k * d == d * k)
        by (nonlinear_arith)
        requires
            y == k * x,
            x == d * q + r,
            0 <= r < d,
            k >= 1,
    ;
    let kq = k * q;
    assert(d * kq <= y < d * kq + d * k);
    assert(kq <= y / d < kq + k) by (nonlinear_arith)
        requires
            d * kq <= y < d * kq + d * k,
            d > 0,
    ;
}

} // verus!
