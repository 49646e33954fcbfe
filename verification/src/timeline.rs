//! What one node did in one period, and a node's periods side by side.

use vstd::prelude::*;
use crate::format::PERCENTAGE_PRECISION;
use crate::period::{is_recognized, period_slot, slot_of, PERIOD_COUNT, STANDARD_PERIOD_DURATION};
use crate::receipt::{MintingReceipt, ResourceRewards};
use crate::reward::{calculate_expected_reward, reward_outcome, RewardError};

verus! {

/// The uptime percentage of a node that was up all period long.
pub const FULL_UPTIME: u32 = 100 * PERCENTAGE_PRECISION;

/// Share of a standard period that a node was up, in thousandths of a
/// percent, rounded down and capped at a hundred percent.
pub open spec fn uptime_share(measured_uptime: int) -> int {
    let share = measured_uptime * FULL_UPTIME / (STANDARD_PERIOD_DURATION as int);
    if share <= FULL_UPTIME {
        share
    } else {
        FULL_UPTIME as int
    }
}

/// Share of a standard period that a node was up. An uptime of a standard
/// period or more gives exactly a hundred percent, however long it is.
pub fn uptime_percentage(measured_uptime: u64) -> (percentage: u32)
    ensures
        percentage == uptime_share(measured_uptime as int),
        percentage <= FULL_UPTIME,
        measured_uptime >= STANDARD_PERIOD_DURATION ==> percentage == FULL_UPTIME,
{
    if measured_uptime >= STANDARD_PERIOD_DURATION {
        FULL_UPTIME
    } else {
        (measured_uptime * 100_000 / STANDARD_PERIOD_DURATION) as u32
    }
}

/// Aggregated results of a node in one period.
#[derive(Clone, Copy, Debug, PartialEq, Eq, Structural)]
pub struct NodePeriodResult {
    pub farming_policy: u32,
    pub uptime_percentage: u32,
    pub expected_payout: u64,
    pub actual_payout: u64,
    pub is_certified: bool,
}

/// The result of a period for which a node has no receipt.
pub open spec fn neutral_period() -> NodePeriodResult {
    NodePeriodResult {
        farming_policy: 0,
        uptime_percentage: 0,
        expected_payout: 0,
        actual_payout: 0,
        is_certified: false,
    }
}

impl Default for NodePeriodResult {
    fn default() -> (result: NodePeriodResult)
        ensures
            result == neutral_period(),
            result.well_formed(),
    {
        NodePeriodResult {
            farming_policy: 0,
            uptime_percentage: 0,
            expected_payout: 0,
            actual_payout: 0,
            is_certified: false,
        }
    }
}

/// The period result that a receipt gives once its expected reward is known.
pub open spec fn period_result(receipt: MintingReceipt, expected_payout: u64) -> NodePeriodResult {
    NodePeriodResult {
        farming_policy: receipt.farming_policy_id,
        uptime_percentage: uptime_share(receipt.measured_uptime as int) as u32,
        expected_payout,
        actual_payout: receipt.reward.tft,
        is_certified: receipt.certified(),
    }
}

/// What `NodePeriodResult::from_receipt` returns for a receipt.
pub open spec fn period_outcome(receipt: MintingReceipt, rates: ResourceRewards) -> Result<
    NodePeriodResult,
    RewardError,
> {
    match reward_outcome(
        receipt.usage,
        rates,
        receipt.tft_connection_price,
        receipt.measured_uptime,
    ) {
        Ok(expected_payout) => Ok(period_result(receipt, expected_payout)),
        Err(e) => Err(e),
    }
}

impl NodePeriodResult {
    /// Whether the uptime is a hundred percent at most.
    pub open spec fn well_formed(&self) -> bool {
        self.uptime_percentage <= FULL_UPTIME
    }

    /// Whether the node had the titan policy, or the initial one as a
    /// certified node.
    pub open spec fn titan(&self) -> bool {
        self.farming_policy == 2 || (self.farming_policy == 1 && self.is_certified)
    }

    pub fn is_titan(&self) -> (titan: bool)
        ensures
            titan == self.titan(),
    {
        self.farming_policy == 2 || (self.farming_policy == 1 && self.is_certified)
    }

    /// Reads a receipt: the policy, the certification and the payout as the
    /// receipt has them, the uptime as a percentage, and the reward that
    /// `rates` would have paid.
    pub fn from_receipt(receipt: &MintingReceipt, rates: &ResourceRewards) -> (outcome: Result<
        NodePeriodResult,
        RewardError,
    >)
        ensures
            outcome == period_outcome(*receipt, *rates),
            outcome matches Ok(result) ==> result.well_formed(),
    {
        match calculate_expected_reward(receipt, rates) {
            Ok(expected_payout) => Ok(
                NodePeriodResult {
                    farming_policy: receipt.farming_policy_id,
                    uptime_percentage: uptime_percentage(receipt.measured_uptime),
                    expected_payout,
                    actual_payout: receipt.reward.tft,
                    is_certified: receipt.is_certified(),
                },
            ),
            Err(e) => Err(e),
        }
    }
}

/// Whether some period of a timeline is a titan period.
pub open spec fn any_titan(periods: Seq<NodePeriodResult>) -> bool {
    exists|slot: int| 0 <= slot < periods.len() && (#[trigger] periods[slot]).titan()
}

/// Aggregated results of a node: one slot for each audited period, in order.
#[derive(Clone, Copy, Debug, PartialEq, Eq)]
pub struct NodeResult {
    pub periods: [NodePeriodResult; 6],
}

impl View for NodeResult {
    type V = Seq<NodePeriodResult>;

    open spec fn view(&self) -> Seq<NodePeriodResult> {
        self.periods@
    }
}

impl Default for NodeResult {
    fn default() -> (result: NodeResult)
        ensures
            result@.len() == PERIOD_COUNT,
            forall|slot: int| 0 <= slot < PERIOD_COUNT ==> result@[slot] == neutral_period(),
    {
        let neutral = NodePeriodResult::default();
        NodeResult { periods: [neutral, neutral, neutral, neutral, neutral, neutral] }
    }
}

impl NodeResult {
    /// A node is audited over all its periods as soon as it was a titan in
    /// one of them.
    pub fn is_titan(&self) -> (titan: bool)
        ensures
            titan == any_titan(self@),
    {
        let titan = self.periods[0].is_titan() || self.periods[1].is_titan()
            || self.periods[2].is_titan() || self.periods[3].is_titan()
            || self.periods[4].is_titan() || self.periods[5].is_titan();
        proof {
            if titan {
                assert(self@[0].titan() || self@[1].titan() || self@[2].titan() || self@[3].titan()
                    || self@[4].titan() || self@[5].titan());
            }
        }
        titan
    }

    /// The result of `period`, if it is one of the audited periods.
    pub fn get(&self, period: u32) -> (result: Option<NodePeriodResult>)
        ensures
            is_recognized(period) ==> result == Some(self@[slot_of(period)]),
            !is_recognized(period) ==> result is None,
    {
        match period_slot(period) {
            Some(slot) => Some(self.periods[slot]),
            None => None,
        }
    }

    /// Stores the result of `period`; `false`, and nothing stored, if it is
    /// not one of the audited periods.
    pub fn set(&mut self, period: u32, result: NodePeriodResult) -> (stored: bool)
        ensures
            stored == is_recognized(period),
            stored ==> final(self)@ == old(self)@.update(slot_of(period), result),
            !stored ==> *final(self) == *old(self),
    {
        match period_slot(period) {
            Some(slot) => {
                self.periods[slot] = result;
                true
            },
            None => false,
        }
    }
}

} // verus!
