//! Minting receipts and the amounts they carry.

use vstd::prelude::*;
use vstd::std_specs::ops::SubSpecImpl;
use vstd::string::StringExecFns;

verus! {

/// Rewards per unit of resource, in milli USD.
#[derive(Clone, Copy, Debug)]
pub struct ResourceRewards {
    pub cu: u64,
    pub su: u64,
    pub nu: u64,
    pub ipv4: u64,
}

/// These are the values of the initial farming policy.
impl Default for ResourceRewards {
    fn default() -> (rewards: ResourceRewards)
        ensures
            rewards == (ResourceRewards { cu: 2400, su: 1000, nu: 30, ipv4: 5 }),
    {
        ResourceRewards { cu: 2400, su: 1000, nu: 30, ipv4: 5 }
    }
}

/// Farming policy of a receipt that names none.
pub fn default_farming_policy_id() -> (id: u32)
    ensures
        id == 1,
{
    1
}

/// Payout for a node.
#[derive(Clone, Copy, Debug)]
pub struct Reward {
    /// Reward in milli USD.
    pub musd: u64,
    /// Reward in TFT units. 1 TFT -> 1e7 units.
    pub tft: u64,
}

/// Difference of two amounts, held at zero where it would be negative.
pub open spec fn floor_sub(a: u64, b: u64) -> u64 {
    if a >= b {
        (a - b) as u64
    } else {
        0
    }
}

impl core::ops::Sub for Reward {
    type Output = Reward;

    /// Subtracts field by field; a field that would go below zero is set to zero.
    fn sub(self, rhs: Reward) -> (out: Reward) {
        Reward {
            musd: if self.musd >= rhs.musd {
                self.musd - rhs.musd
            } else {
                0
            },
            tft: if self.tft >= rhs.tft {
                self.tft - rhs.tft
            } else {
                0
            },
        }
    }
}

impl SubSpecImpl for Reward {
    open spec fn obeys_sub_spec() -> bool {
        true
    }

    open spec fn sub_req(self, rhs: Reward) -> bool {
        true
    }

    open spec fn sub_spec(self, rhs: Reward) -> Reward {
        Reward { musd: floor_sub(self.musd, rhs.musd), tft: floor_sub(self.tft, rhs.tft) }
    }
}

/// Measured usage of a node over a period, in units of 1e-7: the three cloud
/// units and the public IP utilization, each truncated toward zero.
#[derive(Clone, Copy, Debug)]
pub struct ScaledUsage {
    pub cu: u64,
    pub su: u64,
    pub nu: u64,
    pub ip: u64,
}

/// A receipt which is stored to validate the payout of a node.
#[derive(Clone, Debug)]
pub struct MintingReceipt {
    pub node_id: u32,
    pub farming_policy_id: u32,
    /// Certification type of the node, "CERTIFIED" or "DIY".
    pub node_type: String,
    pub measured_uptime: u64,
    /// TFT price on connection in milli USD.
    pub tft_connection_price: u64,
    pub usage: ScaledUsage,
    pub reward: Reward,
    pub resource_rewards: ResourceRewards,
}

/// node_type value for certified nodes.
pub open spec fn certified_node_type() -> Seq<char> {
    "CERTIFIED"@
}

impl MintingReceipt {
    /// Whether the receipt was written for a certified node.
    pub open spec fn certified(&self) -> bool {
        self.node_type@ == certified_node_type()
    }

    /// Whether the receipt was written for a certified node: every node type
    /// but "CERTIFIED" counts as not certified.
    pub fn is_certified(&self) -> (certified: bool)
        ensures
            certified == self.certified(),
    {
        let mark = String::from_str("CERTIFIED");
        self.node_type == mark
    }
}

} // verus!
