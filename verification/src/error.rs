//! Why a run is refused.

use vstd::prelude::*;
use vstd::string::StringExecFns;
use crate::format::push_decimal;

verus! {

/// The record that stops a run. No report is made of the others.
#[derive(Clone, Copy, Debug, PartialEq, Eq, Structural)]
pub enum AuditError {
    /// A receipt is filed under a period that is not audited.
    UnknownPeriod { node_id: u32, period: u32 },
    /// A node has a second receipt for one period.
    DuplicateReceipt { node_id: u32, period: u32 },
    /// A receipt carries a connection price of zero.
    ZeroConnectionPrice { node_id: u32, period: u32 },
    /// The expected reward of a receipt cannot be computed in 64 bits.
    RewardOverflow { node_id: u32, period: u32 },
    /// The totals of a node, or their difference, do not fit their types.
    TotalOverflow { node_id: u32 },
}

impl AuditError {
    /// The node whose record stopped the run.
    pub open spec fn node(&self) -> u32 {
        match *self {
            AuditError::UnknownPeriod { node_id, .. } => node_id,
            AuditError::DuplicateReceipt { node_id, .. } => node_id,
            AuditError::ZeroConnectionPrice { node_id, .. } => node_id,
            AuditError::RewardOverflow { node_id, .. } => node_id,
            AuditError::TotalOverflow { node_id } => node_id,
        }
    }

    /// What went wrong, without the record it went wrong on.
    pub open spec fn reason(&self) -> Seq<char> {
        match *self {
            AuditError::UnknownPeriod { .. } => "receipt for a period that is not audited"@,
            AuditError::DuplicateReceipt { .. } => "second receipt for the same period"@,
            AuditError::ZeroConnectionPrice { .. } => "connection price of zero"@,
            AuditError::RewardOverflow { .. } => "expected reward out of range"@,
            AuditError::TotalOverflow { .. } => "totals out of range"@,
        }
    }

    /// Where it went wrong: the node, and the period where one is known.
    pub open spec fn place(&self) -> Seq<char> {
        let node = " (node "@ + crate::format::decimal(self.node() as nat);
        match *self {
            AuditError::UnknownPeriod { period, .. }
            | AuditError::DuplicateReceipt { period, .. }
            | AuditError::ZeroConnectionPrice { period, .. }
            | AuditError::RewardOverflow { period, .. } => node + ", period "@
                + crate::format::decimal(period as nat) + ")"@,
            AuditError::TotalOverflow { .. } => node + ")"@,
        }
    }

    /// A line for the operator that names the offending record.
    pub fn message(&self) -> (text: String)
        ensures
            text@ == self.reason() + self.place(),
    {
        let mut text = String::new();
        match *self {
            AuditError::UnknownPeriod { .. } => text.append(
                "receipt for a period that is not audited",
            ),
            AuditError::DuplicateReceipt { .. } => text.append("second receipt for the same period"),
            AuditError::ZeroConnectionPrice { .. } => text.append("connection price of zero"),
            AuditError::RewardOverflow { .. } => text.append("expected reward out of range"),
            AuditError::TotalOverflow { .. } => text.append("totals out of range"),
        }
        assert(text@ =~= self.reason());
        text.append(" (node ");
        match *self {
            AuditError::UnknownPeriod { node_id, period }
            | AuditError::DuplicateReceipt { node_id, period }
            | AuditError::ZeroConnectionPrice { node_id, period }
            | AuditError::RewardOverflow { node_id, period } => {
                push_decimal(&mut text, node_id as u64);
                text.append(", period ");
                push_decimal(&mut text, period as u64);
            },
            AuditError::TotalOverflow { node_id } => {
                push_decimal(&mut text, node_id as u64);
            },
        }
        text.append(")");
        assert(text@ =~= self.reason() + self.place());
        text
    }
}

} // verus!
