//! The accounting periods that a run covers.

use vstd::prelude::*;

verus! {

/// Duration of a standard period, in seconds: a sixtieth of five years, two
/// of them leap years.
pub const STANDARD_PERIOD_DURATION: u64 = 2_630_880;

/// Offset of the first period that is audited.
pub const FIRST_PERIOD: u32 = 52;

/// Number of consecutive periods that are audited.
pub const PERIOD_COUNT: usize = 6;

/// Whether `period` is one of the audited periods.
pub open spec fn is_recognized(period: u32) -> bool {
    FIRST_PERIOD <= period < FIRST_PERIOD + PERIOD_COUNT
}

/// Position of an audited period in a node's timeline.
pub open spec fn slot_of(period: u32) -> int {
    period - FIRST_PERIOD
}

/// Bounds-checked lookup of the timeline slot of a period.
pub fn period_slot(period: u32) -> (slot: Option<usize>)
    ensures
        is_recognized(period) ==> slot == Some(slot_of(period) as usize),
        !is_recognized(period) ==> slot is None,
{
    if period < FIRST_PERIOD {
        None
    } else {
        let offset: u32 = period - FIRST_PERIOD;
        if offset < 6 {
            Some(offset as usize)
        } else {
            None
        }
    }
}

/// The period that a timeline slot stands for.
pub fn slot_period(slot: usize) -> (period: u32)
    requires
        slot < PERIOD_COUNT,
    ensures
        is_recognized(period),
        slot_of(period) == slot,
{
    FIRST_PERIOD + slot as u32
}

} // verus!
