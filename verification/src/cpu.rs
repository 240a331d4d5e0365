//! CPU busy-percent calculation from two consecutive cumulative snapshots.
//!
//! A snapshot holds the cumulative per-state tick counters of the CPU, as an
//! OS counter reader reports them.  The calculator works on the deltas
//! between two consecutive snapshots: the idle fraction of the delta gives
//! the idle percentage and the busy percentage is its complement.  Counters
//! are assumed monotonic; a decrease (a reset or wraparound) clamps that
//! delta to zero instead of propagating a negative value.
//!
//! Percentages are fixed-point numbers in thousandths of a percent
//! (`MILLI_PERCENT_SCALE` units per percent), the same scale the expression
//! evaluator uses for metric values and thresholds.

use vstd::prelude::*;

verus! {

/// Fixed-point scale: this many units make one percent.
pub const MILLI_PERCENT_SCALE: u64 = 1000;

/// Fixed-point value of one hundred percent.
pub const FULL_SCALE: u64 = 100000;

/// Cumulative CPU tick counters, one per CPU state.
#[derive(Clone, Copy, Debug, PartialEq, Eq, Structural)]
pub struct CpuSnapshot {
    pub user: u64,
    pub nice: u64,
    pub system: u64,
    pub idle: u64,
    pub iowait: u64,
    pub irq: u64,
    pub softirq: u64,
    pub steal: u64,
}

/// Counter delta, clamped to zero when the counter decreased.
pub open spec fn spec_delta(prev: u64, curr: u64) -> int {
    if curr >= prev {
        curr - prev
    } else {
        0
    }
}

/// Total ticks spent in any state between the two snapshots.
pub open spec fn spec_total_delta(prev: CpuSnapshot, curr: CpuSnapshot) -> int {
    spec_delta(prev.user, curr.user) + spec_delta(prev.nice, curr.nice) + spec_delta(
        prev.system,
        curr.system,
    ) + spec_delta(prev.idle, curr.idle) + spec_delta(prev.iowait, curr.iowait) + spec_delta(
        prev.irq,
        curr.irq,
    ) + spec_delta(prev.softirq, curr.softirq) + spec_delta(prev.steal, curr.steal)
}

/// Idle percentage of the interval, in thousandths of a percent, rounded
/// down.  An empty delta counts as fully idle, so it never triggers.
pub open spec fn spec_idle_milli(prev: CpuSnapshot, curr: CpuSnapshot) -> int {
    if spec_total_delta(prev, curr) == 0 {
        FULL_SCALE as int
    } else {
        spec_delta(prev.idle, curr.idle) * (FULL_SCALE as int) / spec_total_delta(prev, curr)
    }
}

/// Busy percentage of the interval, in thousandths of a percent: one
/// hundred percent minus the idle percentage.
pub open spec fn spec_busy_milli(prev: CpuSnapshot, curr: CpuSnapshot) -> int {
    FULL_SCALE - spec_idle_milli(prev, curr)
}

/// The idle percentage never exceeds one hundred percent, so the busy
/// percentage always lies between zero and one hundred percent — for any
/// counter input, wrapped or not.
pub proof fn lemma_busy_in_range(prev: CpuSnapshot, curr: CpuSnapshot)
    ensures
        0 <= spec_busy_milli(prev, curr) <= FULL_SCALE,
{
    let idle = spec_delta(prev.idle, curr.idle);
    let total = spec_total_delta(prev, curr);
    if total != 0 {
        assert(0 < total && 0 <= idle <= total);
        assert(0 <= idle * (FULL_SCALE as int) / total <= FULL_SCALE) by (nonlinear_arith)
            requires
                0 < total && 0 <= idle <= total,
        ;
    }
}

/// The busy and idle percentages are exact complements: they always sum to
/// one hundred percent.
pub proof fn lemma_busy_complements_idle(prev: CpuSnapshot, curr: CpuSnapshot)
    ensures
        spec_busy_milli(prev, curr) + spec_idle_milli(prev, curr) == FULL_SCALE,
{
}

fn delta(prev: u64, curr: u64) -> (d: u64)
    ensures
        d == spec_delta(prev, curr),
{
    if curr >= prev {
        curr - prev
    } else {
        0
    }
}

/// Busy percentage between two consecutive cumulative snapshots, in
/// thousandths of a percent.  Zero when nothing was counted in between, so
/// an empty interval never spuriously triggers.
pub fn calculate_cpu_usage(prev: &CpuSnapshot, curr: &CpuSnapshot) -> (busy: u64)
    ensures
        busy == spec_busy_milli(*prev, *curr),
        busy <= FULL_SCALE,
{
    let d_user = delta(prev.user, curr.user);
    let d_nice = delta(prev.nice, curr.nice);
    let d_system = delta(prev.system, curr.system);
    let d_idle = delta(prev.idle, curr.idle);
    let d_iowait = delta(prev.iowait, curr.iowait);
    let d_irq = delta(prev.irq, curr.irq);
    let d_softirq = delta(prev.softirq, curr.softirq);
    let d_steal = delta(prev.steal, curr.steal);
    let total: u128 = d_user as u128 + d_nice as u128 + d_system as u128 + d_idle as u128
        + d_iowait as u128 + d_irq as u128 + d_softirq as u128 + d_steal as u128;
    proof {
        assert(total == spec_total_delta(*prev, *curr));
    }
    if total == 0 {
        0
    } else {
        proof {
            assert((d_idle as u128) * (FULL_SCALE as u128) <= (u64::MAX as u128) * (
            FULL_SCALE as u128)) by (nonlinear_arith)
                requires
                    d_idle as u128 <= u64::MAX as u128,
            ;
        }
        let idle_milli: u128 = d_idle as u128 * FULL_SCALE as u128 / total;
        proof {
            let idle = spec_delta(prev.idle, curr.idle);
            assert(0 <= idle * (FULL_SCALE as int) / (total as int) <= FULL_SCALE)
                by (nonlinear_arith)
                requires
                    0 < total as int && 0 <= idle <= total as int,
            ;
        }
        (FULL_SCALE as u128 - idle_milli) as u64
    }
}

} // verus!
