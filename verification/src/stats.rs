//! The statistics aggregator: per-category byte and time counters.
//!
//! One counter set is created before dispatch, every worker adds into it
//! while the pool runs, and it is read once after all workers have joined.
//! Additions saturate at the counter's capacity, so the totals grow
//! monotonically and never wrap. The final report derives percentages from
//! the totals, with an empty run defined to give zero rather than a
//! division fault.

use vstd::prelude::*;

verus! {

/// Sum of two counters, saturating at the capacity.
pub open spec fn sat_add_spec(a: u64, b: u64) -> u64 {
    if a + b > u64::MAX {
        u64::MAX
    } else {
        (a + b) as u64
    }
}

/// Saturating counter addition: the true sum where it fits.
pub fn sat_add(a: u64, b: u64) -> (r: u64)
    ensures
        r == sat_add_spec(a, b),
        r >= a,
        r >= b,
{
    if b <= u64::MAX - a {
        a + b
    } else {
        u64::MAX
    }
}

/// Saturating addition keeps the order of its operands.
pub proof fn lemma_sat_add_monotone(a1: u64, b1: u64, a2: u64, b2: u64)
    requires
        a1 <= a2,
        b1 <= b2,
    ensures
        sat_add_spec(a1, b1) <= sat_add_spec(a2, b2),
{
}

/// The run's counters: total input bytes, bytes saved per category, and
/// cumulative codec time per category, in milliseconds.
#[derive(Clone, Copy, PartialEq, Eq, Structural, Debug)]
pub struct CounterSet {
    pub total_input: u64,
    pub saved_orig: u64,
    pub saved_webp: u64,
    pub saved_avif: u64,
    pub time_jpg: u64,
    pub time_png: u64,
    pub time_webp: u64,
    pub time_avif: u64,
}

impl CounterSet {
    /// All counters start at zero.
    pub fn new() -> (c: CounterSet)
        ensures
            c == CounterSet::zero(),
    {
        CounterSet {
            total_input: 0,
            saved_orig: 0,
            saved_webp: 0,
            saved_avif: 0,
            time_jpg: 0,
            time_png: 0,
            time_webp: 0,
            time_avif: 0,
        }
    }

    /// The all-zero counter set.
    pub open spec fn zero() -> CounterSet {
        CounterSet {
            total_input: 0,
            saved_orig: 0,
            saved_webp: 0,
            saved_avif: 0,
            time_jpg: 0,
            time_png: 0,
            time_webp: 0,
            time_avif: 0,
        }
    }

    /// No savings counter exceeds the input total.
    pub open spec fn savings_bounded(self) -> bool {
        self.saved_orig <= self.total_input && self.saved_webp <= self.total_input
            && self.saved_avif <= self.total_input
    }
}

/// Savings as tenths of a percent of the input total: `1000 * saved /
/// total`, with an empty run giving zero. A category never saves more than
/// the total input, so the result is at most `1000`.
pub fn percent_tenths(saved: u64, total: u64) -> (p: u64)
    requires
        saved <= total,
    ensures
        total == 0 ==> p == 0,
        total > 0 ==> p == saved * 1000 / (total as int),
        p <= 1000,
{
    if total == 0 {
        0
    } else {
        let wide: u128 = (saved as u128) * 1000;
        let q: u128 = wide / (total as u128);
        proof {
            assert(saved * 1000 / (total as int) <= 1000) by (nonlinear_arith)
                requires
                    saved <= total,
                    total > 0,
            ;
        }
        q as u64
    }
}

/// Bytes remaining after the reported savings: the size the report prints
/// beside each category.
pub fn remaining_after(total: u64, saved: u64) -> (r: u64)
    requires
        saved <= total,
    ensures
        r == total - saved,
{
    total - saved
}

} // verus!
