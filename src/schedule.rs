//! Vesting schedules and the amount they have released at a given time.

use vstd::arithmetic::div_mod::{
    lemma_div_is_ordered, lemma_div_multiples_vanish, lemma_div_pos_is_pos,
    lemma_fundamental_div_mod, lemma_fundamental_div_mod_converse, lemma_mod_pos_bound,
};
use vstd::arithmetic::mul::{lemma_mul_inequality, lemma_mul_nonnegative};
use vstd::prelude::*;

verus! {

/// How a grant unlocks over time. Times are in seconds.
#[derive(Clone, Copy, Debug, PartialEq, Eq, Structural)]
pub enum VestingSchedule {
    /// Unlocks `vesting_amount` proportionally between `start_time` and `end_time`.
    LinearVesting { start_time: u64, end_time: u64, vesting_amount: u128 },
    /// Unlocks `amount` at `start_time` and again at every `vesting_interval`
    /// boundary up to and including `end_time`.
    PeriodicVesting { start_time: u64, end_time: u64, vesting_interval: u64, amount: u128 },
}

/// Number of unlock points of a periodic schedule: one at the start and one
/// at each interval boundary up to the end.
pub open spec fn num_intervals(start_time: u64, end_time: u64, vesting_interval: u64) -> int {
    1 + (end_time - start_time) / (vesting_interval as int)
}

/// Amount unlocked by `s` at time `now`, as an unbounded integer.
pub open spec fn vested(s: VestingSchedule, now: u64) -> int {
    match s {
        VestingSchedule::LinearVesting { start_time, end_time, vesting_amount } => {
            if now <= start_time {
                0
            } else if now >= end_time {
                vesting_amount as int
            } else {
                (vesting_amount * (now - start_time)) / ((end_time - start_time) as int)
            }
        },
        VestingSchedule::PeriodicVesting { start_time, end_time, vesting_interval, amount } => {
            if now < start_time {
                0
            } else if now >= end_time {
                amount * num_intervals(start_time, end_time, vesting_interval)
            } else {
                amount * (1 + (now - start_time) / (vesting_interval as int))
            }
        },
    }
}

/// Whether computing the vested amount at `now` overflows 128 bits. For a
/// linear schedule the intermediate product is what is checked.
pub open spec fn vesting_overflows(s: VestingSchedule, now: u64) -> bool {
    match s {
        VestingSchedule::LinearVesting { start_time, end_time, vesting_amount } => {
            start_time < now && now < end_time && vesting_amount * (now - start_time)
                > u128::MAX
        },
        VestingSchedule::PeriodicVesting { .. } => vested(s, now) > u128::MAX,
    }
}

/// Total amount that the schedule releases over its lifetime.
pub open spec fn schedule_total(s: VestingSchedule) -> int {
    match s {
        VestingSchedule::LinearVesting { vesting_amount, .. } => vesting_amount as int,
        VestingSchedule::PeriodicVesting { start_time, end_time, vesting_interval, amount } => {
            amount * num_intervals(start_time, end_time, vesting_interval)
        },
    }
}

impl VestingSchedule {
    /// The schedule's time fields can be evaluated without a division by zero
    /// or a negative period.
    pub open spec fn computable(self) -> bool {
        match self {
            VestingSchedule::LinearVesting { .. } => true,
            VestingSchedule::PeriodicVesting { start_time, end_time, vesting_interval, .. } => {
                vesting_interval > 0 && start_time <= end_time
            },
        }
    }

    /// The shape that registration accepts: a positive amount, a nonempty
    /// period and, for a periodic schedule, a positive interval dividing it.
    pub open spec fn well_formed(self) -> bool {
        match self {
            VestingSchedule::LinearVesting { start_time, end_time, vesting_amount } => {
                vesting_amount > 0 && start_time < end_time
            },
            VestingSchedule::PeriodicVesting { start_time, end_time, vesting_interval, amount } => {
                amount > 0 && start_time < end_time && vesting_interval > 0 && (end_time
                    - start_time) % (vesting_interval as int) == 0
            },
        }
    }

    pub open spec fn start(self) -> u64 {
        match self {
            VestingSchedule::LinearVesting { start_time, .. } => start_time,
            VestingSchedule::PeriodicVesting { start_time, .. } => start_time,
        }
    }

    pub open spec fn end(self) -> u64 {
        match self {
            VestingSchedule::LinearVesting { end_time, .. } => end_time,
            VestingSchedule::PeriodicVesting { end_time, .. } => end_time,
        }
    }

    /// Amount unlocked at `block_time`; `None` where the computation overflows.
    pub fn vested_amount(&self, block_time: u64) -> (r: Option<u128>)
        requires
            self.computable(),
        ensures
            r.is_none() == vesting_overflows(*self, block_time),
            r matches Some(v) ==> v == vested(*self, block_time),
    {
        match *self {
            VestingSchedule::LinearVesting { start_time, end_time, vesting_amount } => {
                if block_time <= start_time {
                    return Some(0);
                }
                if block_time >= end_time {
                    return Some(vesting_amount);
                }
                match vesting_amount.checked_mul((block_time - start_time) as u128) {
                    Some(p) => Some(p / ((end_time - start_time) as u128)),
                    None => None,
                }
            },
            VestingSchedule::PeriodicVesting { start_time, end_time, vesting_interval, amount } => {
                if block_time < start_time {
                    return Some(0);
                }
                let num_interval: u128 = 1 + ((end_time - start_time) / vesting_interval) as u128;
                if block_time >= end_time {
                    return amount.checked_mul(num_interval);
                }
                let passed_interval: u128 = 1 + ((block_time - start_time) / vesting_interval) as u128;
                amount.checked_mul(passed_interval)
            },
        }
    }
}

/// The vested amount never goes below zero nor above the schedule's total.
pub proof fn lemma_vested_bounded(s: VestingSchedule, t: u64)
    requires
        s.computable(),
        s.start() < s.end(),
    ensures
        0 <= vested(s, t) <= schedule_total(s),
{
    match s {
        VestingSchedule::LinearVesting { start_time, end_time, vesting_amount } => {
            if start_time < t < end_time {
                let d = (end_time - start_time) as int;
                lemma_mul_inequality((t - start_time) as int, d, vesting_amount as int);
                lemma_div_is_ordered(vesting_amount * (t - start_time), vesting_amount * d, d);
                lemma_div_multiples_vanish(vesting_amount as int, d);
                lemma_mul_nonnegative(vesting_amount as int, (t - start_time) as int);
                lemma_div_pos_is_pos(vesting_amount * (t - start_time), d);
                assert(vesting_amount * d == d * vesting_amount) by (nonlinear_arith);
            }
        },
        VestingSchedule::PeriodicVesting { start_time, end_time, vesting_interval, amount } => {
            let i = vesting_interval as int;
            lemma_div_pos_is_pos((end_time - start_time) as int, i);
            lemma_mul_nonnegative(amount as int, num_intervals(start_time, end_time, vesting_interval));
            if start_time <= t < end_time {
                lemma_div_is_ordered((t - start_time) as int, (end_time - start_time) as int, i);
                lemma_div_pos_is_pos((t - start_time) as int, i);
                lemma_mul_inequality(
                    1 + (t - start_time) / i,
                    num_intervals(start_time, end_time, vesting_interval),
                    amount as int,
                );
                lemma_mul_nonnegative(amount as int, 1 + (t - start_time) / i);
                assert(amount * (1 + (t - start_time) / i) == (1 + (t - start_time) / i) * amount)
                    by (nonlinear_arith);
                assert(amount * num_intervals(start_time, end_time, vesting_interval)
                    == num_intervals(start_time, end_time, vesting_interval) * amount)
                    by (nonlinear_arith);
            }
        },
    }
}

/// The vested amount never decreases as time passes.
pub proof fn lemma_vested_monotone(s: VestingSchedule, t1: u64, t2: u64)
    requires
        s.computable(),
        s.start() < s.end(),
        t1 <= t2,
    ensures
        vested(s, t1) <= vested(s, t2),
{
    lemma_vested_bounded(s, t1);
    lemma_vested_bounded(s, t2);
    match s {
        VestingSchedule::LinearVesting { start_time, end_time, vesting_amount } => {
            if start_time < t1 && t2 < end_time {
                let d = (end_time - start_time) as int;
                lemma_mul_inequality((t1 - start_time) as int, (t2 - start_time) as int, vesting_amount as int);
                assert(vesting_amount * (t1 - start_time) == (t1 - start_time) * vesting_amount)
                    by (nonlinear_arith);
                assert(vesting_amount * (t2 - start_time) == (t2 - start_time) * vesting_amount)
                    by (nonlinear_arith);
                lemma_div_is_ordered(vesting_amount * (t1 - start_time), vesting_amount * (t2 - start_time), d);
            }
        },
        VestingSchedule::PeriodicVesting { start_time, end_time, vesting_interval, amount } => {
            if start_time <= t1 && t2 < end_time {
                let i = vesting_interval as int;
                lemma_div_is_ordered((t1 - start_time) as int, (t2 - start_time) as int, i);
                lemma_mul_inequality(1 + (t1 - start_time) / i, 1 + (t2 - start_time) / i, amount as int);
                assert(amount * (1 + (t1 - start_time) / i) == (1 + (t1 - start_time) / i) * amount)
                    by (nonlinear_arith);
                assert(amount * (1 + (t2 - start_time) / i) == (1 + (t2 - start_time) / i) * amount)
                    by (nonlinear_arith);
            }
        },
    }
}

/// A linear schedule has vested nothing at its start, everything from its
/// end on, and never more than its total in between.
pub proof fn lemma_linear_endpoints(s: VestingSchedule, t: u64)
    requires
        s is LinearVesting,
        s.start() < s.end(),
    ensures
        vested(s, s.start()) == 0,
        t >= s.end() ==> vested(s, t) == schedule_total(s),
        0 <= vested(s, t) <= schedule_total(s),
{
    lemma_vested_bounded(s, t);
}

/// A periodic schedule releases its first interval at the start itself.
pub proof fn lemma_periodic_first_tick(s: VestingSchedule)
    requires
        s is PeriodicVesting,
        s.computable(),
        s.start() < s.end(),
    ensures
        vested(s, s.start()) == s->amount,
{
}

/// Within the `k`-th interval of a periodic schedule the vested amount stays
/// at `k + 1` times the amount per interval.
pub proof fn lemma_periodic_flat(s: VestingSchedule, k: nat, t: u64)
    requires
        s is PeriodicVesting,
        s.computable(),
        s.start() + k * s->vesting_interval <= t < s.start() + (k + 1) * s->vesting_interval,
        t < s.end(),
    ensures
        vested(s, t) == s->amount * (k + 1),
{
    let i = s->vesting_interval as int;
    let r = t - s.start() - k * i;
    assert((k + 1) * i == k * i + i) by (nonlinear_arith);
    lemma_fundamental_div_mod_converse(t - s.start(), i, k as int, r);
}

/// At each interval boundary of a well-formed periodic schedule, up to and
/// including its end, the vested amount jumps by exactly one amount per
/// interval.
pub proof fn lemma_periodic_step(s: VestingSchedule, k: nat)
    requires
        s is PeriodicVesting,
        s.well_formed(),
        k >= 1,
        s.start() + k * s->vesting_interval <= s.end(),
    ensures
        vested(s, (s.start() + k * s->vesting_interval) as u64) == vested(
            s,
            (s.start() + k * s->vesting_interval - 1) as u64,
        ) + s->amount,
{
    let i = s->vesting_interval as int;
    let b = s.start() + k * i;
    assert(k * i >= i) by (nonlinear_arith)
        requires
            k >= 1,
            i > 0,
    ;
    let km1 = (k - 1) as nat;
    assert(km1 * i + i == k * i) by (nonlinear_arith)
        requires
            km1 == k - 1,
    ;
    lemma_periodic_flat(s, km1, (b - 1) as u64);
    if b < s.end() {
        assert((k + 1) * i == k * i + i) by (nonlinear_arith);
        lemma_periodic_flat(s, k, b as u64);
    } else {
        lemma_fundamental_div_mod_converse(s.end() - s.start(), i, k as int, 0);
    }
    assert(s->amount * (km1 + 1) + s->amount == s->amount * (k + 1)) by (nonlinear_arith)
        requires
            km1 + 1 == k,
    ;
}

/// From one second to the next, a well-formed periodic schedule releases
/// exactly one amount per interval when the later second is an interval
/// boundary, and nothing otherwise.
pub proof fn lemma_periodic_increment(s: VestingSchedule, t: u64)
    requires
        s is PeriodicVesting,
        s.well_formed(),
        s.start() <= t < s.end(),
    ensures
        vested(s, (t + 1) as u64) == vested(s, t) + if (t + 1 - s.start()) % (
        s->vesting_interval as int) == 0 {
            s->amount as int
        } else {
            0
        },
{
    let i = s->vesting_interval as int;
    let a = s->amount as int;
    let x = t - s.start();
    let q = x / i;
    let r = x % i;
    lemma_fundamental_div_mod(x, i);
    lemma_mod_pos_bound(x, i);
    if t + 1 == s.end() {
        assert((t + 1 - s.start()) % i == 0);
    }
    assert(vested(s, (t + 1) as u64) == a * (1 + (x + 1) / i));
    if r + 1 < i {
        lemma_fundamental_div_mod_converse(x + 1, i, q, r + 1);
    } else {
        assert(x + 1 == (q + 1) * i + 0) by (nonlinear_arith)
            requires
                x == i * q + r,
                r + 1 == i,
        ;
        lemma_fundamental_div_mod_converse(x + 1, i, q + 1, 0);
        assert(a * (1 + (q + 1)) == a * (1 + q) + a) by (nonlinear_arith);
    }
}

} // verus!
