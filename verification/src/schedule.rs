//! When a worker polls: always on a wall-clock boundary of its interval, so
//! that workers with the same interval poll at the same instants.

use vstd::arithmetic::div_mod::{
    lemma_fundamental_div_mod,
    lemma_fundamental_div_mod_converse,
    lemma_mod_bound,
};
use vstd::arithmetic::mul::{lemma_mul_is_commutative, lemma_mul_is_distributive_add_other_way};
use vstd::prelude::*;

verus! {

/// Milliseconds in one second.
pub const MILLIS_PER_SECOND: u64 = 1000;

/// Whether `instant` is a multiple of `interval`.
pub open spec fn on_boundary(instant: int, interval: int) -> bool {
    instant % interval == 0
}

/// How long to wait at time `now` for the next multiple of `interval`:
/// nothing on a boundary, otherwise what is left of the running interval.
pub open spec fn delay_to_boundary(now: int, interval: int) -> int {
    let remainder = now % interval;
    if remainder == 0 {
        0
    } else {
        interval - remainder
    }
}

/// The wait leads to a boundary, is shorter than one interval, and no
/// shorter wait leads to a boundary.
pub proof fn lemma_delay_reaches_next_boundary(now: int, interval: int)
    requires
        interval > 0,
    ensures
        0 <= delay_to_boundary(now, interval) < interval,
        on_boundary(now + delay_to_boundary(now, interval), interval),
        forall|instant: int|
            now <= instant < now + delay_to_boundary(now, interval) ==> !#[trigger] on_boundary(
                instant,
                interval,
            ),
{
    let remainder = now % interval;
    let quotient = now / interval;
    lemma_mod_bound(now, interval);
    lemma_fundamental_div_mod(now, interval);
    lemma_mul_is_commutative(interval, quotient);
    if remainder != 0 {
        assert((quotient + 1) * interval == quotient * interval + interval) by {
            lemma_mul_is_distributive_add_other_way(interval, quotient, 1);
        }
        lemma_fundamental_div_mod_converse(now + interval - remainder, interval, quotient + 1, 0);
    }
    assert forall|instant: int|
        now <= instant < now + delay_to_boundary(now, interval) implies !#[trigger] on_boundary(
        instant,
        interval,
    ) by {
        lemma_fundamental_div_mod_converse(
            instant,
            interval,
            quotient,
            remainder + (instant - now),
        );
    }
}

/// The interval of a client that polls every `seconds` seconds, in
/// milliseconds; `None` when that does not fit the machine word.
pub fn interval_millis(seconds: u64) -> (millis: Option<u64>)
    ensures
        millis == if seconds * MILLIS_PER_SECOND <= u64::MAX {
            Some((seconds * MILLIS_PER_SECOND) as u64)
        } else {
            None
        },
{
    if seconds <= u64::MAX / MILLIS_PER_SECOND {
        Some(seconds * MILLIS_PER_SECOND)
    } else {
        None
    }
}

/// How many milliseconds to wait at `now_millis` (milliseconds since the
/// epoch) for the next boundary of `interval_millis`.
pub fn alignment_delay(now_millis: i64, interval_millis: u64) -> (delay: u64)
    requires
        interval_millis > 0,
    ensures
        delay == delay_to_boundary(now_millis as int, interval_millis as int),
{
    if now_millis >= 0 {
        let remainder: u64 = now_millis as u64 % interval_millis;
        if remainder == 0 {
            0
        } else {
            interval_millis - remainder
        }
    } else {
        let behind: u64 = (-(now_millis + 1)) as u64 + 1;
        let remainder: u64 = behind % interval_millis;
        proof {
            let interval = interval_millis as int;
            let quotient = behind as int / interval;
            lemma_mod_bound(behind as int, interval);
            lemma_fundamental_div_mod(behind as int, interval);
            lemma_mul_is_commutative(interval, quotient);
            if remainder == 0 {
                assert((-quotient) * interval == -(quotient * interval)) by (nonlinear_arith);
                lemma_fundamental_div_mod_converse(now_millis as int, interval, -quotient, 0);
            } else {
                assert((-quotient - 1) * interval == -(quotient * interval) - interval)
                    by (nonlinear_arith);
                lemma_fundamental_div_mod_converse(
                    now_millis as int,
                    interval,
                    -quotient - 1,
                    interval - remainder,
                );
            }
        }
        remainder
    }
}

} // verus!
