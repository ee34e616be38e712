//! Linear vesting: tokens locked for a beneficiary become retrievable in
//! proportion to the time elapsed between a start and an end time.

use vstd::prelude::*;
use crate::rational::{safe_mul, safe_mul_fits, trunc_mul_div};

verus! {

/// Why a vesting operation is refused.
#[derive(Clone, Copy, Debug, PartialEq, Eq, Structural)]
pub enum VestError {
    InvalidDuration,
    ArithmeticError,
    InvalidAmount,
}

/// A vesting schedule's operations, on the values its state holds.
pub struct VestingContract;

/// The time vested at `now` of a schedule from `start` to `end`: none before
/// the start, all of it after the end.
pub open spec fn vested_time_spec(now: int, start: int, end: int) -> int {
    if now <= start {
        0
    } else if now >= end {
        end - start
    } else {
        now - start
    }
}

/// What the beneficiary can take at `now`: `locked * vested / duration`,
/// rounded toward zero, less what was paid out already.
pub open spec fn retrievable_spec(locked: int, paid_out: int, start: int, end: int, now: int) -> Result<
    int,
    VestError,
> {
    let t = vested_time_spec(now, start, end);
    if t == 0 {
        Ok(0)
    } else if !safe_mul_fits(locked, t, end - start) {
        Err(VestError::ArithmeticError)
    } else {
        let total = trunc_mul_div(locked, t, end - start);
        if total - paid_out < i128::MIN || total - paid_out > i128::MAX {
            Err(VestError::ArithmeticError)
        } else {
            Ok(total - paid_out)
        }
    }
}

impl VestingContract {
    /// The end time of a schedule of `duration` from `start_time`.
    pub fn end_time(start_time: u64, duration: u64) -> (r: Result<u64, VestError>)
        ensures
            r == (if duration < 1 || start_time + duration > u64::MAX {
                Err::<u64, VestError>(VestError::InvalidDuration)
            } else {
                Ok::<u64, VestError>((start_time + duration) as u64)
            }),
    {
        if duration < 1 {
            return Err(VestError::InvalidDuration);
        }
        match start_time.checked_add(duration) {
            Some(end) => Ok(end),
            None => Err(VestError::InvalidDuration),
        }
    }

    /// The time vested at `now` of a schedule from `start_time` to `end_time`.
    pub fn vested_time(now: u64, start_time: u64, end_time: u64) -> (r: u64)
        requires
            start_time <= end_time,
        ensures
            r == vested_time_spec(now as int, start_time as int, end_time as int),
    {
        if now <= start_time {
            return 0;
        }
        if now >= end_time {
            return end_time - start_time;
        }
        now - start_time
    }

    /// What the beneficiary of `locked` tokens, `paid_out` of them paid
    /// already, can take at `now`.
    pub fn retrievable_balance(
        locked: i128,
        paid_out: i128,
        start_time: u64,
        end_time: u64,
        now: u64,
    ) -> (r: Result<i128, VestError>)
        requires
            start_time <= end_time,
        ensures
            match r {
                Ok(v) => retrievable_spec(
                    locked as int,
                    paid_out as int,
                    start_time as int,
                    end_time as int,
                    now as int,
                ) == Ok::<int, VestError>(v as int),
                Err(e) => retrievable_spec(
                    locked as int,
                    paid_out as int,
                    start_time as int,
                    end_time as int,
                    now as int,
                ) == Err::<int, VestError>(e),
            },
    {
        let t = Self::vested_time(now, start_time, end_time);
        if t == 0 {
            return Ok(0);
        }
        let duration = (end_time - start_time) as i128;
        let total = match safe_mul(locked, t as i128, duration) {
            Ok(v) => v,
            Err(_) => return Err(VestError::ArithmeticError),
        };
        match total.checked_sub(paid_out) {
            Some(v) => Ok(v),
            None => Err(VestError::ArithmeticError),
        }
    }

    /// The locked total after `amount` more is locked.
    pub fn add_vest(locked: i128, amount: i128) -> (r: Result<i128, VestError>)
        ensures
            r == (if locked + amount < i128::MIN || locked + amount > i128::MAX {
                Err::<i128, VestError>(VestError::ArithmeticError)
            } else {
                Ok::<i128, VestError>((locked + amount) as i128)
            }),
    {
        match locked.checked_add(amount) {
            Some(v) => Ok(v),
            None => Err(VestError::ArithmeticError),
        }
    }

    /// A payout at `now`: the amount paid and the new paid-out total.
    pub fn pay_out(
        locked: i128,
        paid_out: i128,
        start_time: u64,
        end_time: u64,
        now: u64,
    ) -> (r: Result<(i128, i128), VestError>)
        requires
            start_time <= end_time,
        ensures
            match retrievable_spec(
                locked as int,
                paid_out as int,
                start_time as int,
                end_time as int,
                now as int,
            ) {
                Ok(v) => if v == 0 {
                    r == Ok::<(i128, i128), VestError>((0, paid_out))
                } else if paid_out + v < i128::MIN || paid_out + v > i128::MAX {
                    r == Err::<(i128, i128), VestError>(VestError::ArithmeticError)
                } else {
                    r is Ok && r->Ok_0.0 == v && r->Ok_0.1 == paid_out + v
                },
                Err(e) => r == Err::<(i128, i128), VestError>(e),
            },
    {
        let available = match Self::retrievable_balance(locked, paid_out, start_time, end_time, now) {
            Ok(v) => v,
            Err(e) => return Err(e),
        };
        if available == 0 {
            return Ok((0, paid_out));
        }
        match paid_out.checked_add(available) {
            Some(total) => Ok((available, total)),
            None => Err(VestError::ArithmeticError),
        }
    }
}

} // verus!
