use vstd::prelude::*;

use crate::address::Address;

verus! {

/// The highest fee rate, in basis points (10%).
pub const MAX_FEE_RATE: i128 = 1000;

/// Basis points in a whole.
pub const BASIS_POINTS: i128 = 10_000;

/// Why a fee configuration change was refused.
#[derive(Debug, Clone, Copy, PartialEq, Eq, Structural)]
pub enum FeeError {
    /// A rate is negative or above `MAX_FEE_RATE`.
    InvalidFeeRate,
    /// A fixed fee is negative.
    InvalidFixedFee,
}

/// Fee parameters for lock and payout operations.
pub struct FeeConfig {
    /// Fee on locked amounts, in basis points.
    pub lock_fee_rate: i128,
    /// Fee on each payout, in basis points.
    pub payout_fee_rate: i128,
    /// Flat fee on each lock, in token base units.
    pub lock_fixed_fee: i128,
    /// Flat fee on each payout, in token base units.
    pub payout_fixed_fee: i128,
    /// Who receives collected fees.
    pub fee_recipient: Address,
    /// Whether fees are deducted at all.
    pub fee_enabled: bool,
}

/// A rate in `0..=MAX_FEE_RATE`.
pub open spec fn valid_rate(rate: i128) -> bool {
    0 <= rate <= MAX_FEE_RATE
}

impl FeeConfig {
    /// Rates within bounds and fixed fees non-negative.
    pub open spec fn valid(&self) -> bool {
        &&& valid_rate(self.lock_fee_rate)
        &&& valid_rate(self.payout_fee_rate)
        &&& self.lock_fixed_fee >= 0
        &&& self.payout_fixed_fee >= 0
    }

    /// The configuration a new escrow starts with: no fees, disabled.
    pub fn new(fee_recipient: Address) -> (r: FeeConfig)
        ensures
            r.valid(),
            r.lock_fee_rate == 0,
            r.payout_fee_rate == 0,
            r.lock_fixed_fee == 0,
            r.payout_fixed_fee == 0,
            r.fee_recipient == fee_recipient,
            !r.fee_enabled,
    {
        FeeConfig {
            lock_fee_rate: 0,
            payout_fee_rate: 0,
            lock_fixed_fee: 0,
            payout_fixed_fee: 0,
            fee_recipient,
            fee_enabled: false,
        }
    }

    /// Changes the fields given as `Some`, leaving the others as they are.
    /// All values are checked before anything is written: a refused update
    /// changes nothing.
    pub fn update_fee_config(
        &mut self,
        lock_fee_rate: Option<i128>,
        payout_fee_rate: Option<i128>,
        lock_fixed_fee: Option<i128>,
        payout_fixed_fee: Option<i128>,
        fee_recipient: Option<Address>,
        fee_enabled: Option<bool>,
    ) -> (r: Result<(), FeeError>)
        ensures
            r == update_outcome(lock_fee_rate, payout_fee_rate, lock_fixed_fee, payout_fixed_fee),
            r is Err ==> *final(self) == *old(self),
            r is Ok ==> {
                &&& final(self).lock_fee_rate == opt_or(lock_fee_rate, old(self).lock_fee_rate)
                &&& final(self).payout_fee_rate == opt_or(
                    payout_fee_rate,
                    old(self).payout_fee_rate,
                )
                &&& final(self).lock_fixed_fee == opt_or(lock_fixed_fee, old(self).lock_fixed_fee)
                &&& final(self).payout_fixed_fee == opt_or(
                    payout_fixed_fee,
                    old(self).payout_fixed_fee,
                )
                &&& final(self).fee_recipient == opt_or(fee_recipient, old(self).fee_recipient)
                &&& final(self).fee_enabled == opt_or(fee_enabled, old(self).fee_enabled)
            },
    {
        if let Some(rate) = lock_fee_rate {
            if rate < 0 || rate > MAX_FEE_RATE {
                return Err(FeeError::InvalidFeeRate);
            }
        }
        if let Some(rate) = payout_fee_rate {
            if rate < 0 || rate > MAX_FEE_RATE {
                return Err(FeeError::InvalidFeeRate);
            }
        }
        if let Some(fee) = lock_fixed_fee {
            if fee < 0 {
                return Err(FeeError::InvalidFixedFee);
            }
        }
        if let Some(fee) = payout_fixed_fee {
            if fee < 0 {
                return Err(FeeError::InvalidFixedFee);
            }
        }
        if let Some(rate) = lock_fee_rate {
            self.lock_fee_rate = rate;
        }
        if let Some(rate) = payout_fee_rate {
            self.payout_fee_rate = rate;
        }
        if let Some(fee) = lock_fixed_fee {
            self.lock_fixed_fee = fee;
        }
        if let Some(fee) = payout_fixed_fee {
            self.payout_fixed_fee = fee;
        }
        if let Some(recipient) = fee_recipient {
            self.fee_recipient = recipient;
        }
        if let Some(enabled) = fee_enabled {
            self.fee_enabled = enabled;
        }
        Ok(())
    }

    /// The fee on a payout of `amount` under this configuration.
    pub fn payout_fee(&self, amount: i128) -> (fee: i128)
        requires
            self.valid(),
            amount >= 0,
        ensures
            fee == (if self.fee_enabled {
                fee_for(amount as int, self.payout_fee_rate as int, self.payout_fixed_fee as int)
            } else {
                0
            }),
            0 <= fee <= amount,
    {
        if self.fee_enabled {
            calculate_fee(amount, self.payout_fee_rate, self.payout_fixed_fee)
        } else {
            0
        }
    }

    /// The fee on a lock of `amount` under this configuration.
    pub fn lock_fee(&self, amount: i128) -> (fee: i128)
        requires
            self.valid(),
            amount >= 0,
        ensures
            fee == (if self.fee_enabled {
                fee_for(amount as int, self.lock_fee_rate as int, self.lock_fixed_fee as int)
            } else {
                0
            }),
            0 <= fee <= amount,
    {
        if self.fee_enabled {
            calculate_fee(amount, self.lock_fee_rate, self.lock_fixed_fee)
        } else {
            0
        }
    }
}

/// The given value, or the current one when none is given.
pub open spec fn opt_or<T>(given: Option<T>, current: T) -> T {
    match given {
        Some(v) => v,
        None => current,
    }
}

/// Which error, if any, an update with these values meets.
pub open spec fn update_outcome(
    lock_fee_rate: Option<i128>,
    payout_fee_rate: Option<i128>,
    lock_fixed_fee: Option<i128>,
    payout_fixed_fee: Option<i128>,
) -> Result<(), FeeError> {
    if (lock_fee_rate matches Some(r) && !valid_rate(r)) || (payout_fee_rate matches Some(r)
        && !valid_rate(r)) {
        Err(FeeError::InvalidFeeRate)
    } else if (lock_fixed_fee matches Some(f) && f < 0) || (payout_fixed_fee matches Some(f) && f
        < 0) {
        Err(FeeError::InvalidFixedFee)
    } else {
        Ok(())
    }
}

/// The fee on `amount`: `rate` basis points of it, rounded down, plus the
/// fixed fee, never more than the amount itself.
pub open spec fn fee_for(amount: int, rate: int, fixed: int) -> int {
    let fee = amount * rate / (BASIS_POINTS as int) + fixed;
    if fee > amount {
        amount
    } else {
        fee
    }
}

proof fn lemma_split_percentage(amount: int, rate: int)
    requires
        amount >= 0,
        0 <= rate <= MAX_FEE_RATE,
    ensures
        amount * rate / 10000 == (amount / 10000) * rate + (amount % 10000) * rate / 10000,
        0 <= (amount % 10000) * rate / 10000 <= 1000,
        0 <= (amount / 10000) * rate <= amount / 10,
        amount * rate / 10000 <= amount,
{
    let q = amount / 10000;
    let r = amount % 10000;
    assert(amount == q * 10000 + r) by (nonlinear_arith)
        requires
            q == amount / 10000,
            r == amount % 10000,
    ;
    assert(amount * rate == (q * rate) * 10000 + r * rate) by (nonlinear_arith)
        requires
            amount == q * 10000 + r,
    ;
    assert(0 <= r * rate <= 9999 * 1000) by (nonlinear_arith)
        requires
            0 <= r < 10000,
            0 <= rate <= 1000,
    ;
    assert(((q * rate) * 10000 + r * rate) / 10000 == q * rate + (r * rate) / 10000)
        by (nonlinear_arith)
        requires
            r * rate >= 0,
    ;
    assert(0 <= q * rate <= q * 1000) by (nonlinear_arith)
        requires
            q >= 0,
            0 <= rate <= 1000,
    ;
    assert(q * 1000 <= amount / 10) by (nonlinear_arith)
        requires
            q == amount / 10000,
            amount >= 0,
    ;
    assert(amount * rate / 10000 <= amount) by (nonlinear_arith)
        requires
            amount >= 0,
            0 <= rate <= 1000,
    ;
}

/// The fee on `amount` at `rate` basis points plus `fixed`, capped at the
/// amount; computed without intermediate overflow.
pub fn calculate_fee(amount: i128, rate: i128, fixed: i128) -> (fee: i128)
    requires
        amount >= 0,
        valid_rate(rate),
        fixed >= 0,
    ensures
        fee == fee_for(amount as int, rate as int, fixed as int),
        0 <= fee <= amount,
{
    proof {
        lemma_split_percentage(amount as int, rate as int);
    }
    let whole = amount / BASIS_POINTS;
    let part = amount % BASIS_POINTS;
    let percentage = whole * rate + part * rate / BASIS_POINTS;
    if fixed > amount - percentage {
        amount
    } else {
        percentage + fixed
    }
}

/// A fee never exceeds the amount it is taken from and is never negative.
pub proof fn lemma_fee_within_amount(amount: int, rate: int, fixed: int)
    requires
        amount >= 0,
        0 <= rate <= MAX_FEE_RATE,
        fixed >= 0,
    ensures
        0 <= fee_for(amount, rate, fixed) <= amount,
{
    assert(0 <= amount * rate / 10000 <= amount) by (nonlinear_arith)
        requires
            amount >= 0,
            0 <= rate <= 1000,
    ;
}

/// An update is accepted exactly when every given rate lies in
/// `0..=MAX_FEE_RATE` and every given fixed fee is zero or more; zero rates
/// and zero fixed fees are accepted.
pub proof fn lemma_update_accepted_iff_in_range(
    lock_fee_rate: Option<i128>,
    payout_fee_rate: Option<i128>,
    lock_fixed_fee: Option<i128>,
    payout_fixed_fee: Option<i128>,
)
    ensures
        update_outcome(lock_fee_rate, payout_fee_rate, lock_fixed_fee, payout_fixed_fee) is Ok
            <==> ({
            &&& lock_fee_rate matches Some(r) ==> 0 <= r <= 1000
            &&& payout_fee_rate matches Some(r) ==> 0 <= r <= 1000
            &&& lock_fixed_fee matches Some(f) ==> f >= 0
            &&& payout_fixed_fee matches Some(f) ==> f >= 0
        }),
{
}

} // verus!
