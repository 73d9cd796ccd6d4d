use vstd::prelude::*;

use crate::account::AccountId;
use crate::curve::{curve_cost, linear_buy_cost};
use crate::error::GrokError;
use crate::fees::{fee_split, split_fees};
use vstd::arithmetic::div_mod::{lemma_basic_div, lemma_fundamental_div_mod, lemma_mod_pos_bound};

verus! {

/// Largest base price and slope that a launch accepts, in lamports.
pub const MAX_PRICE: u64 = 10_000_000_000;

/// Fee rates of one launch, together, may not exceed this many basis points.
pub const MAX_TOTAL_FEE_BPS: u64 = 10_000;

/// `10^n`.
pub open spec fn pow10(n: nat) -> nat
    decreases n,
{
    if n == 0 {
        1
    } else {
        10 * pow10((n - 1) as nat)
    }
}

/// Smallest units in one whole unit of an asset with `decimals` decimals.
pub open spec fn scale_of(decimals: u8) -> nat {
    pow10(decimals as nat)
}

/// Powers of ten are positive and grow with the exponent.
pub proof fn lemma_pow10_monotone(a: nat, b: nat)
    requires
        a <= b,
    ensures
        1 <= pow10(a) <= pow10(b),
    decreases b,
{
    if b > a {
        lemma_pow10_monotone(a, (b - 1) as nat);
    } else if a > 0 {
        lemma_pow10_monotone((a - 1) as nat, (a - 1) as nat);
    }
}

proof fn lemma_pow10_bounds()
    ensures
        pow10(18) == 1_000_000_000_000_000_000,
        pow10(20) == 100_000_000_000_000_000_000,
{
    reveal_with_fuel(pow10, 21);
}

/// Smallest units per whole unit for `decimals` decimals, or `None` where
/// that number does not fit in 64 bits.
pub fn unit_scale(decimals: u8) -> (r: Option<u64>)
    ensures
        decimals < 20 ==> r == Some(scale_of(decimals) as u64) && scale_of(decimals) <= u64::MAX,
        decimals >= 20 ==> r is None && scale_of(decimals) > u64::MAX,
{
    proof {
        lemma_pow10_bounds();
        lemma_pow10_monotone(decimals as nat, decimals as nat);
    }
    if decimals >= 20 {
        proof {
            lemma_pow10_monotone(20, decimals as nat);
        }
        return None;
    }
    let mut scale: u64 = 1;
    let mut i: u8 = 0;
    while i < decimals
        invariant
            0 <= i <= decimals < 20,
            scale == pow10(i as nat),
            pow10(18) == 1_000_000_000_000_000_000,
        decreases decimals - i,
    {
        proof {
            lemma_pow10_monotone(i as nat, 18);
        }
        scale = scale * 10;
        i = i + 1;
    }
    Some(scale)
}

/// The sale of one asset along its curve: parameters, counters, accrued
/// fees and the graduation flag.
#[derive(Clone, Copy, Debug, PartialEq, Eq)]
pub struct LaunchState {
    pub mint: AccountId,
    pub decimals: u8,
    pub base_price_lamports: u64,
    pub slope_lamports: u64,
    pub fee_bps: u16,
    pub creator_fee_bps: u16,
    pub platform_fee_recipient: AccountId,
    pub creator: AccountId,
    pub graduation_target_lamports: u64,
    pub graduated: bool,
    pub supply_remaining: u64,
    pub tokens_sold: u64,
    pub reserves_lamports: u64,
    pub platform_fee_accrued: u64,
    pub creator_fee_accrued: u64,
}

/// What a buy settled: the buyer pays `cost_lamports` and receives `amount`.
#[derive(Clone, Copy, Debug, PartialEq, Eq, Structural)]
pub struct BuyReceipt {
    pub amount: u64,
    pub cost_lamports: u64,
    pub platform_fee: u64,
    pub creator_fee: u64,
    pub net_lamports: u64,
    /// The launch graduated in this buy.
    pub graduated: bool,
}

/// What a sell settled: the seller hands in `amount` and receives `refund_net`.
#[derive(Clone, Copy, Debug, PartialEq, Eq, Structural)]
pub struct SellReceipt {
    pub amount: u64,
    pub refund_gross: u64,
    pub platform_fee: u64,
    pub creator_fee: u64,
    pub refund_net: u64,
}

/// Fees paid out of the reserves by one withdrawal.
#[derive(Clone, Copy, Debug, PartialEq, Eq, Structural)]
pub struct FeeWithdrawal {
    pub platform_withdrawn: u64,
    pub creator_withdrawn: u64,
}

impl LaunchState {
    pub open spec fn scale(self) -> nat {
        scale_of(self.decimals)
    }

    /// Whole units sold so far.
    pub open spec fn sold_units(self) -> int {
        self.tokens_sold as int / self.scale() as int
    }

    /// Price of `units` whole units starting at curve position `sold_before`.
    pub open spec fn price_of(self, sold_before: int, units: nat) -> int {
        curve_cost(self.base_price_lamports as int, self.slope_lamports as int, sold_before, units)
    }

    /// `amount` smallest units as a count of whole units: refused when it is
    /// below one whole unit or not a whole number of them.
    pub open spec fn whole_units(self, amount: u64) -> Result<nat, GrokError> {
        let units = amount as int / self.scale() as int;
        if units == 0 {
            Err(GrokError::ZeroUnits)
        } else if amount as int % self.scale() as int != 0 {
            Err(GrokError::NonIntegralAmount)
        } else {
            Ok(units as nat)
        }
    }

    /// Result of buying `amount` smallest units for at most `max_cost`
    /// lamports: the state after the buy and its receipt, or the refusal.
    pub open spec fn buy_outcome(self, paused: bool, amount: u64, max_cost: u64) -> Result<
        (LaunchState, BuyReceipt),
        GrokError,
    > {
        if self.graduated {
            Err(GrokError::LaunchGraduated)
        } else if paused {
            Err(GrokError::ProgramPaused)
        } else if amount == 0 {
            Err(GrokError::ZeroAmount)
        } else if amount > self.supply_remaining {
            Err(GrokError::NotEnoughSupply)
        } else {
            match self.whole_units(amount) {
                Err(e) => Err(e),
                Ok(units) => {
                    let cost = self.price_of(self.sold_units(), units);
                    if cost > u64::MAX {
                        Err(GrokError::Overflow)
                    } else if cost > max_cost {
                        Err(GrokError::SlippageExceeded)
                    } else {
                        match fee_split(cost as u64, self.fee_bps, self.creator_fee_bps) {
                            Err(e) => Err(e),
                            Ok(split) => {
                                let sold = self.tokens_sold + amount;
                                let platform = self.platform_fee_accrued + split.platform_fee;
                                let creator = self.creator_fee_accrued + split.creator_fee;
                                let reserves = self.reserves_lamports + split.net;
                                if sold > u64::MAX || platform > u64::MAX || creator > u64::MAX
                                    || reserves > u64::MAX {
                                    Err(GrokError::Overflow)
                                } else {
                                    let graduated = reserves >= self.graduation_target_lamports;
                                    Ok(
                                        (
                                            LaunchState {
                                                tokens_sold: sold as u64,
                                                supply_remaining: (self.supply_remaining
                                                    - amount) as u64,
                                                platform_fee_accrued: platform as u64,
                                                creator_fee_accrued: creator as u64,
                                                reserves_lamports: reserves as u64,
                                                graduated,
                                                ..self
                                            },
                                            BuyReceipt {
                                                amount,
                                                cost_lamports: cost as u64,
                                                platform_fee: split.platform_fee,
                                                creator_fee: split.creator_fee,
                                                net_lamports: split.net,
                                                graduated,
                                            },
                                        ),
                                    )
                                }
                            },
                        }
                    }
                },
            }
        }
    }
    /// Result of selling `amount` smallest units back for at least
    /// `min_payout` lamports. The units sold back are priced as the last ones
    /// bought: at the positions just below the units sold so far.
    pub open spec fn sell_outcome(self, paused: bool, amount: u64, min_payout: u64) -> Result<
        (LaunchState, SellReceipt),
        GrokError,
    > {
        if self.graduated {
            Err(GrokError::LaunchGraduated)
        } else if paused {
            Err(GrokError::ProgramPaused)
        } else if amount == 0 {
            Err(GrokError::ZeroAmount)
        } else {
            match self.whole_units(amount) {
                Err(e) => Err(e),
                Ok(units) => {
                    let total = self.sold_units();
                    if units > total {
                        Err(GrokError::Underflow)
                    } else {
                        let refund = self.price_of(total - units, units);
                        if refund > u64::MAX {
                            Err(GrokError::Overflow)
                        } else {
                            match fee_split(refund as u64, self.fee_bps, self.creator_fee_bps) {
                                Err(e) => Err(e),
                                Ok(split) => {
                                    let platform = self.platform_fee_accrued + split.platform_fee;
                                    let creator = self.creator_fee_accrued + split.creator_fee;
                                    let supply = self.supply_remaining + amount;
                                    if split.net < min_payout {
                                        Err(GrokError::SlippageExceeded)
                                    } else if split.net > self.reserves_lamports {
                                        Err(GrokError::Underflow)
                                    } else if platform > u64::MAX || creator > u64::MAX || supply
                                        > u64::MAX {
                                        Err(GrokError::Overflow)
                                    } else {
                                        Ok(
                                            (
                                                LaunchState {
                                                    platform_fee_accrued: platform as u64,
                                                    creator_fee_accrued: creator as u64,
                                                    reserves_lamports: (self.reserves_lamports
                                                        - split.net) as u64,
                                                    tokens_sold: (self.tokens_sold
                                                        - amount) as u64,
                                                    supply_remaining: supply as u64,
                                                    ..self
                                                },
                                                SellReceipt {
                                                    amount,
                                                    refund_gross: refund as u64,
                                                    platform_fee: split.platform_fee,
                                                    creator_fee: split.creator_fee,
                                                    refund_net: split.net,
                                                },
                                            ),
                                        )
                                    }
                                },
                            }
                        }
                    }
                },
            }
        }
    }

    /// Result of paying out both accrued fees from the reserves.
    pub open spec fn withdraw_outcome(self) -> Result<(LaunchState, FeeWithdrawal), GrokError> {
        let owed = self.platform_fee_accrued + self.creator_fee_accrued;
        if owed > self.reserves_lamports {
            Err(GrokError::Underflow)
        } else {
            Ok(
                (
                    LaunchState {
                        reserves_lamports: (self.reserves_lamports - owed) as u64,
                        platform_fee_accrued: 0,
                        creator_fee_accrued: 0,
                        ..self
                    },
                    FeeWithdrawal {
                        platform_withdrawn: self.platform_fee_accrued,
                        creator_withdrawn: self.creator_fee_accrued,
                    },
                ),
            )
        }
    }

    /// Result of the standalone graduation.
    pub open spec fn graduate_outcome(self) -> Result<LaunchState, GrokError> {
        if self.graduated {
            Err(GrokError::LaunchGraduated)
        } else if self.reserves_lamports < self.graduation_target_lamports {
            Err(GrokError::NotYetGraduate)
        } else {
            Ok(LaunchState { graduated: true, ..self })
        }
    }

    /// Opens a launch with every counter at zero and `initial_supply`
    /// smallest units on offer. Refuses a base price of zero, a base price or
    /// slope above `MAX_PRICE` (`InvalidParam`), and fee rates that together
    /// exceed 100% (`FeeTooHigh`).
    pub fn initialize_launch(
        mint: AccountId,
        decimals: u8,
        base_price_lamports: u64,
        slope_lamports: u64,
        fee_bps: u16,
        creator_fee_bps: u16,
        platform_fee_recipient: AccountId,
        creator: AccountId,
        graduation_target_lamports: u64,
        initial_supply: u64,
    ) -> (r: Result<LaunchState, GrokError>)
        ensures
            base_price_lamports == 0 || base_price_lamports > MAX_PRICE || slope_lamports
                > MAX_PRICE ==> r == Err::<LaunchState, GrokError>(GrokError::InvalidParam),
            !(base_price_lamports == 0 || base_price_lamports > MAX_PRICE || slope_lamports
                > MAX_PRICE) && fee_bps + creator_fee_bps > MAX_TOTAL_FEE_BPS ==> r == Err::<
                LaunchState,
                GrokError,
            >(GrokError::FeeTooHigh),
            !(base_price_lamports == 0 || base_price_lamports > MAX_PRICE || slope_lamports
                > MAX_PRICE) && fee_bps + creator_fee_bps <= MAX_TOTAL_FEE_BPS ==> r == Ok::<
                LaunchState,
                GrokError,
            >(
                (LaunchState {
                    mint,
                    decimals,
                    base_price_lamports,
                    slope_lamports,
                    fee_bps,
                    creator_fee_bps,
                    platform_fee_recipient,
                    creator,
                    graduation_target_lamports,
                    graduated: false,
                    supply_remaining: initial_supply,
                    tokens_sold: 0,
                    reserves_lamports: 0,
                    platform_fee_accrued: 0,
                    creator_fee_accrued: 0,
                }),
            ),
    {
        if base_price_lamports == 0 || base_price_lamports > MAX_PRICE {
            return Err(GrokError::InvalidParam);
        }
        if slope_lamports > MAX_PRICE {
            return Err(GrokError::InvalidParam);
        }
        if fee_bps as u64 + creator_fee_bps as u64 > MAX_TOTAL_FEE_BPS {
            return Err(GrokError::FeeTooHigh);
        }
        Ok(
            LaunchState {
                mint,
                decimals,
                base_price_lamports,
                slope_lamports,
                fee_bps,
                creator_fee_bps,
                platform_fee_recipient,
                creator,
                graduation_target_lamports,
                graduated: false,
                supply_remaining: initial_supply,
                tokens_sold: 0,
                reserves_lamports: 0,
                platform_fee_accrued: 0,
                creator_fee_accrued: 0,
            },
        )
    }

    /// Whole units in `amount`, with the whole units sold so far.
    fn units_for(&self, amount: u64) -> (r: Result<(u64, u64), GrokError>)
        ensures
            match self.whole_units(amount) {
                Ok(units) => r matches Ok((u, s)) && u == units && s == self.sold_units(),
                Err(e) => r == Err::<(u64, u64), GrokError>(e),
            },
    {
        match unit_scale(self.decimals) {
            None => {
                proof {
                    lemma_basic_div(amount as int, self.scale() as int);
                }
                Err(GrokError::ZeroUnits)
            },
            Some(scale) => {
                proof {
                    lemma_pow10_monotone(0, self.decimals as nat);
                }
                let units = amount / scale;
                if units == 0 {
                    return Err(GrokError::ZeroUnits);
                }
                if amount % scale != 0 {
                    return Err(GrokError::NonIntegralAmount);
                }
                Ok((units, self.tokens_sold / scale))
            },
        }
    }

    /// Buys `amount` smallest units at the curve's price for the units sold
    /// so far, paying at most `max_cost_lamports`; fees accrue, the net
    /// payment joins the reserves, and the launch graduates once the reserves
    /// reach the target. Refused on a graduated launch, and while trading is
    /// `paused`. A refused buy leaves the state as it was.
    pub fn buy(&mut self, paused: bool, amount: u64, max_cost_lamports: u64) -> (r: Result<
        BuyReceipt,
        GrokError,
    >)
        ensures
            match old(self).buy_outcome(paused, amount, max_cost_lamports) {
                Ok((next, receipt)) => r == Ok::<BuyReceipt, GrokError>(receipt) && *final(self)
                    == next,
                Err(e) => r == Err::<BuyReceipt, GrokError>(e) && *final(self) == *old(self),
            },
    {
        if self.graduated {
            return Err(GrokError::LaunchGraduated);
        }
        if paused {
            return Err(GrokError::ProgramPaused);
        }
        if amount == 0 {
            return Err(GrokError::ZeroAmount);
        }
        if amount > self.supply_remaining {
            return Err(GrokError::NotEnoughSupply);
        }
        let (units, sold_before) = match self.units_for(amount) {
            Ok(pair) => pair,
            Err(e) => return Err(e),
        };
        let cost = match linear_buy_cost(
            self.base_price_lamports,
            self.slope_lamports,
            sold_before,
            units,
        ) {
            Ok(c) => c,
            Err(e) => return Err(e),
        };
        if cost > max_cost_lamports {
            return Err(GrokError::SlippageExceeded);
        }
        let split = match split_fees(cost, self.fee_bps, self.creator_fee_bps) {
            Ok(s) => s,
            Err(e) => return Err(e),
        };
        let tokens_sold = match self.tokens_sold.checked_add(amount) {
            Some(v) => v,
            None => return Err(GrokError::Overflow),
        };
        let platform_fee_accrued = match self.platform_fee_accrued.checked_add(split.platform_fee) {
            Some(v) => v,
            None => return Err(GrokError::Overflow),
        };
        let creator_fee_accrued = match self.creator_fee_accrued.checked_add(split.creator_fee) {
            Some(v) => v,
            None => return Err(GrokError::Overflow),
        };
        let reserves = match self.reserves_lamports.checked_add(split.net) {
            Some(v) => v,
            None => return Err(GrokError::Overflow),
        };
        let graduated = reserves >= self.graduation_target_lamports;
        self.tokens_sold = tokens_sold;
        self.supply_remaining = self.supply_remaining - amount;
        self.platform_fee_accrued = platform_fee_accrued;
        self.creator_fee_accrued = creator_fee_accrued;
        self.reserves_lamports = reserves;
        self.graduated = graduated;
        Ok(
            BuyReceipt {
                amount,
                cost_lamports: cost,
                platform_fee: split.platform_fee,
                creator_fee: split.creator_fee,
                net_lamports: split.net,
                graduated,
            },
        )
    }
    /// Sells `amount` smallest units back to the curve for at least
    /// `min_payout_lamports`, priced as the last units bought; fees accrue as
    /// on a buy and the net payout leaves the reserves. Refused on a graduated
    /// launch, and while trading is `paused`. A refused sell leaves the state
    /// as it was.
    pub fn sell(&mut self, paused: bool, amount: u64, min_payout_lamports: u64) -> (r: Result<
        SellReceipt,
        GrokError,
    >)
        ensures
            match old(self).sell_outcome(paused, amount, min_payout_lamports) {
                Ok((next, receipt)) => r == Ok::<SellReceipt, GrokError>(receipt) && *final(self)
                    == next,
                Err(e) => r == Err::<SellReceipt, GrokError>(e) && *final(self) == *old(self),
            },
    {
        if self.graduated {
            return Err(GrokError::LaunchGraduated);
        }
        if paused {
            return Err(GrokError::ProgramPaused);
        }
        if amount == 0 {
            return Err(GrokError::ZeroAmount);
        }
        let (units, total_units) = match self.units_for(amount) {
            Ok(pair) => pair,
            Err(e) => return Err(e),
        };
        if units > total_units {
            return Err(GrokError::Underflow);
        }
        let refund = match linear_buy_cost(
            self.base_price_lamports,
            self.slope_lamports,
            total_units - units,
            units,
        ) {
            Ok(c) => c,
            Err(e) => return Err(e),
        };
        let split = match split_fees(refund, self.fee_bps, self.creator_fee_bps) {
            Ok(s) => s,
            Err(e) => return Err(e),
        };
        if split.net < min_payout_lamports {
            return Err(GrokError::SlippageExceeded);
        }
        if split.net > self.reserves_lamports {
            return Err(GrokError::Underflow);
        }
        let platform_fee_accrued = match self.platform_fee_accrued.checked_add(split.platform_fee) {
            Some(v) => v,
            None => return Err(GrokError::Overflow),
        };
        let creator_fee_accrued = match self.creator_fee_accrued.checked_add(split.creator_fee) {
            Some(v) => v,
            None => return Err(GrokError::Overflow),
        };
        let supply_remaining = match self.supply_remaining.checked_add(amount) {
            Some(v) => v,
            None => return Err(GrokError::Overflow),
        };
        proof {
            lemma_pow10_monotone(0, self.decimals as nat);
            lemma_whole_amount_within(amount as int, self.tokens_sold as int, self.scale() as int);
        }
        self.platform_fee_accrued = platform_fee_accrued;
        self.creator_fee_accrued = creator_fee_accrued;
        self.reserves_lamports = self.reserves_lamports - split.net;
        self.tokens_sold = self.tokens_sold - amount;
        self.supply_remaining = supply_remaining;
        Ok(
            SellReceipt {
                amount,
                refund_gross: refund,
                platform_fee: split.platform_fee,
                creator_fee: split.creator_fee,
                refund_net: split.net,
            },
        )
    }

    /// Pays both accrued fees out of the reserves and zeroes them. With
    /// nothing accrued this succeeds and changes nothing, so it is safe to
    /// repeat. Fails with `Underflow`, changing nothing, when the reserves do
    /// not cover both fees.
    pub fn withdraw_fees(&mut self) -> (r: Result<FeeWithdrawal, GrokError>)
        ensures
            match old(self).withdraw_outcome() {
                Ok((next, paid)) => r == Ok::<FeeWithdrawal, GrokError>(paid) && *final(self)
                    == next,
                Err(e) => r == Err::<FeeWithdrawal, GrokError>(e) && *final(self) == *old(self),
            },
    {
        let platform = self.platform_fee_accrued;
        let creator = self.creator_fee_accrued;
        if platform > self.reserves_lamports {
            return Err(GrokError::Underflow);
        }
        let after_platform = self.reserves_lamports - platform;
        if creator > after_platform {
            return Err(GrokError::Underflow);
        }
        self.reserves_lamports = after_platform - creator;
        self.platform_fee_accrued = 0;
        self.creator_fee_accrued = 0;
        Ok(FeeWithdrawal { platform_withdrawn: platform, creator_withdrawn: creator })
    }

    /// Graduates the launch on its own, once the reserves have reached the
    /// target. A graduated launch stays graduated.
    pub fn graduate(&mut self) -> (r: Result<(), GrokError>)
        ensures
            match old(self).graduate_outcome() {
                Ok(next) => r == Ok::<(), GrokError>(()) && *final(self) == next,
                Err(e) => r == Err::<(), GrokError>(e) && *final(self) == *old(self),
            },
    {
        if self.graduated {
            return Err(GrokError::LaunchGraduated);
        }
        if self.reserves_lamports < self.graduation_target_lamports {
            return Err(GrokError::NotYetGraduate);
        }
        self.graduated = true;
        Ok(())
    }

    /// Checks that the accounts handed in as fee recipients are the ones the
    /// launch recorded.
    pub fn verify_recipients(&self, platform_fee_recipient: &AccountId, creator: &AccountId) -> (r:
        Result<(), GrokError>)
        ensures
            self.platform_fee_recipient.bytes@ == platform_fee_recipient.bytes@
                && self.creator.bytes@ == creator.bytes@ ==> r == Ok::<(), GrokError>(()),
            !(self.platform_fee_recipient.bytes@ == platform_fee_recipient.bytes@
                && self.creator.bytes@ == creator.bytes@) ==> r == Err::<(), GrokError>(
                GrokError::InvalidOwner,
            ),
    {
        if !self.platform_fee_recipient.same_as(platform_fee_recipient) {
            return Err(GrokError::InvalidOwner);
        }
        if !self.creator.same_as(creator) {
            return Err(GrokError::InvalidOwner);
        }
        Ok(())
    }
}

/// A whole number of units that does not exceed the whole units of `tokens`
/// does not exceed `tokens`.
pub proof fn lemma_whole_amount_within(amount: int, tokens: int, scale: int)
    requires
        scale > 0,
        amount >= 0,
        tokens >= 0,
        amount % scale == 0,
        amount / scale <= tokens / scale,
    ensures
        amount <= tokens,
{
    lemma_fundamental_div_mod(amount, scale);
    lemma_fundamental_div_mod(tokens, scale);
    lemma_mod_pos_bound(tokens, scale);
    let qa = amount / scale;
    let qt = tokens / scale;
    assert(scale * qa <= scale * qt) by (nonlinear_arith)
        requires
            scale > 0,
            qa <= qt,
    ;
}

} // verus!
