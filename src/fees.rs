use vstd::prelude::*;

use crate::error::GrokError;

verus! {

/// Basis points in a whole: 10,000 bps is 100%.
pub const BPS_DENOMINATOR: u64 = 10_000;

/// Fee charged at `bps` basis points on `amount`, rounded down.
pub open spec fn fee_of(amount: int, bps: int) -> int {
    amount * bps / 10_000
}

/// A gross trade amount divided into the platform's fee, the creator's fee
/// and what is left for the trade itself.
#[derive(Clone, Copy, Debug, PartialEq, Eq, Structural)]
pub struct FeeSplit {
    pub platform_fee: u64,
    pub creator_fee: u64,
    pub net: u64,
}

/// The split of `gross`: both fees rounded down, and `Underflow` when they
/// exceed the gross amount together.
pub open spec fn fee_split(gross: u64, fee_bps: u16, creator_fee_bps: u16) -> Result<
    FeeSplit,
    GrokError,
> {
    let platform_fee = fee_of(gross as int, fee_bps as int);
    let creator_fee = fee_of(gross as int, creator_fee_bps as int);
    let net = gross - platform_fee - creator_fee;
    if net < 0 {
        Err(GrokError::Underflow)
    } else {
        Ok(
            FeeSplit {
                platform_fee: platform_fee as u64,
                creator_fee: creator_fee as u64,
                net: net as u64,
            },
        )
    }
}

/// Splits `gross` into the platform fee, the creator fee and the net amount.
/// Each fee is `floor(gross * bps / 10000)`, computed without overflow.
pub fn split_fees(gross: u64, fee_bps: u16, creator_fee_bps: u16) -> (r: Result<FeeSplit, GrokError>)
    ensures
        r == fee_split(gross, fee_bps, creator_fee_bps),
{
    let g = gross as u128;
    assert(g * (fee_bps as u128) <= u64::MAX * 65535) by (nonlinear_arith)
        requires
            g <= u64::MAX,
            fee_bps <= 65535,
    ;
    assert(g * (creator_fee_bps as u128) <= u64::MAX * 65535) by (nonlinear_arith)
        requires
            g <= u64::MAX,
            creator_fee_bps <= 65535,
    ;
    let platform_fee: u128 = g * (fee_bps as u128) / (BPS_DENOMINATOR as u128);
    let creator_fee: u128 = g * (creator_fee_bps as u128) / (BPS_DENOMINATOR as u128);
    if platform_fee > g {
        return Err(GrokError::Underflow);
    }
    let rest: u128 = g - platform_fee;
    if creator_fee > rest {
        return Err(GrokError::Underflow);
    }
    Ok(
        FeeSplit {
            platform_fee: platform_fee as u64,
            creator_fee: creator_fee as u64,
            net: (rest - creator_fee) as u64,
        },
    )
}

} // verus!
