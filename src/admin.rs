use vstd::prelude::*;

use crate::account::AccountId;

verus! {

/// Platform-wide settings, changed only by the admin.
#[derive(Clone, Copy, Debug, PartialEq, Eq)]
pub struct GlobalConfig {
    pub admin: AccountId,
    pub treasury: AccountId,
    pub curve_fee_bps: u16,
    pub amm_fee_bps: u16,
    pub creator_kickback_bps: u16,
    pub graduation_target_usd: u64,
    pub paused: bool,
}

/// An update of the settings: each field that is present replaces the
/// setting, each absent one leaves it as it is.
#[derive(Clone, Copy, Debug, PartialEq, Eq, Default)]
pub struct AdminArgs {
    pub curve_fee_bps: Option<u16>,
    pub amm_fee_bps: Option<u16>,
    pub creator_kickback_bps: Option<u16>,
    pub graduation_target_usd: Option<u64>,
    pub treasury: Option<AccountId>,
    pub paused: Option<bool>,
}

/// `new` where an update holds it, else `current`.
pub open spec fn updated<T>(current: T, new: Option<T>) -> T {
    match new {
        Some(v) => v,
        None => current,
    }
}

/// Applies `args` to the settings, field by field.
pub fn handler(global: &mut GlobalConfig, args: AdminArgs)
    ensures
        final(global).admin == old(global).admin,
        final(global).curve_fee_bps == updated(old(global).curve_fee_bps, args.curve_fee_bps),
        final(global).amm_fee_bps == updated(old(global).amm_fee_bps, args.amm_fee_bps),
        final(global).creator_kickback_bps == updated(
            old(global).creator_kickback_bps,
            args.creator_kickback_bps,
        ),
        final(global).graduation_target_usd == updated(
            old(global).graduation_target_usd,
            args.graduation_target_usd,
        ),
        final(global).treasury == updated(old(global).treasury, args.treasury),
        final(global).paused == updated(old(global).paused, args.paused),
{
    if let Some(fee) = args.curve_fee_bps {
        global.curve_fee_bps = fee;
    }
    if let Some(fee) = args.amm_fee_bps {
        global.amm_fee_bps = fee;
    }
    if let Some(kickback) = args.creator_kickback_bps {
        global.creator_kickback_bps = kickback;
    }
    if let Some(target) = args.graduation_target_usd {
        global.graduation_target_usd = target;
    }
    if let Some(treasury) = args.treasury {
        global.treasury = treasury;
    }
    if let Some(paused) = args.paused {
        global.paused = paused;
    }
}

} // verus!
