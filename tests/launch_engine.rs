use grokpad::account::AccountId;
use grokpad::admin::{handler, AdminArgs, GlobalConfig};
use grokpad::error::GrokError;
use grokpad::launch::{BuyReceipt, FeeWithdrawal, LaunchState, SellReceipt, MAX_PRICE};

fn id(b: u8) -> AccountId {
    AccountId::new([b; 32])
}

fn launch(decimals: u8, base: u64, slope: u64, fee: u16, creator_fee: u16, target: u64, supply: u64) -> LaunchState {
    LaunchState::initialize_launch(id(1), decimals, base, slope, fee, creator_fee, id(2), id(3), target, supply)
        .unwrap()
}

#[test]
fn initialize_starts_with_zero_counters() {
    let s = launch(6, 1000, 10, 100, 50, 5000, 1_000_000);
    assert_eq!(s.tokens_sold, 0);
    assert_eq!(s.supply_remaining, 1_000_000);
    assert_eq!(s.reserves_lamports, 0);
    assert_eq!(s.platform_fee_accrued, 0);
    assert_eq!(s.creator_fee_accrued, 0);
    assert!(!s.graduated);
    assert_eq!(s.mint, id(1));
    assert_eq!(s.platform_fee_recipient, id(2));
    assert_eq!(s.creator, id(3));
}

#[test]
fn initialize_refuses_bad_prices_and_fees() {
    let init = |base: u64, slope: u64, fee: u16, cfee: u16| {
        LaunchState::initialize_launch(id(1), 0, base, slope, fee, cfee, id(2), id(3), 10, 10)
    };
    assert_eq!(init(0, 0, 0, 0), Err(GrokError::InvalidParam));
    assert_eq!(init(MAX_PRICE + 1, 0, 0, 0), Err(GrokError::InvalidParam));
    assert_eq!(init(1, MAX_PRICE + 1, 0, 0), Err(GrokError::InvalidParam));
    assert_eq!(init(1, 0, 6000, 4001), Err(GrokError::FeeTooHigh));
    assert!(init(MAX_PRICE, MAX_PRICE, 6000, 4000).is_ok());
}

#[test]
fn flat_curve_buy_then_sell_without_fees() {
    let mut s = launch(0, 1000, 0, 0, 0, 1_000_000, 100);
    let r = s.buy(false, 3, 3000).unwrap();
    assert_eq!(
        r,
        BuyReceipt { amount: 3, cost_lamports: 3000, platform_fee: 0, creator_fee: 0, net_lamports: 3000, graduated: false }
    );
    assert_eq!(s.tokens_sold, 3);
    assert_eq!(s.supply_remaining, 97);
    assert_eq!(s.reserves_lamports, 3000);
    let q = s.sell(false, 3, 3000).unwrap();
    assert_eq!(q, SellReceipt { amount: 3, refund_gross: 3000, platform_fee: 0, creator_fee: 0, refund_net: 3000 });
    assert_eq!(s.reserves_lamports, 0);
    assert_eq!(s.tokens_sold, 0);
    assert_eq!(s.supply_remaining, 100);
}

#[test]
fn sloped_curve_first_buy() {
    let mut s = launch(0, 1000, 100, 0, 0, 1_000_000, 100);
    let r = s.buy(false, 2, u64::MAX).unwrap();
    assert_eq!(r.cost_lamports, 2100);
}

#[test]
fn buy_then_sell_on_sloped_curve_restores_counters() {
    let mut s = launch(2, 1000, 100, 0, 0, 1_000_000, 10_000);
    s.buy(false, 300, u64::MAX).unwrap();
    let before = s;
    let r = s.buy(false, 500, u64::MAX).unwrap();
    // positions 3..8: 5 * 1000 + 100 * (3 + 4 + 5 + 6 + 7)
    assert_eq!(r.cost_lamports, 7500);
    let q = s.sell(false, 500, 0).unwrap();
    assert_eq!(q.refund_net, r.cost_lamports);
    assert_eq!(s, before);
}

#[test]
fn refund_prices_the_last_units_bought() {
    let mut s = launch(0, 1000, 100, 0, 0, 1_000_000, 100);
    assert_eq!(s.buy(false, 2, u64::MAX).unwrap().cost_lamports, 2100);
    assert_eq!(s.buy(false, 1, u64::MAX).unwrap().cost_lamports, 1200);
    assert_eq!(s.sell(false, 1, 0).unwrap().refund_gross, 1200);
    assert_eq!(s.sell(false, 2, 0).unwrap().refund_gross, 2100);
    assert_eq!(s.reserves_lamports, 0);
}

#[test]
fn fees_are_charged_on_both_sides() {
    let mut s = launch(0, 1000, 0, 300, 200, 1_000_000, 100);
    let r = s.buy(false, 1, 1000).unwrap();
    assert_eq!((r.platform_fee, r.creator_fee, r.net_lamports), (30, 20, 950));
    assert_eq!(s.reserves_lamports, 950);
    let q = s.sell(false, 1, 950).unwrap();
    assert_eq!((q.platform_fee, q.creator_fee, q.refund_net), (30, 20, 950));
    assert_eq!(s.reserves_lamports, 0);
    assert_eq!(s.platform_fee_accrued, 60);
    assert_eq!(s.creator_fee_accrued, 40);
}

#[test]
fn graduation_in_the_buy_that_reaches_the_target() {
    let mut s = launch(0, 1200, 0, 0, 0, 5000, 100);
    s.reserves_lamports = 4000;
    let r = s.buy(false, 1, u64::MAX).unwrap();
    assert_eq!(s.reserves_lamports, 5200);
    assert!(r.graduated);
    assert!(s.graduated);
    assert_eq!(s.buy(false, 1, u64::MAX), Err(GrokError::LaunchGraduated));
}

#[test]
fn graduated_launch_refuses_every_trade() {
    let mut s = launch(0, 1000, 0, 0, 0, 1000, 100);
    s.buy(false, 1, u64::MAX).unwrap();
    assert!(s.graduated);
    let frozen = s;
    assert_eq!(s.buy(true, 0, 0), Err(GrokError::LaunchGraduated));
    assert_eq!(s.sell(false, 1, 0), Err(GrokError::LaunchGraduated));
    assert_eq!(s.sell(true, 0, 0), Err(GrokError::LaunchGraduated));
    assert_eq!(s.graduate(), Err(GrokError::LaunchGraduated));
    assert_eq!(s, frozen);
}

#[test]
fn standalone_graduation_needs_the_target() {
    let mut s = launch(0, 1000, 0, 0, 0, 2500, 100);
    s.buy(false, 2, u64::MAX).unwrap();
    assert_eq!(s.graduate(), Err(GrokError::NotYetGraduate));
    assert!(!s.graduated);
    s.buy(false, 1, u64::MAX).unwrap();
    assert!(s.graduated);
    let mut t = launch(0, 1000, 0, 0, 0, 2500, 100);
    t.reserves_lamports = 2500;
    assert_eq!(t.graduate(), Ok(()));
    assert!(t.graduated);
}

#[test]
fn buy_refusals() {
    let mut s = launch(2, 1000, 0, 0, 0, 1_000_000, 1000);
    let start = s;
    assert_eq!(s.buy(true, 100, u64::MAX), Err(GrokError::ProgramPaused));
    assert_eq!(s.buy(false, 0, u64::MAX), Err(GrokError::ZeroAmount));
    assert_eq!(s.buy(false, 1100, u64::MAX), Err(GrokError::NotEnoughSupply));
    assert_eq!(s.buy(false, 50, u64::MAX), Err(GrokError::ZeroUnits));
    assert_eq!(s.buy(false, 150, u64::MAX), Err(GrokError::NonIntegralAmount));
    assert_eq!(s.buy(false, 200, 1999), Err(GrokError::SlippageExceeded));
    assert_eq!(s, start);
    assert!(s.buy(false, 200, 2000).is_ok());
}

#[test]
fn buy_overflow_refusals() {
    let mut s = launch(0, MAX_PRICE, MAX_PRICE, 0, 0, u64::MAX, u64::MAX);
    let start = s;
    assert_eq!(s.buy(false, 1u64 << 40, u64::MAX), Err(GrokError::Overflow));
    assert_eq!(s, start);
    let mut t = launch(0, 1, 0, 0, 0, u64::MAX, 10);
    t.reserves_lamports = u64::MAX;
    assert_eq!(t.buy(false, 1, u64::MAX), Err(GrokError::Overflow));
    let mut u = launch(0, 1000, 0, 300, 0, u64::MAX, 10);
    u.platform_fee_accrued = u64::MAX;
    assert_eq!(u.buy(false, 1, u64::MAX), Err(GrokError::Overflow));
}

#[test]
fn sell_refusals() {
    let mut s = launch(2, 1000, 0, 0, 0, 1_000_000, 1000);
    s.buy(false, 300, u64::MAX).unwrap();
    let start = s;
    assert_eq!(s.sell(true, 100, 0), Err(GrokError::ProgramPaused));
    assert_eq!(s.sell(false, 0, 0), Err(GrokError::ZeroAmount));
    assert_eq!(s.sell(false, 99, 0), Err(GrokError::ZeroUnits));
    assert_eq!(s.sell(false, 101, 0), Err(GrokError::NonIntegralAmount));
    assert_eq!(s.sell(false, 400, 0), Err(GrokError::Underflow));
    assert_eq!(s.sell(false, 100, 1001), Err(GrokError::SlippageExceeded));
    assert_eq!(s, start);
    s.reserves_lamports = 999;
    assert_eq!(s.sell(false, 100, 0), Err(GrokError::Underflow));
}

#[test]
fn withdraw_with_nothing_accrued_is_a_no_op() {
    let mut s = launch(0, 1000, 0, 0, 0, 1_000_000, 100);
    s.buy(false, 2, u64::MAX).unwrap();
    let before = s;
    assert_eq!(s.withdraw_fees(), Ok(FeeWithdrawal { platform_withdrawn: 0, creator_withdrawn: 0 }));
    assert_eq!(s, before);
}

#[test]
fn withdraw_pays_out_and_zeroes_the_fees() {
    let mut s = launch(0, 1000, 0, 300, 200, 1_000_000, 100);
    s.buy(false, 1, u64::MAX).unwrap();
    s.reserves_lamports += 50; // the fees are held by the vault as well
    assert_eq!(s.withdraw_fees(), Ok(FeeWithdrawal { platform_withdrawn: 30, creator_withdrawn: 20 }));
    assert_eq!(s.reserves_lamports, 950);
    assert_eq!(s.platform_fee_accrued, 0);
    assert_eq!(s.creator_fee_accrued, 0);
    assert_eq!(s.withdraw_fees(), Ok(FeeWithdrawal { platform_withdrawn: 0, creator_withdrawn: 0 }));
    assert_eq!(s.reserves_lamports, 950);
}

#[test]
fn withdraw_beyond_the_reserves_underflows() {
    let mut s = launch(0, 1000, 0, 0, 0, 1_000_000, 100);
    s.platform_fee_accrued = 30;
    s.creator_fee_accrued = 20;
    s.reserves_lamports = 40;
    let before = s;
    assert_eq!(s.withdraw_fees(), Err(GrokError::Underflow));
    assert_eq!(s, before);
}

#[test]
fn supply_is_conserved_over_trades() {
    let mut s = launch(0, 500, 7, 250, 125, u64::MAX, 1000);
    let total = s.tokens_sold + s.supply_remaining;
    let steps: [(bool, u64); 8] = [(true, 5), (true, 9), (false, 3), (true, 2000), (false, 50), (true, 1), (false, 12), (true, 0)];
    for (is_buy, amount) in steps {
        let _ = if is_buy { s.buy(false, amount, u64::MAX).map(|_| ()) } else { s.sell(false, amount, 0).map(|_| ()) };
        assert_eq!(s.tokens_sold + s.supply_remaining, total);
    }
    assert!(s.tokens_sold < 15);
}

#[test]
fn accrued_fees_never_decrease_between_withdrawals() {
    let mut s = launch(0, 1000, 10, 300, 200, u64::MAX, 1000);
    let mut last = (0, 0);
    for amount in [4u64, 2, 7] {
        s.buy(false, amount, u64::MAX).unwrap();
        assert!(s.platform_fee_accrued > last.0 && s.creator_fee_accrued > last.1);
        last = (s.platform_fee_accrued, s.creator_fee_accrued);
        s.sell(false, 1, 0).unwrap();
        assert!(s.platform_fee_accrued > last.0 && s.creator_fee_accrued > last.1);
        last = (s.platform_fee_accrued, s.creator_fee_accrued);
    }
}

#[test]
fn recipients_must_match_the_launch() {
    let s = launch(0, 1000, 0, 0, 0, 10, 10);
    assert_eq!(s.verify_recipients(&id(2), &id(3)), Ok(()));
    assert_eq!(s.verify_recipients(&id(3), &id(3)), Err(GrokError::InvalidOwner));
    assert_eq!(s.verify_recipients(&id(2), &id(2)), Err(GrokError::InvalidOwner));
    let mut other = [3u8; 32];
    other[31] = 4;
    assert_eq!(s.verify_recipients(&id(2), &AccountId::new(other)), Err(GrokError::InvalidOwner));
    assert!(id(7).same_as(&id(7)));
    assert!(!id(7).same_as(&AccountId::new(other)));
}

#[test]
fn admin_update_changes_only_given_fields() {
    let mut g = GlobalConfig {
        admin: id(9),
        treasury: id(8),
        curve_fee_bps: 100,
        amm_fee_bps: 25,
        creator_kickback_bps: 10,
        graduation_target_usd: 69_000,
        paused: false,
    };
    handler(&mut g, AdminArgs { curve_fee_bps: Some(150), paused: Some(true), ..AdminArgs::default() });
    assert_eq!(g.curve_fee_bps, 150);
    assert!(g.paused);
    assert_eq!(g.amm_fee_bps, 25);
    assert_eq!(g.creator_kickback_bps, 10);
    assert_eq!(g.graduation_target_usd, 69_000);
    assert_eq!(g.treasury, id(8));
    handler(&mut g, AdminArgs { treasury: Some(id(5)), amm_fee_bps: Some(30), creator_kickback_bps: Some(0), graduation_target_usd: Some(1), ..AdminArgs::default() });
    assert_eq!(g.treasury, id(5));
    assert_eq!((g.amm_fee_bps, g.creator_kickback_bps, g.graduation_target_usd), (30, 0, 1));
    assert_eq!(g.admin, id(9));
}
