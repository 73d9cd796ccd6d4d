use vstd::prelude::*;

use crate::fees::fee_of;
use crate::launch::{
    lemma_pow10_monotone, lemma_whole_amount_within, BuyReceipt, LaunchState, SellReceipt,
};
use crate::error::GrokError;
use vstd::arithmetic::div_mod::lemma_hoist_over_denominator;

verus! {

/// One operation on a launch, as a caller requests it.
#[derive(Clone, Copy, Debug, PartialEq, Eq, Structural)]
pub enum LaunchAction {
    Buy { paused: bool, amount: u64, max_cost: u64 },
    Sell { paused: bool, amount: u64, min_payout: u64 },
    WithdrawFees,
    Graduate,
}

/// The state after `action`: the new state where it succeeds, the same
/// state where it is refused.
pub open spec fn after_action(s: LaunchState, action: LaunchAction) -> LaunchState {
    match action {
        LaunchAction::Buy { paused, amount, max_cost } => match s.buy_outcome(
            paused,
            amount,
            max_cost,
        ) {
            Ok((next, _)) => next,
            Err(_) => s,
        },
        LaunchAction::Sell { paused, amount, min_payout } => match s.sell_outcome(
            paused,
            amount,
            min_payout,
        ) {
            Ok((next, _)) => next,
            Err(_) => s,
        },
        LaunchAction::WithdrawFees => match s.withdraw_outcome() {
            Ok((next, _)) => next,
            Err(_) => s,
        },
        LaunchAction::Graduate => match s.graduate_outcome() {
            Ok(next) => next,
            Err(_) => s,
        },
    }
}

/// The state reached from `s` by the actions in order.
pub open spec fn replay(s: LaunchState, actions: Seq<LaunchAction>) -> LaunchState
    decreases actions.len(),
{
    if actions.len() == 0 {
        s
    } else {
        after_action(replay(s, actions.drop_last()), actions.last())
    }
}

/// No action changes how many smallest units exist: those sold plus those
/// still on offer.
pub proof fn lemma_action_conserves_supply(s: LaunchState, action: LaunchAction)
    ensures
        after_action(s, action).tokens_sold + after_action(s, action).supply_remaining
            == s.tokens_sold + s.supply_remaining,
{
    if let LaunchAction::Sell { paused, amount, min_payout } = action {
        lemma_pow10_monotone(0, s.decimals as nat);
        if s.whole_units(amount) is Ok && s.whole_units(amount)->Ok_0 <= s.sold_units() {
            lemma_whole_amount_within(amount as int, s.tokens_sold as int, s.scale() as int);
        }
    }
}

/// Over every sequence of actions, `tokens_sold + supply_remaining` stays
/// what it was when the sequence began.
pub proof fn lemma_supply_conserved(s: LaunchState, actions: Seq<LaunchAction>)
    ensures
        replay(s, actions).tokens_sold + replay(s, actions).supply_remaining == s.tokens_sold
            + s.supply_remaining,
    decreases actions.len(),
{
    if actions.len() > 0 {
        lemma_supply_conserved(s, actions.drop_last());
        lemma_action_conserves_supply(replay(s, actions.drop_last()), actions.last());
    }
}

/// Every action but a withdrawal leaves both accrued fees at least where
/// they were.
pub proof fn lemma_fees_only_grow(s: LaunchState, action: LaunchAction)
    requires
        action !is WithdrawFees,
    ensures
        after_action(s, action).platform_fee_accrued >= s.platform_fee_accrued,
        after_action(s, action).creator_fee_accrued >= s.creator_fee_accrued,
{
}

/// A withdrawal that succeeds zeroes both accrued fees, pays out exactly
/// them, and takes exactly their sum from the reserves.
pub proof fn lemma_withdrawal_settles_fees(s: LaunchState)
    requires
        s.withdraw_outcome() is Ok,
    ensures
        s.withdraw_outcome() matches Ok((next, paid)) && next.platform_fee_accrued == 0
            && next.creator_fee_accrued == 0 && paid.platform_withdrawn == s.platform_fee_accrued
            && paid.creator_withdrawn == s.creator_fee_accrued && next.reserves_lamports
            == s.reserves_lamports - s.platform_fee_accrued - s.creator_fee_accrued,
{
}

/// Between withdrawals, the accrued fees never decrease.
pub proof fn lemma_fees_grow_between_withdrawals(s: LaunchState, actions: Seq<LaunchAction>)
    requires
        forall|i: int| 0 <= i < actions.len() ==> actions[i] !is WithdrawFees,
    ensures
        replay(s, actions).platform_fee_accrued >= s.platform_fee_accrued,
        replay(s, actions).creator_fee_accrued >= s.creator_fee_accrued,
    decreases actions.len(),
{
    if actions.len() > 0 {
        lemma_fees_grow_between_withdrawals(s, actions.drop_last());
        lemma_fees_only_grow(replay(s, actions.drop_last()), actions.last());
    }
}

/// Without fees, selling right after a buy the same amount that was bought
/// is priced exactly as the buy was, and brings the reserves, the units
/// sold and the supply back to where they were before the buy. (A buy that
/// graduates the launch closes it to the sell; the sell's floor must admit
/// the refund.)
pub proof fn lemma_buy_then_sell_restores(
    s: LaunchState,
    paused: bool,
    amount: u64,
    max_cost: u64,
    min_payout: u64,
)
    requires
        s.fee_bps == 0,
        s.creator_fee_bps == 0,
        s.buy_outcome(paused, amount, max_cost) matches Ok((bought, receipt)) && !bought.graduated
            && min_payout <= receipt.cost_lamports,
    ensures
        s.buy_outcome(paused, amount, max_cost) matches Ok((bought, receipt))
            && bought.sell_outcome(paused, amount, min_payout) matches Ok((sold, refund))
            && refund.refund_net == receipt.cost_lamports && sold.reserves_lamports
            == s.reserves_lamports && sold.tokens_sold == s.tokens_sold && sold.supply_remaining
            == s.supply_remaining,
{
    let scale = s.scale() as int;
    lemma_pow10_monotone(0, s.decimals as nat);
    let units = amount as int / scale;
    assert(amount as int == units * scale) by {
        vstd::arithmetic::div_mod::lemma_fundamental_div_mod(amount as int, scale);
        vstd::arithmetic::mul::lemma_mul_is_commutative(units, scale);
    }
    lemma_hoist_over_denominator(s.tokens_sold as int, units, scale as nat);
    let (bought, receipt) = s.buy_outcome(paused, amount, max_cost)->Ok_0;
    assert(bought.sold_units() == s.sold_units() + units);
    let cost = receipt.cost_lamports;
    assert(fee_of(cost as int, 0) == 0);
}

/// A graduated launch refuses every buy, every sell and a second graduation,
/// whatever their arguments.
pub proof fn lemma_graduated_refuses_trades(
    s: LaunchState,
    paused: bool,
    amount: u64,
    limit: u64,
)
    requires
        s.graduated,
    ensures
        s.buy_outcome(paused, amount, limit) == Err::<(LaunchState, BuyReceipt), GrokError>(
            GrokError::LaunchGraduated,
        ),
        s.sell_outcome(paused, amount, limit) == Err::<(LaunchState, SellReceipt), GrokError>(
            GrokError::LaunchGraduated,
        ),
        s.graduate_outcome() == Err::<LaunchState, GrokError>(GrokError::LaunchGraduated),
{
}

/// No action takes a launch back from graduated: the flag goes from false
/// to true at most once.
pub proof fn lemma_graduation_permanent(s: LaunchState, action: LaunchAction)
    requires
        s.graduated,
    ensures
        after_action(s, action).graduated,
{
}

/// Once graduated, a launch stays graduated through every later sequence
/// of actions, and refuses every buy and sell along the way.
pub proof fn lemma_graduation_holds_after(s: LaunchState, actions: Seq<LaunchAction>)
    requires
        s.graduated,
    ensures
        replay(s, actions).graduated,
        forall|i: int|
            0 <= i < actions.len() ==> match #[trigger] actions[i] {
                LaunchAction::Buy { paused, amount, max_cost } => replay(
                    s,
                    actions.take(i),
                ).buy_outcome(paused, amount, max_cost) == Err::<
                    (LaunchState, BuyReceipt),
                    GrokError,
                >(GrokError::LaunchGraduated),
                LaunchAction::Sell { paused, amount, min_payout } => replay(
                    s,
                    actions.take(i),
                ).sell_outcome(paused, amount, min_payout) == Err::<
                    (LaunchState, SellReceipt),
                    GrokError,
                >(GrokError::LaunchGraduated),
                _ => true,
            },
    decreases actions.len(),
{
    if actions.len() > 0 {
        let prefix = actions.drop_last();
        lemma_graduation_holds_after(s, prefix);
        lemma_graduation_permanent(replay(s, prefix), actions.last());
        assert forall|i: int| 0 <= i < actions.len() implies match #[trigger] actions[i] {
            LaunchAction::Buy { paused, amount, max_cost } => replay(s, actions.take(i)).buy_outcome(
                paused,
                amount,
                max_cost,
            ) == Err::<(LaunchState, BuyReceipt), GrokError>(GrokError::LaunchGraduated),
            LaunchAction::Sell { paused, amount, min_payout } => replay(
                s,
                actions.take(i),
            ).sell_outcome(paused, amount, min_payout) == Err::<
                (LaunchState, SellReceipt),
                GrokError,
            >(GrokError::LaunchGraduated),
            _ => true,
        } by {
            if i < prefix.len() {
                assert(actions.take(i) =~= prefix.take(i));
                assert(prefix[i] == actions[i]);
            } else {
                assert(actions.take(i) =~= prefix);
            }
        }
    }
}

} // verus!
