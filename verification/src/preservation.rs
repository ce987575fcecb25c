use crate::book::{balance_of, lemma_tally_bounds_entry, lemma_tally_insert};
use crate::curve::{lemma_pro_rata_within, lemma_token1_in_covers, lemma_token2_out_within};
use crate::model::PoolState;
use ink_env::AccountId;
use vstd::prelude::*;

verus! {

/// A pool has reserves of both assets exactly when its product is not zero.
pub proof fn lemma_active_reserves(s: PoolState)
    ensures
        s.k() != 0 <==> s.reserve1 > 0 && s.reserve2 > 0,
{
    assert(s.reserve1 * s.reserve2 != 0 <==> s.reserve1 > 0 && s.reserve2 > 0)
        by (nonlinear_arith);
}

/// A new pool is well formed, whatever its fee below one thousand.
pub proof fn lemma_fresh_wf(fee: nat)
    requires
        fee < 1000,
    ensures
        PoolState::fresh(fee).wf(),
{
}

/// Handing out balances keeps a pool well formed.
pub proof fn lemma_faucet_keeps_wf(s: PoolState, caller: AccountId, amount1: nat, amount2: nat)
    requires
        s.wf(),
    ensures
        s.after_faucet(caller, amount1, amount2).wf(),
{
    let t = s.after_faucet(caller, amount1, amount2);
    assert(t.balance1.dom() =~= s.balance1.dom().insert(caller));
    assert(t.balance2.dom() =~= s.balance2.dom().insert(caller));
}

/// A deposit keeps a pool well formed: the shares issued are added to the
/// total and to the provider's entry alike.
pub proof fn lemma_provide_keeps_wf(s: PoolState, caller: AccountId, amount1: nat, amount2: nat)
    requires
        s.wf(),
    ensures
        s.after_provide(caller, amount1, amount2).wf(),
{
    let t = s.after_provide(caller, amount1, amount2);
    if let Ok(minted) = s.provide_result(caller, amount1, amount2) {
        lemma_tally_insert(s.shares, caller, balance_of(s.shares, caller) + minted);
        assert(t.shares.dom() =~= s.shares.dom().insert(caller));
        assert(t.balance1.dom() =~= s.balance1.dom());
        assert(t.balance2.dom() =~= s.balance2.dom());
    }
}

/// Whoever passes the test on a withdrawal finds the pool active and holds
/// no more than all shares, so that the withdrawal is made.
pub proof fn lemma_withdraw_is_made(s: PoolState, caller: AccountId, share: nat)
    requires
        s.wf(),
        0 < share <= balance_of(s.shares, caller),
    ensures
        share <= s.total_shares,
        s.k() != 0,
        s.withdraw_result(caller, share) is Ok,
        s.withdraw_result(caller, share) == s.withdraw_estimate(share),
{
    lemma_tally_bounds_entry(s.shares, caller);
    lemma_active_reserves(s);
}

/// A withdrawal keeps a pool well formed: the shares burnt leave the total
/// and the provider's entry alike, and the reserves are emptied only
/// together with the shares.
pub proof fn lemma_withdraw_keeps_wf(s: PoolState, caller: AccountId, share: nat)
    requires
        s.wf(),
    ensures
        s.after_withdraw(caller, share).wf(),
{
    let t = s.after_withdraw(caller, share);
    if let Ok((amount1, amount2)) = s.withdraw_result(caller, share) {
        lemma_withdraw_is_made(s, caller, share);
        lemma_pro_rata_within(share, s.reserve1, s.total_shares);
        lemma_pro_rata_within(share, s.reserve2, s.total_shares);
        lemma_tally_insert(s.shares, caller, (balance_of(s.shares, caller) - share) as nat);
        assert(t.shares.dom() =~= s.shares.dom());
        assert(t.balance1.dom() =~= s.balance1.dom());
        assert(t.balance2.dom() =~= s.balance2.dom());
    }
}

/// A swap by input keeps a pool well formed: it leaves the shares alone and
/// something of the second reserve.
pub proof fn lemma_swap_in_keeps_wf(s: PoolState, caller: AccountId, amount_in: nat, min_out: nat)
    requires
        s.wf(),
    ensures
        s.after_swap_in(caller, amount_in, min_out).wf(),
{
    let t = s.after_swap_in(caller, amount_in, min_out);
    if let Ok(amount_out) = s.swap_in_result(caller, amount_in, min_out) {
        lemma_active_reserves(s);
        lemma_token2_out_within(s.reserve1, s.reserve2, s.fee, amount_in);
        assert(t.balance1.dom() =~= s.balance1.dom());
        assert(t.balance2.dom() =~= s.balance2.dom());
    }
}

/// A swap by output keeps a pool well formed: it leaves the shares alone and
/// something of the second reserve.
pub proof fn lemma_swap_out_keeps_wf(s: PoolState, caller: AccountId, amount_out: nat, max_in: nat)
    requires
        s.wf(),
    ensures
        s.after_swap_out(caller, amount_out, max_in).wf(),
{
    let t = s.after_swap_out(caller, amount_out, max_in);
    if let Ok(amount_in) = s.swap_out_result(caller, amount_out, max_in) {
        lemma_active_reserves(s);
        lemma_token1_in_covers(s.reserve1, s.reserve2, s.fee, amount_out);
        assert(t.balance1.dom() =~= s.balance1.dom());
        assert(t.balance2.dom() =~= s.balance2.dom());
    }
}

} // verus!
