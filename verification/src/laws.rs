use crate::book::{balance_of, lemma_tally_bounds_entry, lemma_tally_insert, tally};
use crate::curve::{
    after_fee, lemma_after_fee_within, lemma_floor, lemma_pro_rata_within,
    lemma_quotient_at_least, lemma_quotient_at_most, lemma_reserve1_after_covers,
    lemma_reserve2_after_within, lemma_token1_in_covers, lemma_token2_out_within, pro_rata,
    reserve1_after, reserve2_after, GENESIS_SHARES, PER_MILLE,
};
use crate::error::Error;
use crate::model::{check_amount, PoolState};
use crate::preservation::{
    lemma_active_reserves, lemma_faucet_keeps_wf, lemma_provide_keeps_wf, lemma_swap_in_keeps_wf,
    lemma_swap_out_keeps_wf, lemma_withdraw_is_made, lemma_withdraw_keeps_wf,
};
use ink_env::AccountId;
use vstd::arithmetic::div_mod::{lemma_div_is_ordered, lemma_div_is_ordered_by_denominator};
use vstd::prelude::*;

verus! {

/// In every state that the operations can reach, the shares of all
/// providers add up to the shares outstanding, and no provider holds more
/// than that.
pub proof fn law_shares_add_up(s: PoolState, who: AccountId)
    requires
        s.wf(),
    ensures
        tally(s.shares) == s.total_shares,
        balance_of(s.shares, who) <= s.total_shares,
{
    lemma_tally_bounds_entry(s.shares, who);
}

/// Every operation leaves a pool in a state that the operations can reach,
/// whatever its arguments and whether it is made or refused: so the shares
/// add up after every one of them.
pub proof fn law_operations_keep_shares(
    s: PoolState,
    caller: AccountId,
    amount1: nat,
    amount2: nat,
    bound: nat,
)
    requires
        s.wf(),
    ensures
        s.after_faucet(caller, amount1, amount2).wf(),
        s.after_provide(caller, amount1, amount2).wf(),
        s.after_withdraw(caller, amount1).wf(),
        s.after_swap_in(caller, amount1, bound).wf(),
        s.after_swap_out(caller, amount2, bound).wf(),
{
    lemma_faucet_keeps_wf(s, caller, amount1, amount2);
    lemma_provide_keeps_wf(s, caller, amount1, amount2);
    lemma_withdraw_keeps_wf(s, caller, amount1);
    lemma_swap_in_keeps_wf(s, caller, amount1, bound);
    lemma_swap_out_keeps_wf(s, caller, amount2, bound);
}

/// Nothing but the faucet makes or unmakes an asset: whatever a deposit, a
/// withdrawal or a swap does, each asset in the reserve and on the users'
/// balances together is as much afterwards as before.
pub proof fn law_assets_conserved(
    s: PoolState,
    caller: AccountId,
    amount1: nat,
    amount2: nat,
    bound: nat,
)
    requires
        s.wf(),
    ensures
        s.after_provide(caller, amount1, amount2).holds_as_much_as(s),
        s.after_withdraw(caller, amount1).holds_as_much_as(s),
        s.after_swap_in(caller, amount1, bound).holds_as_much_as(s),
        s.after_swap_out(caller, amount2, bound).holds_as_much_as(s),
{
    if let Ok(issued) = s.provide_result(caller, amount1, amount2) {
        lemma_tally_insert(
            s.balance1,
            caller,
            (balance_of(s.balance1, caller) - amount1) as nat,
        );
        lemma_tally_insert(
            s.balance2,
            caller,
            (balance_of(s.balance2, caller) - amount2) as nat,
        );
    }
    if let Ok((released1, released2)) = s.withdraw_result(caller, amount1) {
        lemma_withdraw_is_made(s, caller, amount1);
        lemma_pro_rata_within(amount1, s.reserve1, s.total_shares);
        lemma_pro_rata_within(amount1, s.reserve2, s.total_shares);
        lemma_tally_insert(s.balance1, caller, balance_of(s.balance1, caller) + released1);
        lemma_tally_insert(s.balance2, caller, balance_of(s.balance2, caller) + released2);
    }
    if let Ok(bought) = s.swap_in_result(caller, amount1, bound) {
        lemma_active_reserves(s);
        lemma_token2_out_within(s.reserve1, s.reserve2, s.fee, amount1);
        lemma_tally_insert(
            s.balance1,
            caller,
            (balance_of(s.balance1, caller) - amount1) as nat,
        );
        lemma_tally_insert(s.balance2, caller, balance_of(s.balance2, caller) + bought);
    }
    if let Ok(paid) = s.swap_out_result(caller, amount2, bound) {
        lemma_tally_insert(s.balance1, caller, (balance_of(s.balance1, caller) - paid) as nat);
        lemma_tally_insert(s.balance2, caller, balance_of(s.balance2, caller) + amount2);
    }
}

/// The pool is empty or active, and only liquidity moves it from one to the
/// other: a deposit that is made leaves it active, a withdrawal empties it
/// exactly when it burns the last share, and a swap leaves it active.
pub proof fn law_empty_or_active(
    s: PoolState,
    caller: AccountId,
    amount1: nat,
    amount2: nat,
    bound: nat,
)
    requires
        s.wf(),
    ensures
        s.k() == 0 <==> s.total_shares == 0,
        s.provide_result(caller, amount1, amount2) is Ok ==> s.after_provide(
            caller,
            amount1,
            amount2,
        ).k() != 0,
        s.withdraw_result(caller, amount1) is Ok ==> (s.after_withdraw(caller, amount1).k() == 0
            <==> amount1 == s.total_shares),
        s.swap_in_result(caller, amount1, bound) is Ok ==> s.after_swap_in(
            caller,
            amount1,
            bound,
        ).k() != 0,
        s.swap_out_result(caller, amount2, bound) is Ok ==> s.after_swap_out(
            caller,
            amount2,
            bound,
        ).k() != 0,
{
    law_operations_keep_shares(s, caller, amount1, amount2, bound);
    lemma_active_reserves(s);
    lemma_active_reserves(s.after_provide(caller, amount1, amount2));
    lemma_active_reserves(s.after_withdraw(caller, amount1));
    lemma_active_reserves(s.after_swap_in(caller, amount1, bound));
    lemma_active_reserves(s.after_swap_out(caller, amount2, bound));
}

/// Shares issued for a deposit are worth no more than the deposit, and fall
/// short of it by less than one unit more than a share's worth of the
/// reserve: `issued` being `shares * amount / reserve` rounded down, burning
/// `issued` out of `shares + issued` against `reserve + amount` releases at
/// most `amount` and at least `amount - reserve / (shares + issued) - 1`.
pub proof fn lemma_round_trip_amount(shares: nat, reserve: nat, amount: nat)
    requires
        shares > 0,
        reserve > 0,
    ensures
        ({
            let issued = pro_rata(shares, amount, reserve);
            let released = pro_rata(issued, reserve + amount, shares + issued);
            released <= amount <= released + reserve / (shares + issued) + 1
        }),
{
    let issued = pro_rata(shares, amount, reserve);
    let basis = shares + issued;
    let released = pro_rata(issued, reserve + amount, basis);
    let tolerance = reserve / basis;
    lemma_floor((shares * amount) as int, reserve as int);
    lemma_floor(reserve as int, basis as int);
    let burnt: int = (issued * (reserve + amount)) as int;
    assert(burnt <= amount * basis) by (nonlinear_arith)
        requires
            issued * reserve <= shares * amount,
            basis == shares + issued,
            burnt == issued * (reserve + amount),
    ;
    lemma_quotient_at_most(burnt, basis as int, amount as int);
    assert((amount - tolerance - 1) * basis <= burnt) by (nonlinear_arith)
        requires
            shares * amount < issued * reserve + reserve,
            reserve < tolerance * basis + basis,
            basis == shares + issued,
            burnt == issued * (reserve + amount),
    ;
    lemma_quotient_at_least(burnt, basis as int, amount - tolerance - 1);
}

/// A deposit followed by the withdrawal of exactly the shares that it was
/// issued, with nothing in between, is made; it leaves the shares as they
/// were; and it leaves each reserve no smaller than before the deposit, and
/// larger by at most one unit more than a share was worth of it. So the
/// product does not fall, and what stays behind is the rounding alone.
pub proof fn law_provide_then_withdraw(s: PoolState, caller: AccountId, amount1: nat, amount2: nat)
    requires
        s.wf(),
        s.provide_result(caller, amount1, amount2) is Ok,
    ensures
        ({
            let issued = s.provide_result(caller, amount1, amount2)->Ok_0;
            let mid = s.after_provide(caller, amount1, amount2);
            let end = mid.after_withdraw(caller, issued);
            &&& mid.withdraw_result(caller, issued) is Ok
            &&& end.wf()
            &&& end.total_shares == s.total_shares
            &&& balance_of(end.shares, caller) == balance_of(s.shares, caller)
            &&& end.holds_as_much_as(s)
            &&& s.reserve1 <= end.reserve1 <= s.reserve1 + s.reserve1 / mid.total_shares + 1
            &&& s.reserve2 <= end.reserve2 <= s.reserve2 + s.reserve2 / mid.total_shares + 1
            &&& s.k() <= end.k()
        }),
{
    let issued = s.provide_result(caller, amount1, amount2)->Ok_0;
    let mid = s.after_provide(caller, amount1, amount2);
    let end = mid.after_withdraw(caller, issued);
    lemma_provide_keeps_wf(s, caller, amount1, amount2);
    lemma_withdraw_is_made(mid, caller, issued);
    lemma_withdraw_keeps_wf(mid, caller, issued);
    law_assets_conserved(s, caller, amount1, amount2, 0);
    law_assets_conserved(mid, caller, issued, 0, 0);
    if s.total_shares == 0 {
        lemma_pro_rata_within(issued, mid.reserve1, mid.total_shares);
        lemma_pro_rata_within(issued, mid.reserve2, mid.total_shares);
    } else {
        lemma_round_trip_amount(s.total_shares, s.reserve1, amount1);
        lemma_round_trip_amount(s.total_shares, s.reserve2, amount2);
    }
    assert(s.reserve1 * s.reserve2 <= end.reserve1 * end.reserve2) by (nonlinear_arith)
        requires
            s.reserve1 <= end.reserve1,
            s.reserve2 <= end.reserve2,
    ;
}

/// What a swap by input does to the product. The price is taken by dividing
/// the product by the first reserve with the input net of the fee; the
/// remainder of that division is lost to the product, and the fee, which
/// joins the first reserve without a part in the price, is gained at the
/// rate of the new second reserve. Where the division leaves a second
/// reserve of nothing, one unit stays and the product grows.
pub proof fn law_swap_in_product(s: PoolState, caller: AccountId, amount_in: nat, min_out: nat)
    requires
        s.wf(),
        s.swap_in_result(caller, amount_in, min_out) is Ok,
    ensures
        ({
            let paid = after_fee(s.fee, amount_in);
            let lost = s.k() % (s.reserve1 + paid);
            let after = s.after_swap_in(caller, amount_in, min_out);
            &&& paid <= amount_in
            &&& reserve2_after(s.reserve1, s.reserve2, paid) > 0 ==> after.k() + lost == s.k() + (
            amount_in - paid) * after.reserve2
            &&& reserve2_after(s.reserve1, s.reserve2, paid) == 0 ==> after.k() > s.k()
            &&& after.k() + lost >= s.k()
            &&& lost < s.reserve1 + paid
        }),
{
    let paid = after_fee(s.fee, amount_in);
    let divisor = s.reserve1 + paid;
    let lost = s.k() % divisor;
    let left = reserve2_after(s.reserve1, s.reserve2, paid);
    let after = s.after_swap_in(caller, amount_in, min_out);
    lemma_active_reserves(s);
    lemma_after_fee_within(s.fee, amount_in);
    lemma_reserve2_after_within(s.reserve1, s.reserve2, paid);
    lemma_floor(s.k() as int, divisor as int);
    if left > 0 {
        assert(after.reserve2 == left);
        assert((s.reserve1 + amount_in) * left + lost == s.k() + (amount_in - paid) * left)
            by (nonlinear_arith)
            requires
                s.k() == divisor * left + lost,
                divisor == s.reserve1 + paid,
        ;
        assert((amount_in - paid) * left >= 0) by (nonlinear_arith)
            requires
                amount_in >= paid,
                left > 0,
        ;
    } else {
        assert(after.reserve2 == 1);
        assert(s.k() == lost) by (nonlinear_arith)
            requires
                s.k() == divisor * left + lost,
                left == 0,
        ;
        assert((s.reserve1 + amount_in) * 1 == s.reserve1 + amount_in) by (nonlinear_arith);
    }
}

/// Fee accrual on a swap by input: where the fee kept, at the rate of the
/// new second reserve, covers what the rounding of the price lost, or where
/// the price left nothing of the second reserve but the unit that stays, the
/// product does not fall; and where the fee more than covers the loss, or
/// the unit stayed, the product grows. On every other swap that is made the
/// product falls, by less than the divisor of the price.
pub proof fn law_swap_in_accrues(s: PoolState, caller: AccountId, amount_in: nat, min_out: nat)
    requires
        s.wf(),
        s.swap_in_result(caller, amount_in, min_out) is Ok,
        reserve2_after(s.reserve1, s.reserve2, after_fee(s.fee, amount_in)) == 0 || (amount_in
            - after_fee(s.fee, amount_in)) * s.after_swap_in(caller, amount_in, min_out).reserve2
            >= s.k() % (s.reserve1 + after_fee(s.fee, amount_in)),
    ensures
        s.after_swap_in(caller, amount_in, min_out).k() >= s.k(),
        reserve2_after(s.reserve1, s.reserve2, after_fee(s.fee, amount_in)) == 0 || (amount_in
            - after_fee(s.fee, amount_in)) * s.after_swap_in(caller, amount_in, min_out).reserve2
            > s.k() % (s.reserve1 + after_fee(s.fee, amount_in)) <==> s.after_swap_in(
            caller,
            amount_in,
            min_out,
        ).k() > s.k(),
{
    law_swap_in_product(s, caller, amount_in, min_out);
    lemma_active_reserves(s);
    lemma_floor(s.k() as int, (s.reserve1 + after_fee(s.fee, amount_in)) as int);
}

/// What a swap by output does to the product. The first reserve that the
/// new second reserve asks for is taken by a division whose remainder is
/// lost to the product; what is paid on top of the growth of the first
/// reserve, the fee, is gained at the rate of the new second reserve.
pub proof fn law_swap_out_product(s: PoolState, caller: AccountId, amount_out: nat, max_in: nat)
    requires
        s.wf(),
        s.swap_out_result(caller, amount_out, max_in) is Ok,
    ensures
        ({
            let amount_in = s.swap_out_result(caller, amount_out, max_in)->Ok_0;
            let growth = reserve1_after(s.reserve1, s.reserve2, amount_out) - s.reserve1;
            let lost = s.k() as int % (s.reserve2 - amount_out);
            let after = s.after_swap_out(caller, amount_out, max_in);
            &&& 0 <= growth <= amount_in
            &&& after.k() + lost == s.k() + (amount_in - growth) * after.reserve2
            &&& after.k() + lost >= s.k()
            &&& lost < s.reserve2 - amount_out
        }),
{
    let amount_in = s.swap_out_result(caller, amount_out, max_in)->Ok_0;
    let asked = reserve1_after(s.reserve1, s.reserve2, amount_out);
    let growth = asked - s.reserve1;
    let left = s.reserve2 - amount_out;
    let lost = s.k() as int % left;
    let after = s.after_swap_out(caller, amount_out, max_in);
    lemma_reserve1_after_covers(s.reserve1, s.reserve2, amount_out);
    lemma_token1_in_covers(s.reserve1, s.reserve2, s.fee, amount_out);
    lemma_floor(s.k() as int, left);
    assert(after.reserve2 == left);
    assert((s.reserve1 + amount_in) * left + lost == s.k() + (amount_in - growth) * left)
        by (nonlinear_arith)
        requires
            s.k() == left * asked + lost,
            growth == asked - s.reserve1,
    ;
    assert((amount_in - growth) * left >= 0) by (nonlinear_arith)
        requires
            amount_in >= growth,
            left > 0,
    ;
}

/// Fee accrual on a swap by output: where the fee paid on top, at the rate
/// of the new second reserve, covers what the rounding of the price lost,
/// the product does not fall; and it grows exactly where the fee more than
/// covers the loss. On every other swap that is made the product falls, by
/// less than the new second reserve.
pub proof fn law_swap_out_accrues(s: PoolState, caller: AccountId, amount_out: nat, max_in: nat)
    requires
        s.wf(),
        s.swap_out_result(caller, amount_out, max_in) is Ok,
        (s.swap_out_result(caller, amount_out, max_in)->Ok_0 - (reserve1_after(
            s.reserve1,
            s.reserve2,
            amount_out,
        ) - s.reserve1)) * (s.reserve2 - amount_out) >= s.k() as int % (s.reserve2 - amount_out),
    ensures
        s.after_swap_out(caller, amount_out, max_in).k() >= s.k(),
        (s.swap_out_result(caller, amount_out, max_in)->Ok_0 - (reserve1_after(
            s.reserve1,
            s.reserve2,
            amount_out,
        ) - s.reserve1)) * (s.reserve2 - amount_out) > s.k() as int % (s.reserve2 - amount_out)
            <==> s.after_swap_out(caller, amount_out, max_in).k() > s.k(),
{
    law_swap_out_product(s, caller, amount_out, max_in);
}

/// A larger input never buys less: the quote by input does not fall as the
/// input grows.
pub proof fn law_quote_by_input_monotone(s: PoolState, smaller: nat, larger: nat)
    requires
        s.wf(),
        s.k() != 0,
        smaller <= larger,
    ensures
        s.quote_out(smaller) is Ok,
        s.quote_out(larger) is Ok,
        s.quote_out(smaller)->Ok_0 <= s.quote_out(larger)->Ok_0 < s.reserve2,
{
    lemma_active_reserves(s);
    let paid_less = after_fee(s.fee, smaller);
    let paid_more = after_fee(s.fee, larger);
    assert((PER_MILLE - s.fee) * smaller <= (PER_MILLE - s.fee) * larger) by (nonlinear_arith)
        requires
            s.fee < PER_MILLE,
            smaller <= larger,
    ;
    lemma_after_fee_within(s.fee, smaller);
    lemma_after_fee_within(s.fee, larger);
    lemma_div_is_ordered((PER_MILLE - s.fee) * smaller, (PER_MILLE - s.fee) * larger, 1000);
    lemma_div_is_ordered_by_denominator(
        s.k() as int,
        (s.reserve1 + paid_less) as int,
        (s.reserve1 + paid_more) as int,
    );
    lemma_reserve2_after_within(s.reserve1, s.reserve2, paid_less);
    lemma_reserve2_after_within(s.reserve1, s.reserve2, paid_more);
}

/// A larger output never costs less: the quote by output does not fall as
/// the output grows, as long as it stays below the second reserve.
pub proof fn law_quote_by_output_monotone(s: PoolState, smaller: nat, larger: nat)
    requires
        s.wf(),
        s.k() != 0,
        smaller <= larger < s.reserve2,
    ensures
        s.quote_in(smaller) is Ok,
        s.quote_in(larger) is Ok,
        s.quote_in(smaller)->Ok_0 <= s.quote_in(larger)->Ok_0,
{
    lemma_reserve1_after_covers(s.reserve1, s.reserve2, smaller);
    lemma_reserve1_after_covers(s.reserve1, s.reserve2, larger);
    lemma_div_is_ordered_by_denominator(
        s.k() as int,
        s.reserve2 - larger,
        s.reserve2 - smaller,
    );
    let grow_less = reserve1_after(s.reserve1, s.reserve2, smaller) - s.reserve1;
    let grow_more = reserve1_after(s.reserve1, s.reserve2, larger) - s.reserve1;
    lemma_div_is_ordered(grow_less * 1000, grow_more * 1000, PER_MILLE - s.fee);
    lemma_token1_in_covers(s.reserve1, s.reserve2, s.fee, smaller);
    lemma_token1_in_covers(s.reserve1, s.reserve2, s.fee, larger);
}

/// A swap by input that sets no lower bound on what it buys returns exactly
/// the quote for its input, once the caller can pay the input.
pub proof fn law_swap_returns_quote(s: PoolState, caller: AccountId, amount_in: nat)
    requires
        check_amount(s.balance1, caller, amount_in) is Ok,
    ensures
        s.swap_in_result(caller, amount_in, 0) == s.quote_out(amount_in),
{
}

/// The first deposit into an empty pool is issued one hundred million
/// shares, whatever the two amounts, once the caller can pay them.
pub proof fn law_genesis_issue(s: PoolState, caller: AccountId, amount1: nat, amount2: nat)
    requires
        s.total_shares == 0,
        check_amount(s.balance1, caller, amount1) is Ok,
        check_amount(s.balance2, caller, amount2) is Ok,
    ensures
        s.provide_result(caller, amount1, amount2) == Ok::<nat, Error>(100_000_000),
        GENESIS_SHARES == 100 * 1_000_000,
{
}

/// A pool without reserves makes no price, in either direction, and asks
/// nothing of the machine to say so: no division is reached.
pub proof fn law_empty_pool_quotes_nothing(s: PoolState, amount_in: nat, amount_out: nat)
    requires
        s.k() == 0,
    ensures
        s.quote_out(amount_in) == Err::<nat, Error>(Error::ZeroLiquidity),
        s.quote_in(amount_out) == Err::<nat, Error>(Error::ZeroLiquidity),
        s.quote_out_fits(amount_in),
        s.quote_in_fits(amount_out),
{
}

} // verus!
