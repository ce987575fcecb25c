use vstd::arithmetic::div_mod::{lemma_fundamental_div_mod, lemma_mod_bound};
use vstd::prelude::*;

verus! {

/// Six decimal digits: the scale of the first issue of shares.
pub const PRECISION: u128 = 1_000_000;

/// The shares that the first deposit into an empty pool is given.
pub const GENESIS_SHARES: u128 = 100 * PRECISION;

/// Fees are counted in parts of a thousand.
pub const PER_MILLE: u128 = 1000;

/// The constant product of a pool: one reserve times the other.
pub open spec fn product(reserve1: nat, reserve2: nat) -> nat {
    reserve1 * reserve2
}

/// `part` of `whole`, measured out of `basis` and rounded down. Shares for a
/// deposit, assets for a share and the amount of one asset that matches an
/// amount of the other are all of this form.
pub open spec fn pro_rata(part: nat, whole: nat, basis: nat) -> nat {
    (part * whole / basis) as nat
}

/// What is left of `amount` once the fee, in parts of a thousand, is taken
/// from it, rounded down.
pub open spec fn after_fee(fee: nat, amount: nat) -> nat {
    ((PER_MILLE - fee) * amount / PER_MILLE as int) as nat
}

/// The second reserve that the constant product allows once `paid` more of
/// the first asset takes part in the price, rounded down.
pub open spec fn reserve2_after(reserve1: nat, reserve2: nat, paid: nat) -> nat {
    (product(reserve1, reserve2) / (reserve1 + paid)) as nat
}

/// The amount of the second asset that `amount_in` of the first buys. The fee
/// comes off the input before the price is taken; and where rounding would
/// hand out the whole second reserve, one unit of it stays in the pool.
pub open spec fn token2_out(reserve1: nat, reserve2: nat, fee: nat, amount_in: nat) -> nat {
    let left = reserve2_after(reserve1, reserve2, after_fee(fee, amount_in));
    if left == 0 {
        (reserve2 - 1) as nat
    } else {
        (reserve2 - left) as nat
    }
}

/// The first reserve that the constant product asks for once `amount_out` of
/// the second asset has left the pool, rounded down.
pub open spec fn reserve1_after(reserve1: nat, reserve2: nat, amount_out: nat) -> nat {
    (product(reserve1, reserve2) as int / (reserve2 - amount_out)) as nat
}

/// The amount of the first asset to pay for `amount_out` of the second: what
/// the first reserve has to grow by, with the fee put back on top, rounded
/// down.
pub open spec fn token1_in(reserve1: nat, reserve2: nat, fee: nat, amount_out: nat) -> nat {
    ((reserve1_after(reserve1, reserve2, amount_out) - reserve1) * PER_MILLE / (PER_MILLE
        - fee)) as nat
}

/// Floor division: the quotient is the one multiple of the divisor that lies
/// within a divisor's width below the dividend.
pub proof fn lemma_floor(x: int, d: int)
    requires
        d > 0,
    ensures
        x == d * (x / d) + x % d,
        0 <= x % d < d,
        (x / d) * d <= x < (x / d) * d + d,
{
    lemma_fundamental_div_mod(x, d);
    lemma_mod_bound(x, d);
    assert((x / d) * d == d * (x / d)) by (nonlinear_arith);
}

/// A quotient is at most `q` where the dividend is at most `q` divisors.
pub proof fn lemma_quotient_at_most(x: int, d: int, q: int)
    requires
        d > 0,
        x <= q * d,
    ensures
        x / d <= q,
{
    lemma_floor(x, d);
    assert(x / d <= q) by (nonlinear_arith)
        requires
            d > 0,
            (x / d) * d <= x,
            x <= q * d,
    ;
}

/// A quotient is at least `q` where the dividend is at least `q` divisors.
pub proof fn lemma_quotient_at_least(x: int, d: int, q: int)
    requires
        d > 0,
        q * d <= x,
    ensures
        q <= x / d,
{
    lemma_floor(x, d);
    assert(q <= x / d) by (nonlinear_arith)
        requires
            d > 0,
            x < (x / d) * d + d,
            q * d <= x,
    ;
}

/// A part of the basis takes no more than the whole, and less than the whole
/// where it is a smaller part of something.
pub proof fn lemma_pro_rata_within(part: nat, whole: nat, basis: nat)
    requires
        basis > 0,
        part <= basis,
    ensures
        pro_rata(part, whole, basis) <= whole,
        part == basis ==> pro_rata(part, whole, basis) == whole,
        part < basis && whole > 0 ==> pro_rata(part, whole, basis) < whole,
{
    let x: int = (part * whole) as int;
    assert(0 <= x <= whole * basis) by (nonlinear_arith)
        requires
            part <= basis,
            x == part * whole,
    ;
    lemma_quotient_at_most(x, basis as int, whole as int);
    lemma_quotient_at_least(x, basis as int, 0);
    if part == basis {
        assert(whole * basis <= x) by (nonlinear_arith)
            requires
                part == basis,
                x == part * whole,
        ;
        lemma_quotient_at_least(x, basis as int, whole as int);
    }
    if part < basis && whole > 0 {
        assert(x <= (whole - 1) * basis + (basis - 1)) by (nonlinear_arith)
            requires
                part < basis,
                whole > 0,
                x == part * whole,
        ;
        lemma_floor(x, basis as int);
        assert(x / (basis as int) < whole) by (nonlinear_arith)
            requires
                basis > 0,
                (x / (basis as int)) * basis <= x,
                x <= (whole - 1) * basis + (basis - 1),
        ;
    }
}

/// The fee never adds to an amount, and where there is a fee it keeps
/// something of every amount that is not zero.
pub proof fn lemma_after_fee_within(fee: nat, amount: nat)
    requires
        fee < PER_MILLE,
    ensures
        after_fee(fee, amount) <= amount,
        fee > 0 && amount > 0 ==> after_fee(fee, amount) < amount,
        fee == 0 ==> after_fee(fee, amount) == amount,
{
    let x: int = (PER_MILLE - fee) * amount;
    assert(0 <= x <= 1000 * amount) by (nonlinear_arith)
        requires
            fee < 1000,
            x == (1000 - fee) * amount,
    ;
    assert(fee > 0 ==> x <= 1000 * amount - amount) by (nonlinear_arith)
        requires
            fee < 1000,
            x == (1000 - fee) * amount,
    ;
    assert(fee == 0 ==> x == 1000 * amount) by (nonlinear_arith)
        requires
            x == (1000 - fee) * amount,
    ;
    lemma_floor(x, 1000);
}

/// Paying into the first reserve leaves a second reserve that is no larger
/// than before.
pub proof fn lemma_reserve2_after_within(reserve1: nat, reserve2: nat, paid: nat)
    requires
        reserve1 > 0,
    ensures
        reserve2_after(reserve1, reserve2, paid) <= reserve2,
{
    let k = product(reserve1, reserve2) as int;
    assert(0 <= k <= reserve2 * (reserve1 + paid)) by (nonlinear_arith)
        requires
            k == reserve1 * reserve2,
    ;
    lemma_quotient_at_most(k, (reserve1 + paid) as int, reserve2 as int);
    lemma_quotient_at_least(k, (reserve1 + paid) as int, 0);
}

/// A swap by input hands out less than the whole second reserve.
pub proof fn lemma_token2_out_within(reserve1: nat, reserve2: nat, fee: nat, amount_in: nat)
    requires
        reserve1 > 0,
        reserve2 > 0,
    ensures
        token2_out(reserve1, reserve2, fee, amount_in) < reserve2,
        token2_out(reserve1, reserve2, fee, amount_in) + reserve2_after(
            reserve1,
            reserve2,
            after_fee(fee, amount_in),
        ) == reserve2 || reserve2_after(reserve1, reserve2, after_fee(fee, amount_in)) == 0,
{
    lemma_reserve2_after_within(reserve1, reserve2, after_fee(fee, amount_in));
}

/// Taking from the second reserve asks for a first reserve that is no
/// smaller than before.
pub proof fn lemma_reserve1_after_covers(reserve1: nat, reserve2: nat, amount_out: nat)
    requires
        amount_out < reserve2,
    ensures
        reserve1_after(reserve1, reserve2, amount_out) >= reserve1,
{
    let k = product(reserve1, reserve2) as int;
    let left = reserve2 - amount_out;
    assert(reserve1 * left <= k) by (nonlinear_arith)
        requires
            k == reserve1 * reserve2,
            0 < left <= reserve2,
    ;
    lemma_quotient_at_least(k, left, reserve1 as int);
}

/// Putting the fee back on top never lowers what is to be paid.
pub proof fn lemma_token1_in_covers(reserve1: nat, reserve2: nat, fee: nat, amount_out: nat)
    requires
        amount_out < reserve2,
        fee < PER_MILLE,
    ensures
        token1_in(reserve1, reserve2, fee, amount_out) + reserve1 >= reserve1_after(
            reserve1,
            reserve2,
            amount_out,
        ),
{
    lemma_reserve1_after_covers(reserve1, reserve2, amount_out);
    let grow = reserve1_after(reserve1, reserve2, amount_out) - reserve1;
    let d = PER_MILLE - fee;
    assert(grow * d <= grow * 1000) by (nonlinear_arith)
        requires
            grow >= 0,
            0 < d <= 1000,
    ;
    lemma_quotient_at_least(grow * 1000, d, grow);
}

} // verus!
