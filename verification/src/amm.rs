use crate::book::{balance_of, lemma_room_beside, lemma_tally_bounds_entry};
use crate::curve::{
    after_fee, lemma_pro_rata_within, lemma_reserve1_after_covers, lemma_reserve2_after_within,
    lemma_token2_out_within, GENESIS_SHARES,
};
use crate::error::Error;
use crate::ledger::Ledger;
use crate::model::{check_amount, limit, PoolState};
use crate::preservation::{
    lemma_active_reserves, lemma_faucet_keeps_wf, lemma_fresh_wf, lemma_provide_keeps_wf,
    lemma_swap_in_keeps_wf, lemma_swap_out_keeps_wf, lemma_withdraw_is_made,
    lemma_withdraw_keeps_wf,
};
use ink_env::AccountId;
use vstd::prelude::*;
use vstd::set_lib::lemma_len_subset;

verus! {

/// A liquidity pool of two assets that trades one for the other along a
/// constant product, together with the books of its users' balances and of
/// its providers' shares.
pub struct Amm {
    totalShares: u128,
    totalToken1: u128,
    totalToken2: u128,
    shares: Ledger,
    token1Balance: Ledger,
    token2Balance: Ledger,
    fees: u128,
}

/// A machine result read as mathematics.
pub open spec fn amount_of(result: Result<u128, Error>) -> Result<nat, Error> {
    match result {
        Ok(amount) => Ok(amount as nat),
        Err(e) => Err(e),
    }
}

/// A machine result of two amounts read as mathematics.
pub open spec fn amounts_of(result: Result<(u128, u128), Error>) -> Result<(nat, nat), Error> {
    match result {
        Ok((amount1, amount2)) => Ok((amount1 as nat, amount2 as nat)),
        Err(e) => Err(e),
    }
}

impl View for Amm {
    type V = PoolState;

    /// The pool as mathematics. `getPoolDetails` and `getMyHoldings` read
    /// it out.
    closed spec fn view(&self) -> PoolState {
        PoolState {
            total_shares: self.totalShares as nat,
            reserve1: self.totalToken1 as nat,
            reserve2: self.totalToken2 as nat,
            fee: self.fees as nat,
            shares: self.shares@,
            balance1: self.token1Balance@,
            balance2: self.token2Balance@,
        }
    }
}

impl Default for Amm {
    /// An empty pool without a fee.
    fn default() -> (pool: Amm)
        ensures
            pool.wf(),
            pool@ == PoolState::fresh(0),
    {
        Amm::new(0)
    }
}

impl Amm {
    /// The pool is in a state that its operations can reach, and its books
    /// are within what a ledger takes.
    pub open spec fn wf(&self) -> bool {
        &&& self@.wf()
        &&& self@.balance1.dom().len() <= Ledger::capacity()
        &&& self@.total_shares <= limit()
        &&& self@.reserve1 <= limit()
        &&& self@.reserve2 <= limit()
    }

    /// Each of the three books is one that a ledger can be written to.
    proof fn lemma_books_wf(&self)
        requires
            self.wf(),
        ensures
            self.shares.wf(),
            self.token1Balance.wf(),
            self.token2Balance.wf(),
    {
        lemma_len_subset(self.shares@.dom(), self.token1Balance@.dom());
    }

    /// The test that every quantity passes before it is taken from a book:
    /// it is not zero, and `caller` holds that much in `balance`.
    pub fn validAmountCheck(balance: &Ledger, caller: &AccountId, qty: u128) -> (result: Result<
        (),
        Error,
    >)
        ensures
            result == check_amount(balance@, *caller, qty as nat),
    {
        let my_balance: u128 = balance.balance(caller);
        if qty == 0 {
            Err(Error::ZeroAmount)
        } else if qty > my_balance {
            Err(Error::InsufficientAmount)
        } else {
            Ok(())
        }
    }

    /// The constant product of the two reserves.
    pub fn getK(&self) -> (k: u128)
        requires
            self@.k_fits(),
        ensures
            k == self@.k(),
    {
        self.totalToken1 * self.totalToken2
    }

    /// Whether the pool has reserves to quote and trade against.
    pub fn activePool(&self) -> (result: Result<(), Error>)
        requires
            self@.k_fits(),
        ensures
            result == self@.check_active(),
    {
        if self.getK() == 0 {
            Err(Error::ZeroLiquidity)
        } else {
            Ok(())
        }
    }

    /// An empty pool. A fee of one thousand per mille or more is read as no
    /// fee at all.
    pub fn new(fees: u128) -> (pool: Amm)
        ensures
            pool.wf(),
            pool@ == PoolState::fresh(
                if fees >= 1000 {
                    0
                } else {
                    fees as nat
                },
            ),
    {
        let pool = Amm {
            totalShares: 0,
            totalToken1: 0,
            totalToken2: 0,
            shares: Ledger::new(),
            token1Balance: Ledger::new(),
            token2Balance: Ledger::new(),
            fees: if fees >= 1000 {
                0
            } else {
                fees
            },
        };
        proof {
            lemma_fresh_wf(pool.fees as nat);
        }
        pool
    }

    /// Whether the machine can hand `caller` the two amounts.
    pub fn can_faucet(&self, caller: AccountId, amountToken1: u128, amountToken2: u128) -> (fits:
        bool)
        ensures
            fits == self@.faucet_fits(caller, amountToken1 as nat, amountToken2 as nat),
    {
        let token1: u128 = self.token1Balance.balance(&caller);
        let token2: u128 = self.token2Balance.balance(&caller);
        token1.checked_add(amountToken1).is_some() && token2.checked_add(amountToken2).is_some()
            && (self.token1Balance.knows(&caller) || self.token1Balance.has_room())
    }

    /// Hands `caller` the two amounts, on top of what the caller holds
    /// outside the pool.
    pub fn faucet(&mut self, caller: AccountId, amountToken1: u128, amountToken2: u128)
        requires
            old(self).wf(),
            old(self)@.faucet_fits(caller, amountToken1 as nat, amountToken2 as nat),
        ensures
            final(self).wf(),
            final(self)@ == old(self)@.after_faucet(
                caller,
                amountToken1 as nat,
                amountToken2 as nat,
            ),
    {
        proof {
            self.lemma_books_wf();
            lemma_faucet_keeps_wf(self@, caller, amountToken1 as nat, amountToken2 as nat);
        }
        let token1: u128 = self.token1Balance.balance(&caller);
        let token2: u128 = self.token2Balance.balance(&caller);
        self.token1Balance.set(caller, token1 + amountToken1);
        self.token2Balance.set(caller, token2 + amountToken2);
    }

    /// What `caller` holds: of the first asset, of the second asset, and in
    /// shares.
    pub fn getMyHoldings(&self, caller: AccountId) -> (holdings: (u128, u128, u128))
        ensures
            holdings.0 == balance_of(self@.balance1, caller),
            holdings.1 == balance_of(self@.balance2, caller),
            holdings.2 == balance_of(self@.shares, caller),
    {
        let token1: u128 = self.token1Balance.balance(&caller);
        let token2: u128 = self.token2Balance.balance(&caller);
        let myShares: u128 = self.shares.balance(&caller);
        (token1, token2, myShares)
    }

    /// The two reserves, the shares outstanding and the fee.
    pub fn getPoolDetails(&self) -> (details: (u128, u128, u128, u128))
        ensures
            details.0 == self@.reserve1,
            details.1 == self@.reserve2,
            details.2 == self@.total_shares,
            details.3 == self@.fee,
    {
        (self.totalToken1, self.totalToken2, self.totalShares, self.fees)
    }

    /// Adds liquidity. The caller's two amounts move into the reserves, and
    /// the caller is issued shares for them: a fixed number for the first
    /// deposit into an empty pool, and after that the deposit's part of the
    /// pool, which both amounts have to agree on.
    pub fn provide(&mut self, caller: AccountId, amountToken1: u128, amountToken2: u128) -> (result:
        Result<u128, Error>)
        requires
            old(self).wf(),
            old(self)@.provide_fits(caller, amountToken1 as nat, amountToken2 as nat),
        ensures
            final(self).wf(),
            amount_of(result) == old(self)@.provide_result(
                caller,
                amountToken1 as nat,
                amountToken2 as nat,
            ),
            final(self)@ == old(self)@.after_provide(
                caller,
                amountToken1 as nat,
                amountToken2 as nat,
            ),
    {
        if let Err(e) = Self::validAmountCheck(&self.token1Balance, &caller, amountToken1) {
            return Err(e);
        }
        if let Err(e) = Self::validAmountCheck(&self.token2Balance, &caller, amountToken2) {
            return Err(e);
        }
        let share: u128;
        if self.totalShares == 0 {
            share = GENESIS_SHARES;
        } else {
            let share1: u128 = self.totalShares * amountToken1 / self.totalToken1;
            let share2: u128 = self.totalShares * amountToken2 / self.totalToken2;
            if share1 != share2 {
                return Err(Error::NonEquivalentValue);
            }
            share = share1;
        }
        if share == 0 {
            return Err(Error::ThresholdNotReached);
        }
        proof {
            self.lemma_books_wf();
            lemma_provide_keeps_wf(self@, caller, amountToken1 as nat, amountToken2 as nat);
            lemma_tally_bounds_entry(self@.shares, caller);
            if !self@.shares.contains_key(caller) {
                lemma_room_beside(self@.shares, self@.balance1, caller);
            }
        }
        let token1: u128 = self.token1Balance.balance(&caller);
        let token2: u128 = self.token2Balance.balance(&caller);
        self.token1Balance.set(caller, token1 - amountToken1);
        self.token2Balance.set(caller, token2 - amountToken2);
        self.totalToken1 += amountToken1;
        self.totalToken2 += amountToken2;
        self.totalShares += share;
        self.shares.credit_or_enter(caller, share);
        proof {
            assert(self@.balance1.dom() =~= old(self)@.balance1.dom());
        }
        Ok(share)
    }

    /// The amount of the first asset that a deposit of `amountToken2` of the
    /// second has to bring with it.
    pub fn getEquivalentToken1Estimate(&self, amountToken2: u128) -> (result: Result<u128, Error>)
        requires
            self@.equivalent1_fits(amountToken2 as nat),
        ensures
            amount_of(result) == self@.equivalent1_result(amountToken2 as nat),
    {
        if let Err(e) = self.activePool() {
            return Err(e);
        }
        proof {
            lemma_active_reserves(self@);
        }
        Ok(self.totalToken1 * amountToken2 / self.totalToken2)
    }

    /// The amount of the second asset that a deposit of `amountToken1` of
    /// the first has to bring with it.
    pub fn getEquivalentToken2Estimate(&self, amountToken1: u128) -> (result: Result<u128, Error>)
        requires
            self@.equivalent2_fits(amountToken1 as nat),
        ensures
            amount_of(result) == self@.equivalent2_result(amountToken1 as nat),
    {
        if let Err(e) = self.activePool() {
            return Err(e);
        }
        proof {
            lemma_active_reserves(self@);
        }
        Ok(self.totalToken2 * amountToken1 / self.totalToken1)
    }

    /// What burning `share` shares would release of each asset.
    pub fn getWithdrawEstimate(&self, share: u128) -> (result: Result<(u128, u128), Error>)
        requires
            self.wf(),
            self@.withdraw_estimate_fits(share as nat),
        ensures
            amounts_of(result) == self@.withdraw_estimate(share as nat),
    {
        if let Err(e) = self.activePool() {
            return Err(e);
        }
        if share > self.totalShares {
            return Err(Error::InvalidShare);
        }
        proof {
            lemma_active_reserves(self@);
        }
        let amountToken1: u128 = share * self.totalToken1 / self.totalShares;
        let amountToken2: u128 = share * self.totalToken2 / self.totalShares;
        Ok((amountToken1, amountToken2))
    }

    /// Removes liquidity. The caller's shares are burnt, and their part of
    /// each reserve moves to the caller's balances.
    pub fn withdraw(&mut self, caller: AccountId, share: u128) -> (result: Result<
        (u128, u128),
        Error,
    >)
        requires
            old(self).wf(),
            old(self)@.withdraw_fits(caller, share as nat),
        ensures
            final(self).wf(),
            amounts_of(result) == old(self)@.withdraw_result(caller, share as nat),
            final(self)@ == old(self)@.after_withdraw(caller, share as nat),
    {
        if let Err(e) = Self::validAmountCheck(&self.shares, &caller, share) {
            return Err(e);
        }
        let (amountToken1, amountToken2) = match self.getWithdrawEstimate(share) {
            Ok(amounts) => amounts,
            Err(e) => {
                return Err(e);
            },
        };
        proof {
            self.lemma_books_wf();
            lemma_withdraw_is_made(self@, caller, share as nat);
            lemma_withdraw_keeps_wf(self@, caller, share as nat);
            lemma_pro_rata_within(share as nat, self@.reserve1, self@.total_shares);
            lemma_pro_rata_within(share as nat, self@.reserve2, self@.total_shares);
        }
        self.shares.debit(caller, share);
        self.totalShares -= share;
        self.totalToken1 -= amountToken1;
        self.totalToken2 -= amountToken2;
        self.token1Balance.credit(caller, amountToken1);
        self.token2Balance.credit(caller, amountToken2);
        proof {
            assert(self@.balance1.dom() =~= old(self)@.balance1.dom());
        }
        Ok((amountToken1, amountToken2))
    }

    /// The amount of the second asset that `amountToken1` of the first
    /// would buy.
    pub fn getSwapToken1EstimateGivenToken1(&self, amountToken1: u128) -> (result: Result<
        u128,
        Error,
    >)
        requires
            self.wf(),
            self@.quote_out_fits(amountToken1 as nat),
        ensures
            amount_of(result) == self@.quote_out(amountToken1 as nat),
    {
        if let Err(e) = self.activePool() {
            return Err(e);
        }
        proof {
            lemma_active_reserves(self@);
            lemma_reserve2_after_within(
                self@.reserve1,
                self@.reserve2,
                after_fee(self@.fee, amountToken1 as nat),
            );
        }
        let paid: u128 = (1000 - self.fees) * amountToken1 / 1000;
        let token1After: u128 = self.totalToken1 + paid;
        let token2After: u128 = self.getK() / token1After;
        let mut amountToken2: u128 = self.totalToken2 - token2After;
        if amountToken2 == self.totalToken2 {
            amountToken2 -= 1;
        }
        Ok(amountToken2)
    }

    /// The amount of the first asset that has to be paid for `amountToken2`
    /// of the second.
    pub fn getSwapToken1EstimateGivenToken2(&self, amountToken2: u128) -> (result: Result<
        u128,
        Error,
    >)
        requires
            self.wf(),
            self@.quote_in_fits(amountToken2 as nat),
        ensures
            amount_of(result) == self@.quote_in(amountToken2 as nat),
    {
        if let Err(e) = self.activePool() {
            return Err(e);
        }
        if amountToken2 >= self.totalToken2 {
            return Err(Error::InsufficientLiquidity);
        }
        proof {
            lemma_reserve1_after_covers(self@.reserve1, self@.reserve2, amountToken2 as nat);
        }
        let token2After: u128 = self.totalToken2 - amountToken2;
        let token1After: u128 = self.getK() / token2After;
        let amountToken1: u128 = (token1After - self.totalToken1) * 1000 / (1000 - self.fees);
        Ok(amountToken1)
    }

    /// Sells `amountToken1` of the first asset for the second, at the
    /// quoted price, unless that buys less than `minToken2`.
    pub fn swapToken1GivenToken1(
        &mut self,
        caller: AccountId,
        amountToken1: u128,
        minToken2: u128,
    ) -> (result: Result<u128, Error>)
        requires
            old(self).wf(),
            old(self)@.swap_in_fits(caller, amountToken1 as nat, minToken2 as nat),
        ensures
            final(self).wf(),
            amount_of(result) == old(self)@.swap_in_result(
                caller,
                amountToken1 as nat,
                minToken2 as nat,
            ),
            final(self)@ == old(self)@.after_swap_in(
                caller,
                amountToken1 as nat,
                minToken2 as nat,
            ),
    {
        if let Err(e) = Self::validAmountCheck(&self.token1Balance, &caller, amountToken1) {
            return Err(e);
        }
        let amountToken2: u128 = match self.getSwapToken1EstimateGivenToken1(amountToken1) {
            Ok(amount) => amount,
            Err(e) => {
                return Err(e);
            },
        };
        if amountToken2 < minToken2 {
            return Err(Error::SlippageExceeded);
        }
        proof {
            self.lemma_books_wf();
            lemma_active_reserves(self@);
            lemma_swap_in_keeps_wf(self@, caller, amountToken1 as nat, minToken2 as nat);
            lemma_token2_out_within(
                self@.reserve1,
                self@.reserve2,
                self@.fee,
                amountToken1 as nat,
            );
        }
        self.token1Balance.debit(caller, amountToken1);
        self.totalToken1 += amountToken1;
        self.totalToken2 -= amountToken2;
        self.token2Balance.credit(caller, amountToken2);
        proof {
            assert(self@.balance1.dom() =~= old(self)@.balance1.dom());
        }
        Ok(amountToken2)
    }

    /// Buys `amountToken2` of the second asset for the first, at the quoted
    /// price, unless that costs more than `maxToken1`.
    pub fn swapToken1GivenToken2(
        &mut self,
        caller: AccountId,
        amountToken2: u128,
        maxToken1: u128,
    ) -> (result: Result<u128, Error>)
        requires
            old(self).wf(),
            old(self)@.swap_out_fits(caller, amountToken2 as nat, maxToken1 as nat),
        ensures
            final(self).wf(),
            amount_of(result) == old(self)@.swap_out_result(
                caller,
                amountToken2 as nat,
                maxToken1 as nat,
            ),
            final(self)@ == old(self)@.after_swap_out(
                caller,
                amountToken2 as nat,
                maxToken1 as nat,
            ),
    {
        let amountToken1: u128 = match self.getSwapToken1EstimateGivenToken2(amountToken2) {
            Ok(amount) => amount,
            Err(e) => {
                return Err(e);
            },
        };
        if amountToken1 > maxToken1 {
            return Err(Error::SlippageExceeded);
        }
        if let Err(e) = Self::validAmountCheck(&self.token1Balance, &caller, amountToken1) {
            return Err(e);
        }
        proof {
            self.lemma_books_wf();
            lemma_swap_out_keeps_wf(self@, caller, amountToken2 as nat, maxToken1 as nat);
        }
        self.token1Balance.debit(caller, amountToken1);
        self.totalToken1 += amountToken1;
        self.totalToken2 -= amountToken2;
        self.token2Balance.credit(caller, amountToken2);
        proof {
            assert(self@.balance1.dom() =~= old(self)@.balance1.dom());
        }
        Ok(amountToken1)
    }
}

} // verus!
