use crate::book::{balance_of, tally};
use crate::curve::{after_fee, pro_rata, product, reserve1_after, token1_in, token2_out};
use crate::curve::{GENESIS_SHARES, PER_MILLE};
use crate::error::Error;
use crate::ledger::Ledger;
use ink_env::AccountId;
use vstd::prelude::*;

verus! {

/// A pool as mathematics: its reserves, the shares issued against them, the
/// fee, and the three books that say who holds what. Nothing here is bounded
/// by a machine word.
pub struct PoolState {
    /// All shares outstanding.
    pub total_shares: nat,
    /// The pool's holding of the first asset.
    pub reserve1: nat,
    /// The pool's holding of the second asset.
    pub reserve2: nat,
    /// The trading fee, in parts of a thousand.
    pub fee: nat,
    /// The shares of each provider.
    pub shares: Map<AccountId, nat>,
    /// What each user holds of the first asset outside the pool.
    pub balance1: Map<AccountId, nat>,
    /// What each user holds of the second asset outside the pool.
    pub balance2: Map<AccountId, nat>,
}

/// The test that every quantity passes before it is taken from a book: it is
/// not zero, and `who` holds that much.
pub open spec fn check_amount(book: Map<AccountId, nat>, who: AccountId, amount: nat) -> Result<
    (),
    Error,
> {
    if amount == 0 {
        Err(Error::ZeroAmount)
    } else if amount > balance_of(book, who) {
        Err(Error::InsufficientAmount)
    } else {
        Ok(())
    }
}

/// The largest quantity that the pool's machine words hold.
pub open spec fn limit() -> nat {
    u128::MAX as nat
}

impl PoolState {
    /// The pool as it is created: empty, with its fee.
    pub open spec fn fresh(fee: nat) -> PoolState {
        PoolState {
            total_shares: 0,
            reserve1: 0,
            reserve2: 0,
            fee,
            shares: Map::empty(),
            balance1: Map::empty(),
            balance2: Map::empty(),
        }
    }

    /// The constant product of the two reserves.
    pub open spec fn k(self) -> nat {
        product(self.reserve1, self.reserve2)
    }

    /// What holds of a pool in every state that the operations can reach.
    /// The fee is below one thousand. The reserves and the shares are empty
    /// together or not at all. The shares of all providers add up to the
    /// total. Whoever holds shares has an entry in both balance books, and
    /// the two balance books know the same accounts.
    pub open spec fn wf(self) -> bool {
        &&& self.fee < PER_MILLE
        &&& (self.total_shares == 0 <==> self.reserve1 == 0)
        &&& (self.reserve1 == 0 <==> self.reserve2 == 0)
        &&& self.shares.dom().finite()
        &&& self.balance1.dom().finite()
        &&& self.balance2.dom().finite()
        &&& tally(self.shares) == self.total_shares
        &&& self.shares.dom().subset_of(self.balance1.dom())
        &&& self.balance1.dom() == self.balance2.dom()
    }

    /// All that there is of the first asset: the reserve, and the balances
    /// of the users.
    pub open spec fn supply1(self) -> nat {
        self.reserve1 + tally(self.balance1)
    }

    /// All that there is of the second asset: the reserve, and the balances
    /// of the users.
    pub open spec fn supply2(self) -> nat {
        self.reserve2 + tally(self.balance2)
    }

    /// This pool holds as much of each asset as `other` does, reserves and
    /// balances together.
    pub open spec fn holds_as_much_as(self, other: PoolState) -> bool {
        self.supply1() == other.supply1() && self.supply2() == other.supply2()
    }

    /// The product fits a machine word.
    pub open spec fn k_fits(self) -> bool {
        self.k() <= limit()
    }

    /// Quotes, swaps and withdrawals are for a pool with reserves.
    pub open spec fn check_active(self) -> Result<(), Error> {
        if self.k() == 0 {
            Err(Error::ZeroLiquidity)
        } else {
            Ok(())
        }
    }

    /// The pool after `caller` was handed `amount1` and `amount2` from
    /// nowhere.
    pub open spec fn after_faucet(self, caller: AccountId, amount1: nat, amount2: nat) -> PoolState {
        PoolState {
            balance1: self.balance1.insert(caller, balance_of(self.balance1, caller) + amount1),
            balance2: self.balance2.insert(caller, balance_of(self.balance2, caller) + amount2),
            ..self
        }
    }

    /// The machine can hand `caller` the two amounts: the new balances fit,
    /// and the books have room for the account.
    pub open spec fn faucet_fits(self, caller: AccountId, amount1: nat, amount2: nat) -> bool {
        &&& balance_of(self.balance1, caller) + amount1 <= limit()
        &&& balance_of(self.balance2, caller) + amount2 <= limit()
        &&& self.balance1.contains_key(caller) || self.balance1.dom().len() < Ledger::capacity()
    }

    /// The shares that a deposit of `amount1` and `amount2` is worth. The
    /// first deposit is given a fixed number. Every later one is measured
    /// against each reserve in turn: the two measures have to agree, and to
    /// be worth a share at least.
    pub open spec fn deposit_shares(self, amount1: nat, amount2: nat) -> Result<nat, Error> {
        if self.total_shares == 0 {
            Ok(GENESIS_SHARES as nat)
        } else {
            let share1 = pro_rata(self.total_shares, amount1, self.reserve1);
            let share2 = pro_rata(self.total_shares, amount2, self.reserve2);
            if share1 != share2 {
                Err(Error::NonEquivalentValue)
            } else if share1 == 0 {
                Err(Error::ThresholdNotReached)
            } else {
                Ok(share1)
            }
        }
    }

    /// What `provide` returns: the shares issued, or the first test that the
    /// deposit failed.
    pub open spec fn provide_result(self, caller: AccountId, amount1: nat, amount2: nat) -> Result<
        nat,
        Error,
    > {
        match check_amount(self.balance1, caller, amount1) {
            Err(e) => Err(e),
            Ok(_) => match check_amount(self.balance2, caller, amount2) {
                Err(e) => Err(e),
                Ok(_) => self.deposit_shares(amount1, amount2),
            },
        }
    }

    /// The pool after `provide`: on success the amounts have moved from the
    /// caller's balances into the reserves and the caller holds the new
    /// shares; on failure nothing has changed.
    pub open spec fn after_provide(self, caller: AccountId, amount1: nat, amount2: nat) -> PoolState {
        match self.provide_result(caller, amount1, amount2) {
            Ok(minted) => PoolState {
                total_shares: self.total_shares + minted,
                reserve1: self.reserve1 + amount1,
                reserve2: self.reserve2 + amount2,
                fee: self.fee,
                shares: self.shares.insert(caller, balance_of(self.shares, caller) + minted),
                balance1: self.balance1.insert(
                    caller,
                    (balance_of(self.balance1, caller) - amount1) as nat,
                ),
                balance2: self.balance2.insert(
                    caller,
                    (balance_of(self.balance2, caller) - amount2) as nat,
                ),
            },
            Err(_) => self,
        }
    }

    /// The machine can work `provide` out: once both amounts have passed
    /// their test, the products that measure the deposit fit; and where
    /// shares are issued, so do the new totals.
    pub open spec fn provide_fits(self, caller: AccountId, amount1: nat, amount2: nat) -> bool {
        check_amount(self.balance1, caller, amount1) is Ok && check_amount(
            self.balance2,
            caller,
            amount2,
        ) is Ok ==> {
            &&& self.total_shares > 0 ==> self.total_shares * amount1 <= limit()
                && self.total_shares * amount2 <= limit()
            &&& self.deposit_shares(amount1, amount2) matches Ok(minted) ==> self.reserve1
                + amount1 <= limit() && self.reserve2 + amount2 <= limit() && self.total_shares
                + minted <= limit()
        }
    }

    /// The amount of the first asset that goes with `amount2` of the second
    /// at the pool's present ratio.
    pub open spec fn equivalent1_result(self, amount2: nat) -> Result<nat, Error> {
        match self.check_active() {
            Err(e) => Err(e),
            Ok(_) => Ok(pro_rata(self.reserve1, amount2, self.reserve2)),
        }
    }

    /// The machine can work that amount out.
    pub open spec fn equivalent1_fits(self, amount2: nat) -> bool {
        self.k_fits() && (self.k() != 0 ==> self.reserve1 * amount2 <= limit())
    }

    /// The amount of the second asset that goes with `amount1` of the first
    /// at the pool's present ratio.
    pub open spec fn equivalent2_result(self, amount1: nat) -> Result<nat, Error> {
        match self.check_active() {
            Err(e) => Err(e),
            Ok(_) => Ok(pro_rata(self.reserve2, amount1, self.reserve1)),
        }
    }

    /// The machine can work that amount out.
    pub open spec fn equivalent2_fits(self, amount1: nat) -> bool {
        self.k_fits() && (self.k() != 0 ==> self.reserve2 * amount1 <= limit())
    }

    /// What burning `share` shares releases of each asset: the share's part
    /// of each reserve, rounded down.
    pub open spec fn withdraw_estimate(self, share: nat) -> Result<(nat, nat), Error> {
        match self.check_active() {
            Err(e) => Err(e),
            Ok(_) => if share > self.total_shares {
                Err(Error::InvalidShare)
            } else {
                Ok(
                    (
                        pro_rata(share, self.reserve1, self.total_shares),
                        pro_rata(share, self.reserve2, self.total_shares),
                    ),
                )
            },
        }
    }

    /// The machine can work the estimate out.
    pub open spec fn withdraw_estimate_fits(self, share: nat) -> bool {
        self.k_fits() && (self.k() != 0 && share <= self.total_shares ==> share * self.reserve1
            <= limit() && share * self.reserve2 <= limit())
    }

    /// What `withdraw` returns: the amounts released, or the first test that
    /// the withdrawal failed.
    pub open spec fn withdraw_result(self, caller: AccountId, share: nat) -> Result<
        (nat, nat),
        Error,
    > {
        match check_amount(self.shares, caller, share) {
            Err(e) => Err(e),
            Ok(_) => self.withdraw_estimate(share),
        }
    }

    /// The pool after `withdraw`: on success the shares are burnt and the
    /// amounts have moved from the reserves to the caller's balances; on
    /// failure nothing has changed.
    pub open spec fn after_withdraw(self, caller: AccountId, share: nat) -> PoolState {
        match self.withdraw_result(caller, share) {
            Ok((amount1, amount2)) => PoolState {
                total_shares: (self.total_shares - share) as nat,
                reserve1: (self.reserve1 - amount1) as nat,
                reserve2: (self.reserve2 - amount2) as nat,
                fee: self.fee,
                shares: self.shares.insert(caller, (balance_of(self.shares, caller) - share) as nat),
                balance1: self.balance1.insert(caller, balance_of(self.balance1, caller) + amount1),
                balance2: self.balance2.insert(caller, balance_of(self.balance2, caller) + amount2),
            },
            Err(_) => self,
        }
    }

    /// The machine can work `withdraw` out: once the share has passed its
    /// test the estimate can be taken, and the caller's balances can hold
    /// what is released.
    pub open spec fn withdraw_fits(self, caller: AccountId, share: nat) -> bool {
        check_amount(self.shares, caller, share) is Ok ==> {
            &&& self.withdraw_estimate_fits(share)
            &&& self.withdraw_estimate(share) matches Ok((amount1, amount2)) ==> balance_of(
                self.balance1,
                caller,
            ) + amount1 <= limit() && balance_of(self.balance2, caller) + amount2 <= limit()
        }
    }

    /// The price of `amount_in` of the first asset, in the second.
    pub open spec fn quote_out(self, amount_in: nat) -> Result<nat, Error> {
        match self.check_active() {
            Err(e) => Err(e),
            Ok(_) => Ok(token2_out(self.reserve1, self.reserve2, self.fee, amount_in)),
        }
    }

    /// The machine can work that price out.
    pub open spec fn quote_out_fits(self, amount_in: nat) -> bool {
        self.k_fits() && (self.k() != 0 ==> (PER_MILLE - self.fee) * amount_in <= limit()
            && self.reserve1 + after_fee(self.fee, amount_in) <= limit())
    }

    /// The price of `amount_out` of the second asset, in the first. No price
    /// is made for the whole second reserve, or more.
    pub open spec fn quote_in(self, amount_out: nat) -> Result<nat, Error> {
        match self.check_active() {
            Err(e) => Err(e),
            Ok(_) => if amount_out >= self.reserve2 {
                Err(Error::InsufficientLiquidity)
            } else {
                Ok(token1_in(self.reserve1, self.reserve2, self.fee, amount_out))
            },
        }
    }

    /// The machine can work that price out.
    pub open spec fn quote_in_fits(self, amount_out: nat) -> bool {
        self.k_fits() && (self.k() != 0 && amount_out < self.reserve2 ==> (reserve1_after(
            self.reserve1,
            self.reserve2,
            amount_out,
        ) - self.reserve1) * PER_MILLE <= limit())
    }

    /// What a swap by input returns: the amount of the second asset bought,
    /// or the first test that the swap failed.
    pub open spec fn swap_in_result(self, caller: AccountId, amount_in: nat, min_out: nat) -> Result<
        nat,
        Error,
    > {
        match check_amount(self.balance1, caller, amount_in) {
            Err(e) => Err(e),
            Ok(_) => match self.quote_out(amount_in) {
                Err(e) => Err(e),
                Ok(amount_out) => if amount_out < min_out {
                    Err(Error::SlippageExceeded)
                } else {
                    Ok(amount_out)
                },
            },
        }
    }

    /// The pool after a trade in which `caller` paid `paid` of the first
    /// asset and was given `bought` of the second.
    pub open spec fn after_trade(self, caller: AccountId, paid: nat, bought: nat) -> PoolState {
        PoolState {
            reserve1: self.reserve1 + paid,
            reserve2: (self.reserve2 - bought) as nat,
            balance1: self.balance1.insert(
                caller,
                (balance_of(self.balance1, caller) - paid) as nat,
            ),
            balance2: self.balance2.insert(caller, balance_of(self.balance2, caller) + bought),
            ..self
        }
    }

    /// The pool after a swap by input: on success the trade has been made,
    /// on failure nothing has changed.
    pub open spec fn after_swap_in(self, caller: AccountId, amount_in: nat, min_out: nat) -> PoolState {
        match self.swap_in_result(caller, amount_in, min_out) {
            Ok(amount_out) => self.after_trade(caller, amount_in, amount_out),
            Err(_) => self,
        }
    }

    /// The machine can work a swap by input out: once the input has passed
    /// its test the price can be taken; and where the trade is made, the
    /// first reserve and the caller's second balance can hold what they
    /// receive.
    pub open spec fn swap_in_fits(self, caller: AccountId, amount_in: nat, min_out: nat) -> bool {
        check_amount(self.balance1, caller, amount_in) is Ok ==> {
            &&& self.quote_out_fits(amount_in)
            &&& self.swap_in_result(caller, amount_in, min_out) matches Ok(amount_out)
                ==> self.reserve1 + amount_in <= limit() && balance_of(self.balance2, caller)
                + amount_out <= limit()
        }
    }

    /// What a swap by output returns: the amount of the first asset paid, or
    /// the first test that the swap failed.
    pub open spec fn swap_out_result(self, caller: AccountId, amount_out: nat, max_in: nat) -> Result<
        nat,
        Error,
    > {
        match self.quote_in(amount_out) {
            Err(e) => Err(e),
            Ok(amount_in) => if amount_in > max_in {
                Err(Error::SlippageExceeded)
            } else {
                match check_amount(self.balance1, caller, amount_in) {
                    Err(e) => Err(e),
                    Ok(_) => Ok(amount_in),
                }
            },
        }
    }

    /// The pool after a swap by output: on success the trade has been made,
    /// on failure nothing has changed.
    pub open spec fn after_swap_out(self, caller: AccountId, amount_out: nat, max_in: nat) -> PoolState {
        match self.swap_out_result(caller, amount_out, max_in) {
            Ok(amount_in) => self.after_trade(caller, amount_in, amount_out),
            Err(_) => self,
        }
    }

    /// The machine can work a swap by output out: the price can be taken;
    /// and where the trade is made, the first reserve and the caller's
    /// second balance can hold what they receive.
    pub open spec fn swap_out_fits(self, caller: AccountId, amount_out: nat, max_in: nat) -> bool {
        &&& self.quote_in_fits(amount_out)
        &&& self.swap_out_result(caller, amount_out, max_in) matches Ok(amount_in) ==> self.reserve1
            + amount_in <= limit() && balance_of(self.balance2, caller) + amount_out <= limit()
    }
}

} // verus!
