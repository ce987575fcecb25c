use crate::amm::Amm;
use crate::curve::{lemma_reserve1_after_covers, GENESIS_SHARES};
use ink_env::AccountId;
use vstd::prelude::*;

verus! {

impl Amm {
    /// Whether the product of the reserves fits a machine word, as `getK`
    /// and `activePool` ask.
    pub fn can_take_product(&self) -> (fits: bool)
        ensures
            fits == self@.k_fits(),
    {
        let details = self.getPoolDetails();
        details.0.checked_mul(details.1).is_some()
    }

    /// Whether the machine can work `provide` out on these arguments.
    pub fn can_provide(&self, caller: AccountId, amountToken1: u128, amountToken2: u128) -> (fits:
        bool)
        requires
            self.wf(),
        ensures
            fits == self@.provide_fits(caller, amountToken1 as nat, amountToken2 as nat),
    {
        let holdings = self.getMyHoldings(caller);
        let details = self.getPoolDetails();
        if amountToken1 == 0 || amountToken1 > holdings.0 || amountToken2 == 0 || amountToken2
            > holdings.1 {
            return true;
        }
        let share: u128;
        if details.2 == 0 {
            share = GENESIS_SHARES;
        } else {
            let product1: u128 = match details.2.checked_mul(amountToken1) {
                Some(product) => product,
                None => {
                    return false;
                },
            };
            let product2: u128 = match details.2.checked_mul(amountToken2) {
                Some(product) => product,
                None => {
                    return false;
                },
            };
            let share1: u128 = product1 / details.0;
            let share2: u128 = product2 / details.1;
            if share1 != share2 || share1 == 0 {
                return true;
            }
            share = share1;
        }
        details.0.checked_add(amountToken1).is_some() && details.1.checked_add(
            amountToken2,
        ).is_some() && details.2.checked_add(share).is_some()
    }

    /// Whether the machine can work out the amount of the first asset that
    /// matches `amountToken2` of the second.
    pub fn can_estimate_token1(&self, amountToken2: u128) -> (fits: bool)
        ensures
            fits == self@.equivalent1_fits(amountToken2 as nat),
    {
        let details = self.getPoolDetails();
        match details.0.checked_mul(details.1) {
            None => false,
            Some(k) => k == 0 || details.0.checked_mul(amountToken2).is_some(),
        }
    }

    /// Whether the machine can work out the amount of the second asset that
    /// matches `amountToken1` of the first.
    pub fn can_estimate_token2(&self, amountToken1: u128) -> (fits: bool)
        ensures
            fits == self@.equivalent2_fits(amountToken1 as nat),
    {
        let details = self.getPoolDetails();
        match details.0.checked_mul(details.1) {
            None => false,
            Some(k) => k == 0 || details.1.checked_mul(amountToken1).is_some(),
        }
    }

    /// Whether the machine can work out what `share` shares would release.
    pub fn can_estimate_withdraw(&self, share: u128) -> (fits: bool)
        ensures
            fits == self@.withdraw_estimate_fits(share as nat),
    {
        let details = self.getPoolDetails();
        match details.0.checked_mul(details.1) {
            None => false,
            Some(k) => k == 0 || share > details.2 || (share.checked_mul(details.0).is_some()
                && share.checked_mul(details.1).is_some()),
        }
    }

    /// Whether the machine can work `withdraw` out on these arguments.
    pub fn can_withdraw(&self, caller: AccountId, share: u128) -> (fits: bool)
        requires
            self.wf(),
        ensures
            fits == self@.withdraw_fits(caller, share as nat),
    {
        let holdings = self.getMyHoldings(caller);
        if share == 0 || share > holdings.2 {
            return true;
        }
        if !self.can_estimate_withdraw(share) {
            return false;
        }
        match self.getWithdrawEstimate(share) {
            Ok((amountToken1, amountToken2)) => holdings.0.checked_add(amountToken1).is_some()
                && holdings.1.checked_add(amountToken2).is_some(),
            Err(_) => true,
        }
    }

    /// Whether the machine can work out the price of `amountToken1` of the
    /// first asset.
    pub fn can_quote_input(&self, amountToken1: u128) -> (fits: bool)
        requires
            self.wf(),
        ensures
            fits == self@.quote_out_fits(amountToken1 as nat),
    {
        let details = self.getPoolDetails();
        match details.0.checked_mul(details.1) {
            None => false,
            Some(k) => {
                if k == 0 {
                    true
                } else {
                    match (1000 - details.3).checked_mul(amountToken1) {
                        None => false,
                        Some(scaled) => details.0.checked_add(scaled / 1000).is_some(),
                    }
                }
            },
        }
    }

    /// Whether the machine can work out the price of `amountToken2` of the
    /// second asset.
    pub fn can_quote_output(&self, amountToken2: u128) -> (fits: bool)
        ensures
            fits == self@.quote_in_fits(amountToken2 as nat),
    {
        let details = self.getPoolDetails();
        match details.0.checked_mul(details.1) {
            None => false,
            Some(k) => {
                if k == 0 || amountToken2 >= details.1 {
                    true
                } else {
                    proof {
                        lemma_reserve1_after_covers(
                            self@.reserve1,
                            self@.reserve2,
                            amountToken2 as nat,
                        );
                    }
                    let token1After: u128 = k / (details.1 - amountToken2);
                    (token1After - details.0).checked_mul(1000).is_some()
                }
            },
        }
    }

    /// Whether the machine can work a swap by input out on these arguments.
    pub fn can_swap_input(&self, caller: AccountId, amountToken1: u128, minToken2: u128) -> (fits:
        bool)
        requires
            self.wf(),
        ensures
            fits == self@.swap_in_fits(caller, amountToken1 as nat, minToken2 as nat),
    {
        let holdings = self.getMyHoldings(caller);
        let details = self.getPoolDetails();
        if amountToken1 == 0 || amountToken1 > holdings.0 {
            return true;
        }
        if !self.can_quote_input(amountToken1) {
            return false;
        }
        match self.getSwapToken1EstimateGivenToken1(amountToken1) {
            Ok(amountToken2) => amountToken2 < minToken2 || (details.0.checked_add(
                amountToken1,
            ).is_some() && holdings.1.checked_add(amountToken2).is_some()),
            Err(_) => true,
        }
    }

    /// Whether the machine can work a swap by output out on these arguments.
    pub fn can_swap_output(&self, caller: AccountId, amountToken2: u128, maxToken1: u128) -> (fits:
        bool)
        requires
            self.wf(),
        ensures
            fits == self@.swap_out_fits(caller, amountToken2 as nat, maxToken1 as nat),
    {
        let holdings = self.getMyHoldings(caller);
        let details = self.getPoolDetails();
        if !self.can_quote_output(amountToken2) {
            return false;
        }
        match self.getSwapToken1EstimateGivenToken2(amountToken2) {
            Ok(amountToken1) => amountToken1 > maxToken1 || amountToken1 == 0 || amountToken1
                > holdings.0 || (details.0.checked_add(amountToken1).is_some()
                && holdings.1.checked_add(amountToken2).is_some()),
            Err(_) => true,
        }
    }
}

} // verus!
