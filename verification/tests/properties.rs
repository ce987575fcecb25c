use amm::{Amm, Error};
use ink_env::AccountId;

fn carol() -> AccountId {
    AccountId::from([0x0c; 32])
}

fn dave() -> AccountId {
    AccountId::from([0x0d; 32])
}

fn erin() -> AccountId {
    AccountId::from([0x0e; 32])
}

fn pool_with(fees: u128, amount1: u128, amount2: u128) -> Amm {
    let mut pool = Amm::new(fees);
    pool.faucet(carol(), amount1, amount2);
    assert_eq!(pool.provide(carol(), amount1, amount2), Ok(100_000_000));
    pool
}

fn shares_of(pool: &Amm, who: AccountId) -> u128 {
    pool.getMyHoldings(who).2
}

#[test]
fn round_trip_at_an_even_ratio_is_exact() {
    let mut pool = pool_with(0, 1000, 1000);
    pool.faucet(dave(), 500, 500);
    assert_eq!(pool.provide(dave(), 100, 100), Ok(10_000_000));
    assert_eq!(pool.getPoolDetails(), (1100, 1100, 110_000_000, 0));
    assert_eq!(pool.withdraw(dave(), 10_000_000), Ok((100, 100)));
    assert_eq!(pool.getPoolDetails(), (1000, 1000, 100_000_000, 0));
    assert_eq!(pool.getMyHoldings(dave()), (500, 500, 0));
}

#[test]
fn round_trip_leaves_the_rounding_in_the_pool() {
    let mut pool = pool_with(0, 300_000_000, 300_000_000);
    let before = pool.getK();
    pool.faucet(dave(), 100, 100);
    assert_eq!(pool.provide(dave(), 100, 100), Ok(33));
    assert_eq!(pool.withdraw(dave(), 33), Ok((99, 99)));
    assert_eq!(
        pool.getPoolDetails(),
        (300_000_001, 300_000_001, 100_000_000, 0)
    );
    assert_eq!(pool.getMyHoldings(dave()), (99, 99, 0));
    assert!(pool.getK() >= before);
}

#[test]
fn round_trip_of_the_first_deposit_is_exact() {
    let mut pool = Amm::new(7);
    pool.faucet(dave(), 123, 4567);
    assert_eq!(pool.provide(dave(), 123, 4567), Ok(100_000_000));
    assert_eq!(pool.withdraw(dave(), 100_000_000), Ok((123, 4567)));
    assert_eq!(pool.getPoolDetails(), (0, 0, 0, 7));
    assert_eq!(pool.getMyHoldings(dave()), (123, 4567, 0));
}

#[test]
fn fee_makes_the_product_grow() {
    let mut pool = pool_with(3, 1_000_000, 1_000_000);
    pool.faucet(dave(), 10_000, 0);
    assert_eq!(pool.getK(), 1_000_000_000_000);
    assert_eq!(pool.swapToken1GivenToken1(dave(), 1000, 0), Ok(997));
    assert_eq!(pool.getPoolDetails(), (1_001_000, 999_003, 100_000_000, 3));
    assert_eq!(pool.getK(), 1_000_002_003_000);
    let mut last = pool.getK();
    for _ in 0..5 {
        assert!(pool.swapToken1GivenToken1(dave(), 1000, 0).is_ok());
        let next = pool.getK();
        assert!(next > last);
        last = next;
    }
}

#[test]
fn fee_on_a_swap_by_output_makes_the_product_grow() {
    let mut pool = pool_with(100, 1_000_000, 1_000_000);
    pool.faucet(dave(), 10_000, 0);
    let before = pool.getK();
    assert_eq!(pool.swapToken1GivenToken2(dave(), 1000, 2000), Ok(1112));
    assert_eq!(pool.getPoolDetails(), (1_001_112, 999_000, 100_000_000, 100));
    assert!(pool.getK() > before);
}

#[test]
fn rounding_can_outweigh_a_small_fee() {
    let mut pool = pool_with(1, 1000, 1000);
    pool.faucet(dave(), 10, 0);
    assert_eq!(pool.swapToken1GivenToken2(dave(), 3, 10), Ok(3));
    assert_eq!(pool.getPoolDetails(), (1003, 997, 100_000_000, 1));
    assert_eq!(pool.getK(), 999_991);
}

#[test]
fn without_a_fee_the_product_loses_only_the_remainder() {
    let mut pool = pool_with(0, 1000, 1000);
    pool.faucet(dave(), 100, 0);
    assert_eq!(pool.swapToken1GivenToken1(dave(), 100, 0), Ok(91));
    assert_eq!(pool.getK(), 999_900);
    assert_eq!(1_000_000 % 1100, 100);
}

#[test]
fn shares_add_up_to_the_total() {
    let mut pool = Amm::new(5);
    let everyone = [carol(), dave(), erin()];
    let total = |pool: &Amm| -> u128 { everyone.iter().map(|who| shares_of(pool, *who)).sum() };
    for who in everyone {
        pool.faucet(who, 1_000_000, 1_000_000);
    }
    assert_eq!(total(&pool), pool.getPoolDetails().2);
    assert_eq!(pool.provide(carol(), 1000, 2000), Ok(100_000_000));
    assert_eq!(total(&pool), pool.getPoolDetails().2);
    assert_eq!(pool.provide(dave(), 500, 1000), Ok(50_000_000));
    assert_eq!(total(&pool), 150_000_000);
    assert_eq!(total(&pool), pool.getPoolDetails().2);
    assert!(pool.swapToken1GivenToken1(erin(), 300, 0).is_ok());
    assert_eq!(total(&pool), pool.getPoolDetails().2);
    assert!(pool.withdraw(carol(), 40_000_000).is_ok());
    assert_eq!(total(&pool), 110_000_000);
    assert_eq!(total(&pool), pool.getPoolDetails().2);
    assert_eq!(pool.provide(erin(), 1, 1), Err(Error::NonEquivalentValue));
    assert_eq!(total(&pool), pool.getPoolDetails().2);
    assert!(pool.swapToken1GivenToken2(erin(), 10, 1000).is_ok());
    assert_eq!(total(&pool), pool.getPoolDetails().2);
    assert!(pool.withdraw(dave(), 50_000_000).is_ok());
    assert!(pool.withdraw(carol(), 60_000_000).is_ok());
    assert_eq!(total(&pool), 0);
    assert_eq!(pool.getPoolDetails(), (0, 0, 0, 5));
}

#[test]
fn swap_without_a_bound_returns_the_quote() {
    let mut pool = pool_with(30, 123_456, 654_321);
    pool.faucet(dave(), 50_000, 0);
    for amount in [1u128, 10, 999, 12_345] {
        let quote = pool.getSwapToken1EstimateGivenToken1(amount);
        assert!(quote.is_ok());
        assert_eq!(pool.swapToken1GivenToken1(dave(), amount, 0), quote);
    }
}

#[test]
fn swap_by_output_pays_the_quote() {
    let mut pool = pool_with(30, 123_456, 654_321);
    pool.faucet(dave(), 50_000, 0);
    let quote = pool.getSwapToken1EstimateGivenToken2(5000);
    assert_eq!(quote, Ok(979));
    assert_eq!(pool.swapToken1GivenToken2(dave(), 5000, u128::MAX), quote);
    assert_eq!(pool.getMyHoldings(dave()), (49_021, 5000, 0));
}

#[test]
fn first_deposit_is_issued_the_same_shares_whatever_it_brings() {
    for (amount1, amount2) in [(1u128, 1u128), (1, 1_000_000), (999_999, 3), (12, 34)] {
        let mut pool = Amm::new(0);
        pool.faucet(dave(), amount1, amount2);
        assert_eq!(pool.provide(dave(), amount1, amount2), Ok(100 * 1_000_000));
        assert_eq!(pool.getPoolDetails(), (amount1, amount2, 100_000_000, 0));
    }
}

#[test]
fn empty_pool_refuses_every_quote() {
    let mut pool = Amm::new(0);
    for amount in [0u128, 1, 1000, u128::MAX] {
        assert_eq!(
            pool.getSwapToken1EstimateGivenToken1(amount),
            Err(Error::ZeroLiquidity)
        );
        assert_eq!(
            pool.getSwapToken1EstimateGivenToken2(amount),
            Err(Error::ZeroLiquidity)
        );
    }
    pool.faucet(dave(), 10, 10);
    assert_eq!(pool.provide(dave(), 10, 10), Ok(100_000_000));
    assert_eq!(pool.withdraw(dave(), 100_000_000), Ok((10, 10)));
    assert_eq!(
        pool.getSwapToken1EstimateGivenToken1(1),
        Err(Error::ZeroLiquidity)
    );
    assert_eq!(
        pool.getSwapToken1EstimateGivenToken2(1),
        Err(Error::ZeroLiquidity)
    );
}

#[test]
fn a_swap_leaves_something_of_the_second_reserve() {
    let mut pool = pool_with(0, 10, 10);
    pool.faucet(dave(), 1_000_000, 0);
    assert_eq!(pool.swapToken1GivenToken1(dave(), 1_000_000, 0), Ok(9));
    assert_eq!(pool.getPoolDetails(), (1_000_010, 1, 100_000_000, 0));
    assert_eq!(pool.getSwapToken1EstimateGivenToken1(5), Ok(0));
}

#[test]
fn a_larger_input_never_buys_less() {
    let pool = pool_with(25, 5000, 7000);
    let mut last = 0;
    for amount in [0u128, 1, 2, 3, 10, 100, 1000, 5000, 1_000_000, 1_000_000_000] {
        let quote = pool.getSwapToken1EstimateGivenToken1(amount).unwrap();
        assert!(quote >= last);
        assert!(quote < 7000);
        last = quote;
    }
    assert_eq!(last, 6999);
}

#[test]
fn a_larger_output_never_costs_less() {
    let pool = pool_with(25, 5000, 7000);
    let mut last = 0;
    for amount in [0u128, 1, 2, 3, 10, 100, 1000, 5000, 6999] {
        let quote = pool.getSwapToken1EstimateGivenToken2(amount).unwrap();
        assert!(quote >= last);
        last = quote;
    }
    assert_eq!(last, 35_892_307);
}

#[test]
fn only_the_faucet_makes_assets() {
    let mut pool = Amm::new(10);
    let everyone = [carol(), dave(), erin()];
    for who in everyone {
        pool.faucet(who, 1_000_000, 2_000_000);
    }
    let supply = |pool: &Amm| -> (u128, u128) {
        let details = pool.getPoolDetails();
        let mut supply = (details.0, details.1);
        for who in everyone {
            let holdings = pool.getMyHoldings(who);
            supply.0 += holdings.0;
            supply.1 += holdings.1;
        }
        supply
    };
    assert_eq!(supply(&pool), (3_000_000, 6_000_000));
    assert!(pool.provide(carol(), 1000, 2000).is_ok());
    assert_eq!(supply(&pool), (3_000_000, 6_000_000));
    assert!(pool.provide(dave(), 333, 666).is_ok());
    assert_eq!(supply(&pool), (3_000_000, 6_000_000));
    assert!(pool.swapToken1GivenToken1(erin(), 777, 0).is_ok());
    assert_eq!(supply(&pool), (3_000_000, 6_000_000));
    assert!(pool.swapToken1GivenToken2(erin(), 55, 10_000).is_ok());
    assert_eq!(supply(&pool), (3_000_000, 6_000_000));
    assert!(pool.withdraw(dave(), 1_234_567).is_ok());
    assert_eq!(supply(&pool), (3_000_000, 6_000_000));
    assert_eq!(pool.withdraw(dave(), 0), Err(Error::ZeroAmount));
    assert_eq!(supply(&pool), (3_000_000, 6_000_000));
}

#[test]
fn a_withdrawal_empties_the_pool_only_with_the_last_share() {
    let mut pool = pool_with(0, 1000, 1000);
    assert_eq!(pool.withdraw(carol(), 99_999_999), Ok((999, 999)));
    assert_eq!(pool.getPoolDetails(), (1, 1, 1, 0));
    assert_eq!(pool.activePool(), Ok(()));
    assert_eq!(pool.withdraw(carol(), 1), Ok((1, 1)));
    assert_eq!(pool.getPoolDetails(), (0, 0, 0, 0));
    assert_eq!(pool.activePool(), Err(Error::ZeroLiquidity));
}
