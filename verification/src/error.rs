use vstd::prelude::*;

verus! {

/// The ways in which a pool operation can be turned down. An operation that
/// returns one of these has left the pool exactly as it found it.
#[derive(Debug, Clone, Copy, PartialEq, Eq, Structural)]
pub enum Error {
    /// A quote, swap or withdrawal was asked of a pool without reserves.
    ZeroLiquidity,
    /// The quantity handed in was zero.
    ZeroAmount,
    /// The caller holds less than the quantity asked for.
    InsufficientAmount,
    /// The two deposited quantities do not sit at the pool's current ratio.
    NonEquivalentValue,
    /// The deposit is too small to be worth a single share.
    ThresholdNotReached,
    /// More shares were named than the pool has issued.
    InvalidShare,
    /// The output asked for is all of the reserve, or more.
    InsufficientLiquidity,
    /// The quoted price lies outside the bound the caller set.
    SlippageExceeded,
}

} // verus!
