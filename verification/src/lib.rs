//! A verified constant-product (x*y = k) automated market maker over a
//! multi-token ledger.
//!
//! The engine keeps token-pair pools, issues and redeems per-pool liquidity
//! shares, and executes swaps with a fixed proportional fee, part of which is
//! routed to a treasury and to a buy-and-burn sink denominated in the native
//! token (id 0).

use vstd::prelude::*;

pub mod wide;
pub mod math;
pub mod ledger;
pub mod xyk;
pub mod ops;
pub mod valuate;
pub mod laws;

pub use crate::xyk::Module;

verus! {

/// Identifier of a fungible token on the ledger.
pub type TokenId = u32;

/// A token amount. All balances and reserves are unsigned 128-bit.
pub type Balance = u128;

/// Identifier of a ledger account.
pub type AccountId = u64;

/// The native token: treasury and buy-and-burn proceeds are denominated in it.
pub const MANGATA_ID: TokenId = 0;

/// Treasury slice of a swap's input, in units of 1/10000.
pub const TREASURY_PERCENTAGE: Balance = 5;

/// Buy-and-burn slice of a swap's input, in units of 1/10000.
pub const BUYANDBURN_PERCENTAGE: Balance = 5;

/// Everything the engine can refuse to do, and why.
///
/// `BalanceTooLow` is how a failed ledger movement (a transfer or burn that
/// exceeds the available balance) surfaces; all other variants are the
/// engine's own precondition checks.
#[derive(Clone, Copy, Debug, PartialEq, Eq, Structural)]
pub enum Error {
    VaultAlreadySet,
    PoolAlreadyExists,
    NotEnoughAssets,
    NoSuchPool,
    NoSuchLiquidityAsset,
    NotEnoughReserve,
    ZeroAmount,
    InsufficientInputAmount,
    InsufficientOutputAmount,
    SameAsset,
    AssetAlreadyExists,
    AssetDoesNotExists,
    DivisionByZero,
    NotMangataLiquidityAsset,
    SecondAssetAmountExceededExpectations,
    BalanceTooLow,
}

/// Observable state transitions, recorded in order by the engine.
///
/// `LiquidityMinted` and `LiquidityBurned` repeat the second-asset amount in
/// their seventh field; downstream consumers depend on that layout, so it is
/// kept bit for bit.
#[derive(Clone, Copy, Debug, PartialEq, Eq, Structural)]
pub enum Event {
    PoolCreated(AccountId, TokenId, Balance, TokenId, Balance),
    AssetsSwapped(AccountId, TokenId, Balance, TokenId, Balance),
    LiquidityMinted(AccountId, TokenId, Balance, TokenId, Balance, TokenId, Balance),
    LiquidityBurned(AccountId, TokenId, Balance, TokenId, Balance, TokenId, Balance),
}

} // verus!
