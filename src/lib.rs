//! Volatility scoring, dynamic fees and range placement for concentrated
//! liquidity positions, computed over histories of 256-bit prices.
pub mod error;
pub mod position;
pub mod statistics;
pub mod tick;
pub mod volatility;
pub mod word;

use vstd::prelude::*;

verus! {

/// A 20-byte account address. The analytics accept token addresses for the
/// caller's bookkeeping and never read them.
#[verifier::external_type_specification]
#[verifier::external_body]
pub struct ExAddress(stylus_sdk::alloy_primitives::Address);

} // verus!
