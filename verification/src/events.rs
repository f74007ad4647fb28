use vstd::prelude::*;
use crate::account::AccountId;
use crate::decimal::Amount;

verus! {

/// What was decided from an observed transaction of the target. Amounts
/// are exact decimals.
#[derive(Debug, Clone, Copy, PartialEq, Eq)]
pub enum MirrorIntent {
    /// The target likely bought a token with native currency.
    Buy { output_mint: AccountId, max_input_sol: Amount },
    /// The target likely sold a token for native currency. The fraction of
    /// the own balance to sell is carried along and not acted upon.
    Sell { input_mint: AccountId, _fraction: Amount },
}

} // verus!
