use vstd::prelude::*;

verus! {

/// Every way an operation of the sale can fail.
#[derive(Clone, Copy, PartialEq, Eq, Structural, Debug)]
pub enum Errors {
    OnlyOwner,
    NotInitialized,
    AlreadyInitialized,
    ZeroValueArgumentInjected,
    InvalidPercentage,
    VestingLengthTooShort,
    VestingLengthTooLong,
    OnlyOnePurchase,
    SoldOut,
    VestingNotEnabled,
    NoTokensVested,
    NoTokensPurchased,
    AlreadyTokenized,
    AllTokensClaimed,
    TokensAreVested,
    TransferFailed,
}

} // verus!
