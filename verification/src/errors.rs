use vstd::prelude::*;

verus! {

/// What every fallible wallet operation returns.
pub type WalletResult<T> = Result<T, WalletError>;

/// The reasons for which a wallet operation is refused.
#[derive(Debug, PartialEq, Eq)]
pub enum WalletError {
    /// The signer threshold may not change: fewer custodians are registered
    /// than the current threshold plus one.
    NotEnoughCustodiansForSignerIncrease,
    /// A failure that the persistence layer reported, carried as its description.
    Store(String),
    /// The byte stored for a `TokenLimit` is not one of its wire codes.
    TokenLimitNotApplicable,
    /// Every custodian slot is taken.
    CustodianStoreFull,
    /// The amount that a custodian approved is not the amount that was requested.
    RequestedAmountMismatch,
    /// The approving public key belongs to no registered custodian.
    PublicKeyIsNotACustodian,
    /// Every approver slot of the pending request is taken.
    ApproverStoreFull,
}

} // verus!
