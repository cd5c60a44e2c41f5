use vstd::prelude::*;

verus! {

/// The ways a ledger call can be rejected. A rejected call changes nothing.
#[derive(Debug, Clone, Copy, PartialEq, Eq, Structural)]
pub enum LedgerError {
    /// Construction was attempted over state that already exists.
    AlreadyInitialized,
    /// The caller is not the principal that the operation demands.
    NotAuthorized,
    /// The attached payment is below the current minimum fee.
    InsufficientDeposit { required: u128, provided: u128 },
    /// A withdrawal exceeds the fees collected so far.
    InsufficientFunds,
    /// A burn exceeds the account's balance.
    InsufficientBalance,
    /// A zero amount where a positive one is needed.
    InvalidAmount,
    /// Token decimals above the largest that is supported.
    InvalidDecimals,
    /// A counter or a balance would leave its integer range.
    ArithmeticOverflow,
}

} // verus!
