//! What the host hands to a call, and what a call hands back to the host.
use vstd::prelude::*;

use crate::account::AccountId;
use crate::service::ServiceRequest;

verus! {

/// The facts that the host supplies with each call.
#[derive(Debug, Clone)]
pub struct CallContext {
    /// The account that made the call.
    pub predecessor_account_id: AccountId,
    /// The ledger's own account.
    pub current_account_id: AccountId,
    /// The payment attached to the call.
    pub attached_deposit: u128,
    /// The time of the call, in nanoseconds.
    pub block_timestamp: u64,
}

/// A transfer of value that the ledger asks the host to carry out.
#[derive(Debug, Clone)]
pub struct Payout {
    pub receiver_id: AccountId,
    pub amount: u128,
}

/// A domain event, appended to the host's log in call order.
#[derive(Debug, Clone)]
pub enum LedgerEvent {
    ServiceRequested { request: ServiceRequest, fee_paid: u128 },
    FeeUpdated { new_fee: u128 },
    Minted { account_id: AccountId, amount: u128 },
    Burned { account_id: AccountId, amount: u128 },
}

} // verus!
