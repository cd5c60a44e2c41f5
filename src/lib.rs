//! Verified accounting core of a decentralized collective: a fee-gated
//! service-request ledger and a token and membership ledger.
//!
//! Host facts (caller, attached payment, time, whether state exists) come in
//! as plain values; effects (events, payouts) go out as plain values.

mod account;
mod assoc;
mod error;
mod host;
mod service;
mod token;

pub use account::{require_caller_is, valid_account_id, AccountId};
pub use assoc::{assoc_amount, assoc_get, assoc_sum, distinct_keys};
pub use error::LedgerError;
pub use host::{CallContext, LedgerEvent, Payout};
pub use service::{
    decimal_digits, digit_char, lemma_same_url_keeps_latest, request_entries, request_error,
    request_of, request_recorded, strings_view, DecoZeroContract, ServiceLedgerModel,
    ServiceRequest, ServiceRequestModel,
};
pub use token::{
    balance_entries, balance_set, burn_error, lemma_overdraft_rejected, lemma_supply_conserved,
    member_set, option_view, FungibleTokenMetadata, IndividualDeCoContract, TokenLedgerModel,
    MAX_TOKEN_DECIMALS,
};
