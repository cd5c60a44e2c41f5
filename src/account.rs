use vstd::prelude::*;

use crate::error::LedgerError;

verus! {

/// Whether `near_sdk` accepts the characters as an account identifier.
pub uninterp spec fn valid_account_id(id: Seq<char>) -> bool;

/// Relies on near_sdk::env::is_valid_account_id: the verdict depends on the
/// text alone, and a valid identifier is 2 to 64 ASCII characters long.
#[verifier::external_body]
fn account_id_is_valid(id: &str) -> (r: bool)
    ensures
        r == valid_account_id(id@),
        r ==> 2 <= id@.len() <= 64,
{
    near_sdk::env::is_valid_account_id(id.as_bytes())
}

/// A validated account identifier.
#[derive(Debug, Clone)]
pub struct AccountId {
    id: String,
}

impl View for AccountId {
    type V = Seq<char>;

    closed spec fn view(&self) -> Seq<char> {
        self.id@
    }
}

impl AccountId {
    /// Accepts `id` exactly when it is a valid account identifier.
    pub fn new(id: String) -> (r: Option<AccountId>)
        ensures
            r is Some <==> valid_account_id(id@),
            r is Some ==> r->Some_0@ == id@,
            r is Some ==> r->Some_0@.len() > 0,
    {
        if account_id_is_valid(id.as_str()) {
            Some(AccountId { id })
        } else {
            None
        }
    }

    pub fn as_str(&self) -> (r: &str)
        ensures
            r@ == self@,
    {
        self.id.as_str()
    }

    /// A copy with the same identifier.
    pub fn duplicate(&self) -> (r: AccountId)
        ensures
            r@ == self@,
    {
        AccountId { id: self.id.clone() }
    }
}

impl PartialEq for AccountId {
    fn eq(&self, other: &AccountId) -> (r: bool) {
        self.id == other.id
    }
}

impl vstd::std_specs::cmp::PartialEqSpecImpl for AccountId {
    open spec fn obeys_eq_spec() -> bool {
        true
    }

    open spec fn eq_spec(&self, other: &AccountId) -> bool {
        self@ == other@
    }
}

impl Eq for AccountId {
}

/// The permission guard: the call goes on only when the caller is the
/// expected principal.
pub fn require_caller_is(caller: &AccountId, expected: &AccountId) -> (r: Result<(), LedgerError>)
    ensures
        r == (if caller@ == expected@ {
            Ok(())
        } else {
            Err(LedgerError::NotAuthorized)
        }),
{
    if caller.id == expected.id {
        Ok(())
    } else {
        Err(LedgerError::NotAuthorized)
    }
}

} // verus!
