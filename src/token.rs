//! The token and membership ledger: balances with a conserved supply, an
//! owner-managed member set and a replaceable rules hash.
use vstd::prelude::*;

use crate::account::{require_caller_is, AccountId};
use crate::assoc::{
    assoc_amount, assoc_sum, distinct_keys, lemma_distinct_push, lemma_get_index,
    lemma_amount_le_sum, lemma_get_none, lemma_get_push, lemma_get_update, lemma_sum_push,
    lemma_sum_update,
};
use crate::error::LedgerError;
use crate::host::{CallContext, LedgerEvent};

verus! {

/// The largest number of decimals a token may have.
pub const MAX_TOKEN_DECIMALS: u8 = 24;

/// Token metadata, as fungible-token viewers expect it.
#[derive(Debug, Clone)]
pub struct FungibleTokenMetadata {
    pub spec: String,
    pub name: String,
    pub symbol: String,
    pub icon: Option<String>,
    pub reference: Option<String>,
    pub reference_hash: Option<Vec<u8>>,
    pub decimals: u8,
}

/// The state of the token ledger: balances are an association list from
/// account to amount.
pub struct TokenLedgerModel {
    pub token_name: Seq<char>,
    pub token_symbol: Seq<char>,
    pub token_decimals: u8,
    pub total_supply: u128,
    pub balances: Seq<(Seq<char>, u128)>,
    pub deco_owner_account_id: Seq<char>,
    pub active_members: Set<Seq<char>>,
    pub deco_zero_service_contract_id: Seq<char>,
    pub current_values_csv_hash: Option<Seq<char>>,
}

/// `post` is `pre` with the balance of `k` set to `amount` and the supply set
/// to `supply`; every other balance and every other field is kept.
pub open spec fn balance_set(
    pre: TokenLedgerModel,
    post: TokenLedgerModel,
    k: Seq<char>,
    amount: u128,
    supply: u128,
) -> bool {
    &&& post == (TokenLedgerModel { balances: post.balances, total_supply: supply, ..pre })
    &&& distinct_keys(post.balances)
    &&& forall|j: Seq<char>|
        #[trigger] assoc_amount(post.balances, j) == if j == k {
            amount
        } else {
            assoc_amount(pre.balances, j)
        }
}

/// Why a burn is rejected, if it is: the caller must own the tokens, the
/// amount must be positive and covered by the balance.
pub open spec fn burn_error(s: TokenLedgerModel, caller: Seq<char>, k: Seq<char>, amount: u128) -> Option<
    LedgerError,
> {
    if caller != k {
        Some(LedgerError::NotAuthorized)
    } else if amount == 0 {
        Some(LedgerError::InvalidAmount)
    } else if assoc_amount(s.balances, k) < amount {
        Some(LedgerError::InsufficientBalance)
    } else {
        None
    }
}

/// The token and membership ledger.
pub struct IndividualDeCoContract {
    token_name: String,
    token_symbol: String,
    token_decimals: u8,
    total_supply: u128,
    balances: Vec<(AccountId, u128)>,
    deco_owner_account_id: AccountId,
    active_members: Vec<AccountId>,
    deco_zero_service_contract_id: AccountId,
    current_values_csv_hash: Option<String>,
}

pub open spec fn balance_entries(v: Seq<(AccountId, u128)>) -> Seq<(Seq<char>, u128)> {
    v.map_values(|p: (AccountId, u128)| (p.0@, p.1))
}

pub open spec fn member_set(v: Seq<AccountId>) -> Set<Seq<char>> {
    Set::new(|k: Seq<char>| exists|i: int| 0 <= i < v.len() && #[trigger] v[i]@ == k)
}

pub open spec fn option_view(o: Option<String>) -> Option<Seq<char>> {
    match o {
        Some(s) => Some(s@),
        None => None,
    }
}

impl View for IndividualDeCoContract {
    type V = TokenLedgerModel;

    closed spec fn view(&self) -> TokenLedgerModel {
        TokenLedgerModel {
            token_name: self.token_name@,
            token_symbol: self.token_symbol@,
            token_decimals: self.token_decimals,
            total_supply: self.total_supply,
            balances: balance_entries(self.balances@),
            deco_owner_account_id: self.deco_owner_account_id@,
            active_members: member_set(self.active_members@),
            deco_zero_service_contract_id: self.deco_zero_service_contract_id@,
            current_values_csv_hash: option_view(self.current_values_csv_hash),
        }
    }
}

impl IndividualDeCoContract {
    /// Each account has at most one balance entry and one membership entry,
    /// the supply is the sum of all balances, and the decimals are in range.
    pub closed spec fn wf(&self) -> bool {
        &&& distinct_keys(self@.balances)
        &&& self@.total_supply == assoc_sum(self@.balances)
        &&& self@.token_decimals <= MAX_TOKEN_DECIMALS
        &&& forall|i: int, j: int|
            0 <= i < self.active_members@.len() && 0 <= j < self.active_members@.len() && i != j
                ==> #[trigger] self.active_members@[i]@ != #[trigger] self.active_members@[j]@
    }

    /// Sets up a fresh ledger with no tokens and no members; refused where
    /// state already exists or the decimals are out of range.
    pub fn new(
        state_exists: bool,
        deco_owner_account_id: AccountId,
        token_name: String,
        token_symbol: String,
        token_decimals: u8,
        deco_zero_service_contract_id: AccountId,
    ) -> (r: Result<IndividualDeCoContract, LedgerError>)
        ensures
            state_exists ==> r == Err::<IndividualDeCoContract, LedgerError>(
                LedgerError::AlreadyInitialized,
            ),
            !state_exists && token_decimals > MAX_TOKEN_DECIMALS ==> r == Err::<
                IndividualDeCoContract,
                LedgerError,
            >(LedgerError::InvalidDecimals),
            r is Ok <==> !state_exists && token_decimals <= MAX_TOKEN_DECIMALS,
            r is Ok ==> ({
                let c = r->Ok_0;
                &&& c.wf()
                &&& c@ == (TokenLedgerModel {
                    token_name: token_name@,
                    token_symbol: token_symbol@,
                    token_decimals,
                    total_supply: 0,
                    balances: Seq::empty(),
                    deco_owner_account_id: deco_owner_account_id@,
                    active_members: Set::empty(),
                    deco_zero_service_contract_id: deco_zero_service_contract_id@,
                    current_values_csv_hash: None,
                })
            }),
    {
        if state_exists {
            return Err(LedgerError::AlreadyInitialized);
        }
        if token_decimals > MAX_TOKEN_DECIMALS {
            return Err(LedgerError::InvalidDecimals);
        }
        let c = IndividualDeCoContract {
            token_name,
            token_symbol,
            token_decimals,
            total_supply: 0,
            balances: Vec::new(),
            deco_owner_account_id,
            active_members: Vec::new(),
            deco_zero_service_contract_id,
            current_values_csv_hash: None,
        };
        assert(c@.balances =~= Seq::<(Seq<char>, u128)>::empty());
        assert(c@.active_members =~= Set::<Seq<char>>::empty());
        Ok(c)
    }

    fn find_balance(&self, account_id: &AccountId) -> (r: Option<usize>)
        ensures
            match r {
                Some(i) => i < self.balances@.len() && self.balances@[i as int].0@ == account_id@,
                None => forall|i: int|
                    0 <= i < self.balances@.len() ==> self.balances@[i].0@ != account_id@,
            },
    {
        let mut i: usize = 0;
        while i < self.balances.len()
            invariant
                i <= self.balances@.len(),
                forall|j: int| 0 <= j < i ==> self.balances@[j].0@ != account_id@,
            decreases self.balances@.len() - i,
        {
            if self.balances[i].0 == *account_id {
                return Some(i);
            }
            i = i + 1;
        }
        None
    }

    fn internal_unwrap_balance_of(&self, account_id: &AccountId) -> (r: u128)
        requires
            self.wf(),
        ensures
            r == assoc_amount(self@.balances, account_id@),
    {
        match self.find_balance(account_id) {
            Some(i) => {
                proof {
                    lemma_get_index(self@.balances, i as int);
                }
                self.balances[i].1
            },
            None => {
                proof {
                    lemma_get_none(self@.balances, account_id@);
                }
                0
            },
        }
    }

    /// Sets the balance of `account_id` to `amount` and the supply to `supply`,
    /// where the new supply accounts for the change.
    fn write_balance(&mut self, account_id: AccountId, amount: u128, supply: u128)
        requires
            old(self).wf(),
            supply + assoc_amount(old(self)@.balances, account_id@) == old(self)@.total_supply
                + amount,
        ensures
            final(self).wf(),
            balance_set(old(self)@, final(self)@, account_id@, amount, supply),
    {
        let ghost pre = self@.balances;
        let ghost e = (account_id@, amount);
        let ghost k = account_id@;
        match self.find_balance(&account_id) {
            Some(i) => {
                proof {
                    lemma_get_index(pre, i as int);
                }
                self.balances.set(i, (account_id, amount));
                self.total_supply = supply;
                assert(self@.balances =~= pre.update(i as int, e));
                proof {
                    lemma_get_update(pre, i as int, e, k);
                    lemma_sum_update(pre, i as int, e);
                }
                assert forall|j: Seq<char>| #[trigger]
                    assoc_amount(self@.balances, j) == if j == k {
                        amount
                    } else {
                        assoc_amount(pre, j)
                    } by {
                    lemma_get_update(pre, i as int, e, j);
                }
            },
            None => {
                proof {
                    lemma_get_none(pre, k);
                }
                self.balances.push((account_id, amount));
                self.total_supply = supply;
                assert(self@.balances =~= pre.push(e));
                proof {
                    lemma_distinct_push(pre, e);
                    lemma_sum_push(pre, e);
                }
                assert forall|j: Seq<char>| #[trigger]
                    assoc_amount(self@.balances, j) == if j == k {
                        amount
                    } else {
                        assoc_amount(pre, j)
                    } by {
                    lemma_get_push(pre, e, j);
                }
            },
        }
    }
}


proof fn lemma_member_push(v: Seq<AccountId>, a: AccountId)
    ensures
        member_set(v.push(a)) == member_set(v).insert(a@),
{
    let w = v.push(a);
    assert forall|x: Seq<char>|
        member_set(w).contains(x) <==> #[trigger] member_set(v).insert(a@).contains(x) by {
        if x == a@ {
            assert(w[v.len() as int] == a);
        } else if member_set(v).contains(x) {
            let i = choose|i: int| 0 <= i < v.len() && #[trigger] v[i]@ == x;
            assert(w[i] == v[i]);
        }
        if member_set(w).contains(x) {
            let i = choose|i: int| 0 <= i < w.len() && #[trigger] w[i]@ == x;
            if i < v.len() {
                assert(w[i] == v[i]);
            }
        }
    }
    assert(member_set(w) =~= member_set(v).insert(a@));
}

proof fn lemma_member_remove(v: Seq<AccountId>, i: int)
    requires
        0 <= i < v.len(),
        forall|a: int, b: int|
            0 <= a < v.len() && 0 <= b < v.len() && a != b ==> #[trigger] v[a]@ != #[trigger] v[b]@,
    ensures
        member_set(v.remove(i)) == member_set(v).remove(v[i]@),
        forall|a: int, b: int|
            0 <= a < v.remove(i).len() && 0 <= b < v.remove(i).len() && a != b
                ==> #[trigger] v.remove(i)[a]@ != #[trigger] v.remove(i)[b]@,
{
    let w = v.remove(i);
    assert forall|j: int| 0 <= j < w.len() implies #[trigger] w[j] == (if j < i {
        v[j]
    } else {
        v[j + 1]
    }) by {}
    assert forall|x: Seq<char>|
        member_set(w).contains(x) <==> #[trigger] member_set(v).remove(v[i]@).contains(x) by {
        if member_set(w).contains(x) {
            let j = choose|j: int| 0 <= j < w.len() && #[trigger] w[j]@ == x;
            if j < i {
                assert(v[j]@ == x);
            } else {
                assert(v[j + 1]@ == x);
            }
        }
        if member_set(v).contains(x) && x != v[i]@ {
            let j = choose|j: int| 0 <= j < v.len() && #[trigger] v[j]@ == x;
            if j < i {
                assert(w[j] == v[j]);
            } else {
                assert(w[j - 1] == v[j]);
            }
        }
    }
    assert(member_set(w) =~= member_set(v).remove(v[i]@));
    assert forall|a: int, b: int|
        0 <= a < w.len() && 0 <= b < w.len() && a != b implies #[trigger] w[a]@ != #[trigger] w[b]@ by {
        let a2 = if a < i { a } else { a + 1 };
        let b2 = if b < i { b } else { b + 1 };
        assert(w[a] == v[a2] && w[b] == v[b2]);
    }
}

impl IndividualDeCoContract {
    /// Credits `amount` new tokens to `account_id`; the supply grows by the
    /// same amount. Refused where the supply would overflow.
    pub fn mint(&mut self, account_id: AccountId, amount: u128) -> (r: Result<LedgerEvent, LedgerError>)
        requires
            old(self).wf(),
        ensures
            final(self).wf(),
            final(self)@.total_supply == assoc_sum(final(self)@.balances),
            r is Err <==> old(self)@.total_supply + amount > u128::MAX,
            r is Err ==> r == Err::<LedgerEvent, LedgerError>(LedgerError::ArithmeticOverflow)
                && *final(self) == *old(self),
            r is Ok ==> {
                &&& balance_set(
                    old(self)@,
                    final(self)@,
                    account_id@,
                    (assoc_amount(old(self)@.balances, account_id@) + amount) as u128,
                    (old(self)@.total_supply + amount) as u128,
                )
                &&& r->Ok_0 is Minted
                &&& r->Ok_0->Minted_account_id@ == account_id@
                &&& r->Ok_0->Minted_amount == amount
            },
    {
        let current_balance = self.internal_unwrap_balance_of(&account_id);
        let new_supply = match self.total_supply.checked_add(amount) {
            Some(s) => s,
            None => {
                return Err(LedgerError::ArithmeticOverflow);
            },
        };
        proof {
            lemma_amount_le_sum(self@.balances, account_id@);
        }
        let new_balance = current_balance + amount;
        let event = LedgerEvent::Minted { account_id: account_id.duplicate(), amount };
        self.write_balance(account_id, new_balance, new_supply);
        Ok(event)
    }

    /// Destroys `amount` of the caller's own tokens; the supply shrinks by the
    /// same amount.
    pub fn burn(&mut self, ctx: &CallContext, account_id: AccountId, amount: u128) -> (r: Result<
        LedgerEvent,
        LedgerError,
    >)
        requires
            old(self).wf(),
        ensures
            final(self).wf(),
            final(self)@.total_supply == assoc_sum(final(self)@.balances),
            r is Err <==> burn_error(old(self)@, ctx.predecessor_account_id@, account_id@, amount) is Some,
            r is Err ==> r == Err::<LedgerEvent, LedgerError>(
                burn_error(old(self)@, ctx.predecessor_account_id@, account_id@, amount)->Some_0,
            ) && *final(self) == *old(self),
            r is Ok ==> {
                &&& balance_set(
                    old(self)@,
                    final(self)@,
                    account_id@,
                    (assoc_amount(old(self)@.balances, account_id@) - amount) as u128,
                    (old(self)@.total_supply - amount) as u128,
                )
                &&& r->Ok_0 is Burned
                &&& r->Ok_0->Burned_account_id@ == account_id@
                &&& r->Ok_0->Burned_amount == amount
            },
    {
        match require_caller_is(&ctx.predecessor_account_id, &account_id) {
            Ok(()) => {},
            Err(e) => {
                return Err(e);
            },
        }
        if amount == 0 {
            return Err(LedgerError::InvalidAmount);
        }
        let current_balance = self.internal_unwrap_balance_of(&account_id);
        if current_balance < amount {
            return Err(LedgerError::InsufficientBalance);
        }
        proof {
            lemma_amount_le_sum(self@.balances, account_id@);
        }
        let new_balance = current_balance - amount;
        let new_supply = self.total_supply - amount;
        let event = LedgerEvent::Burned { account_id: account_id.duplicate(), amount };
        self.write_balance(account_id, new_balance, new_supply);
        Ok(event)
    }

    fn find_member(&self, account_id: &AccountId) -> (r: Option<usize>)
        ensures
            match r {
                Some(i) => i < self.active_members@.len() && self.active_members@[i as int]@
                    == account_id@,
                None => forall|i: int|
                    0 <= i < self.active_members@.len() ==> self.active_members@[i]@ != account_id@,
            },
    {
        let mut i: usize = 0;
        while i < self.active_members.len()
            invariant
                i <= self.active_members@.len(),
                forall|j: int| 0 <= j < i ==> self.active_members@[j]@ != account_id@,
            decreases self.active_members@.len() - i,
        {
            if self.active_members[i] == *account_id {
                return Some(i);
            }
            i = i + 1;
        }
        None
    }

    /// The owner adds a member; adding a present member changes nothing.
    pub fn add_active_member(&mut self, ctx: &CallContext, account_id: AccountId) -> (r: Result<
        (),
        LedgerError,
    >)
        requires
            old(self).wf(),
        ensures
            final(self).wf(),
            ctx.predecessor_account_id@ != old(self)@.deco_owner_account_id ==> r == Err::<
                (),
                LedgerError,
            >(LedgerError::NotAuthorized) && *final(self) == *old(self),
            ctx.predecessor_account_id@ == old(self)@.deco_owner_account_id ==> r is Ok
                && final(self)@ == (TokenLedgerModel {
                active_members: old(self)@.active_members.insert(account_id@),
                ..old(self)@
            }),
    {
        match require_caller_is(&ctx.predecessor_account_id, &self.deco_owner_account_id) {
            Ok(()) => {},
            Err(e) => {
                return Err(e);
            },
        }
        let ghost pre = self.active_members@;
        match self.find_member(&account_id) {
            Some(_) => {
                assert(member_set(pre).insert(account_id@) =~= member_set(pre));
            },
            None => {
                proof {
                    lemma_member_push(pre, account_id);
                }
                self.active_members.push(account_id);
                assert(self.active_members@ == pre.push(self.active_members@.last()));
                assert forall|a: int, b: int|
                    0 <= a < self.active_members@.len() && 0 <= b < self.active_members@.len()
                        && a != b implies #[trigger] self.active_members@[a]@
                    != #[trigger] self.active_members@[b]@ by {
                    if a < pre.len() && b < pre.len() {
                        assert(self.active_members@[a] == pre[a]);
                        assert(self.active_members@[b] == pre[b]);
                    } else if a < pre.len() {
                        assert(self.active_members@[a] == pre[a]);
                    } else {
                        assert(self.active_members@[b] == pre[b]);
                    }
                }
            },
        }
        Ok(())
    }

    /// The owner removes a member; removing an absent one changes nothing.
    pub fn remove_active_member(&mut self, ctx: &CallContext, account_id: AccountId) -> (r: Result<
        (),
        LedgerError,
    >)
        requires
            old(self).wf(),
        ensures
            final(self).wf(),
            ctx.predecessor_account_id@ != old(self)@.deco_owner_account_id ==> r == Err::<
                (),
                LedgerError,
            >(LedgerError::NotAuthorized) && *final(self) == *old(self),
            ctx.predecessor_account_id@ == old(self)@.deco_owner_account_id ==> r is Ok
                && final(self)@ == (TokenLedgerModel {
                active_members: old(self)@.active_members.remove(account_id@),
                ..old(self)@
            }),
    {
        match require_caller_is(&ctx.predecessor_account_id, &self.deco_owner_account_id) {
            Ok(()) => {},
            Err(e) => {
                return Err(e);
            },
        }
        let ghost pre = self.active_members@;
        match self.find_member(&account_id) {
            Some(i) => {
                proof {
                    lemma_member_remove(pre, i as int);
                }
                self.active_members.remove(i);
            },
            None => {
                assert(member_set(pre).remove(account_id@) =~= member_set(pre));
            },
        }
        Ok(())
    }

    /// The owner replaces the stored rules hash.
    pub fn set_values_csv_hash(&mut self, ctx: &CallContext, new_hash: String) -> (r: Result<
        (),
        LedgerError,
    >)
        requires
            old(self).wf(),
        ensures
            final(self).wf(),
            ctx.predecessor_account_id@ != old(self)@.deco_owner_account_id ==> r == Err::<
                (),
                LedgerError,
            >(LedgerError::NotAuthorized) && *final(self) == *old(self),
            ctx.predecessor_account_id@ == old(self)@.deco_owner_account_id ==> r is Ok
                && final(self)@ == (TokenLedgerModel {
                current_values_csv_hash: Some(new_hash@),
                ..old(self)@
            }),
    {
        match require_caller_is(&ctx.predecessor_account_id, &self.deco_owner_account_id) {
            Ok(()) => {},
            Err(e) => {
                return Err(e);
            },
        }
        self.current_values_csv_hash = Some(new_hash);
        Ok(())
    }

    pub fn ft_total_supply(&self) -> (r: u128)
        ensures
            r == self@.total_supply,
    {
        self.total_supply
    }

    /// The balance of the account; zero for an account never credited.
    pub fn ft_balance_of(&self, account_id: AccountId) -> (r: u128)
        requires
            self.wf(),
        ensures
            r == assoc_amount(self@.balances, account_id@),
    {
        self.internal_unwrap_balance_of(&account_id)
    }

    pub fn get_deco_owner(&self) -> (r: AccountId)
        ensures
            r@ == self@.deco_owner_account_id,
    {
        self.deco_owner_account_id.duplicate()
    }

    pub fn is_active_member(&self, account_id: AccountId) -> (r: bool)
        ensures
            r == self@.active_members.contains(account_id@),
    {
        match self.find_member(&account_id) {
            Some(_) => true,
            None => false,
        }
    }

    pub fn get_values_csv_hash(&self) -> (r: Option<String>)
        ensures
            option_view(r) == self@.current_values_csv_hash,
    {
        match &self.current_values_csv_hash {
            Some(h) => Some(h.clone()),
            None => None,
        }
    }

    /// The token's metadata under the fungible-token standard "ft-1.0.0".
    pub fn ft_metadata(&self) -> (r: FungibleTokenMetadata)
        ensures
            r.spec@ == "ft-1.0.0"@,
            r.name@ == self@.token_name,
            r.symbol@ == self@.token_symbol,
            r.icon is None,
            r.reference is None,
            r.reference_hash is None,
            r.decimals == self@.token_decimals,
    {
        FungibleTokenMetadata {
            spec: String::from_str("ft-1.0.0"),
            name: self.token_name.clone(),
            symbol: self.token_symbol.clone(),
            icon: None,
            reference: None,
            reference_hash: None,
            decimals: self.token_decimals,
        }
    }
}


/// In every well-formed token ledger, and so after any sequence of mints and
/// burns, the total supply is the sum of all balances.
pub proof fn lemma_supply_conserved(ledger: &IndividualDeCoContract)
    requires
        ledger.wf(),
    ensures
        ledger@.total_supply == assoc_sum(ledger@.balances),
{
}

/// A burn of more than the account holds is always rejected, so no balance
/// can drop below zero.
pub proof fn lemma_overdraft_rejected(
    s: TokenLedgerModel,
    caller: Seq<char>,
    account_id: Seq<char>,
    amount: u128,
)
    requires
        amount > assoc_amount(s.balances, account_id),
    ensures
        burn_error(s, caller, account_id, amount) is Some,
{
}

} // verus!
