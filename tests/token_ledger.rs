use deco_ledger::{AccountId, CallContext, IndividualDeCoContract, LedgerError, LedgerEvent};

fn acct(s: &str) -> AccountId {
    AccountId::new(s.to_string()).unwrap()
}

fn from(caller: &str) -> CallContext {
    CallContext {
        predecessor_account_id: acct(caller),
        current_account_id: acct("token.near"),
        attached_deposit: 0,
        block_timestamp: 0,
    }
}

fn ledger() -> IndividualDeCoContract {
    IndividualDeCoContract::new(
        false,
        acct("owner.near"),
        "Deco".to_string(),
        "DCO".to_string(),
        18,
        acct("deco-zero.near"),
    )
    .unwrap()
}

#[test]
fn token_new_checks_state_and_decimals() {
    let r = IndividualDeCoContract::new(
        true,
        acct("owner.near"),
        "Deco".to_string(),
        "DCO".to_string(),
        18,
        acct("deco-zero.near"),
    );
    assert!(matches!(r, Err(LedgerError::AlreadyInitialized)));
    let r = IndividualDeCoContract::new(
        false,
        acct("owner.near"),
        "Deco".to_string(),
        "DCO".to_string(),
        25,
        acct("deco-zero.near"),
    );
    assert!(matches!(r, Err(LedgerError::InvalidDecimals)));
    let c = IndividualDeCoContract::new(
        false,
        acct("owner.near"),
        "Deco".to_string(),
        "DCO".to_string(),
        24,
        acct("deco-zero.near"),
    )
    .unwrap();
    assert_eq!(c.ft_total_supply(), 0);
    assert_eq!(c.get_deco_owner(), acct("owner.near"));
}

#[test]
fn mint_and_burn_scenario() {
    let mut c = ledger();
    c.mint(acct("x.near"), 1000).unwrap();
    assert_eq!(c.ft_balance_of(acct("x.near")), 1000);
    assert_eq!(c.ft_total_supply(), 1000);
    let r = c.burn(&from("y.near"), acct("x.near"), 500);
    assert_eq!(r.unwrap_err(), LedgerError::NotAuthorized);
    assert_eq!(c.ft_balance_of(acct("x.near")), 1000);
    match c.burn(&from("x.near"), acct("x.near"), 500).unwrap() {
        LedgerEvent::Burned { account_id, amount } => {
            assert_eq!(account_id, acct("x.near"));
            assert_eq!(amount, 500);
        }
        _ => panic!("wrong event"),
    }
    assert_eq!(c.ft_balance_of(acct("x.near")), 500);
    assert_eq!(c.ft_total_supply(), 500);
}

#[test]
fn unknown_account_has_zero_balance() {
    let c = ledger();
    assert_eq!(c.ft_balance_of(acct("nobody.near")), 0);
}

#[test]
fn burn_rejects_zero_and_overdraft() {
    let mut c = ledger();
    c.mint(acct("x.near"), 10).unwrap();
    assert_eq!(c.burn(&from("x.near"), acct("x.near"), 0).unwrap_err(), LedgerError::InvalidAmount);
    assert_eq!(c.burn(&from("x.near"), acct("x.near"), 11).unwrap_err(), LedgerError::InsufficientBalance);
    assert_eq!(c.ft_balance_of(acct("x.near")), 10);
    assert_eq!(c.ft_total_supply(), 10);
    c.burn(&from("x.near"), acct("x.near"), 10).unwrap();
    assert_eq!(c.ft_balance_of(acct("x.near")), 0);
    assert_eq!(c.ft_total_supply(), 0);
}

#[test]
fn supply_tracks_sum_of_balances() {
    let mut c = ledger();
    c.mint(acct("a.near"), 7).unwrap();
    c.mint(acct("b.near"), 30).unwrap();
    c.mint(acct("a.near"), 5).unwrap();
    c.burn(&from("b.near"), acct("b.near"), 12).unwrap();
    c.mint(acct("c.near"), 1).unwrap();
    c.burn(&from("a.near"), acct("a.near"), 12).unwrap();
    let total = c.ft_balance_of(acct("a.near")) + c.ft_balance_of(acct("b.near")) + c.ft_balance_of(acct("c.near"));
    assert_eq!(c.ft_balance_of(acct("a.near")), 0);
    assert_eq!(c.ft_balance_of(acct("b.near")), 18);
    assert_eq!(c.ft_total_supply(), total);
    assert_eq!(c.ft_total_supply(), 19);
}

#[test]
fn mint_rejects_supply_overflow() {
    let mut c = ledger();
    match c.mint(acct("a.near"), u128::MAX).unwrap() {
        LedgerEvent::Minted { account_id, amount } => {
            assert_eq!(account_id, acct("a.near"));
            assert_eq!(amount, u128::MAX);
        }
        _ => panic!("wrong event"),
    }
    assert_eq!(c.mint(acct("b.near"), 1).unwrap_err(), LedgerError::ArithmeticOverflow);
    assert_eq!(c.ft_balance_of(acct("b.near")), 0);
    assert_eq!(c.ft_total_supply(), u128::MAX);
}

#[test]
fn membership_is_owner_only_and_idempotent() {
    let mut c = ledger();
    assert_eq!(c.add_active_member(&from("m.near"), acct("m.near")).unwrap_err(), LedgerError::NotAuthorized);
    assert!(!c.is_active_member(acct("m.near")));
    c.add_active_member(&from("owner.near"), acct("m.near")).unwrap();
    c.add_active_member(&from("owner.near"), acct("m.near")).unwrap();
    c.add_active_member(&from("owner.near"), acct("n.near")).unwrap();
    assert!(c.is_active_member(acct("m.near")));
    assert_eq!(c.remove_active_member(&from("n.near"), acct("m.near")).unwrap_err(), LedgerError::NotAuthorized);
    assert!(c.is_active_member(acct("m.near")));
    c.remove_active_member(&from("owner.near"), acct("m.near")).unwrap();
    assert!(!c.is_active_member(acct("m.near")));
    assert!(c.is_active_member(acct("n.near")));
    c.remove_active_member(&from("owner.near"), acct("m.near")).unwrap();
    assert!(!c.is_active_member(acct("m.near")));
}

#[test]
fn values_hash_is_owner_only() {
    let mut c = ledger();
    assert_eq!(c.get_values_csv_hash(), None);
    assert_eq!(c.set_values_csv_hash(&from("x.near"), "abc".to_string()).unwrap_err(), LedgerError::NotAuthorized);
    assert_eq!(c.get_values_csv_hash(), None);
    c.set_values_csv_hash(&from("owner.near"), "abc".to_string()).unwrap();
    assert_eq!(c.get_values_csv_hash(), Some("abc".to_string()));
    c.set_values_csv_hash(&from("owner.near"), "def".to_string()).unwrap();
    assert_eq!(c.get_values_csv_hash(), Some("def".to_string()));
}

#[test]
fn metadata_reports_token_fields() {
    let m = ledger().ft_metadata();
    assert_eq!(m.spec, "ft-1.0.0");
    assert_eq!(m.name, "Deco");
    assert_eq!(m.symbol, "DCO");
    assert_eq!(m.decimals, 18);
    assert!(m.icon.is_none() && m.reference.is_none() && m.reference_hash.is_none());
}
