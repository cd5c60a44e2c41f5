use deco_ledger::{AccountId, CallContext, DecoZeroContract, LedgerError, LedgerEvent};

fn acct(s: &str) -> AccountId {
    AccountId::new(s.to_string()).unwrap()
}

fn ctx(caller: &str, deposit: u128, ts: u64) -> CallContext {
    CallContext {
        predecessor_account_id: acct(caller),
        current_account_id: acct("deco-zero.near"),
        attached_deposit: deposit,
        block_timestamp: ts,
    }
}

fn ledger(min_fee: u128) -> DecoZeroContract {
    DecoZeroContract::new(false, acct("owner.near"), min_fee).unwrap()
}

#[test]
fn account_ids_are_validated() {
    assert!(AccountId::new("alice.near".to_string()).is_some());
    assert_eq!(AccountId::new("alice.near".to_string()).unwrap().as_str(), "alice.near");
    assert!(AccountId::new("".to_string()).is_none());
    assert!(AccountId::new("a".to_string()).is_none());
    assert!(AccountId::new("Alice".to_string()).is_none());
    assert!(AccountId::new("a..b".to_string()).is_none());
}

#[test]
fn service_new_refuses_existing_state() {
    let r = DecoZeroContract::new(true, acct("owner.near"), 100);
    assert!(matches!(r, Err(LedgerError::AlreadyInitialized)));
}

#[test]
fn request_then_lookup_scenario() {
    let mut c = ledger(100);
    let r = c.request_document_generation(
        &ctx("x.near", 100, 5),
        "github.com/a/b".to_string(),
        vec!["security".to_string()],
    );
    assert!(r.is_ok());
    assert_eq!(c.get_total_services_provided(), 1);
    assert_eq!(c.get_total_fees_collected(), 100);
    let req = c.get_service_request_by_repo_url("github.com/a/b".to_string()).unwrap();
    assert_eq!(req.requester_id, acct("x.near"));
    assert_eq!(req.github_repo_url, "github.com/a/b");
    assert_eq!(req.selected_areas, vec!["security".to_string()]);
    assert_eq!(req.timestamp, 5);
}

#[test]
fn request_below_fee_is_rejected() {
    let mut c = ledger(100);
    let r = c.request_document_generation(
        &ctx("x.near", 99, 5),
        "github.com/a/b".to_string(),
        vec![],
    );
    assert_eq!(r.unwrap_err(), LedgerError::InsufficientDeposit { required: 100, provided: 99 });
    assert_eq!(c.get_total_services_provided(), 0);
    assert_eq!(c.get_total_fees_collected(), 0);
    assert!(c.get_service_request_by_repo_url("github.com/a/b".to_string()).is_none());
}

#[test]
fn same_url_keeps_latest_request() {
    let mut c = ledger(10);
    c.request_document_generation(&ctx("x.near", 10, 1), "u".to_string(), vec!["a".to_string()])
        .unwrap();
    c.request_document_generation(&ctx("y.near", 25, 2), "u".to_string(), vec!["b".to_string()])
        .unwrap();
    assert_eq!(c.get_total_services_provided(), 2);
    assert_eq!(c.get_total_fees_collected(), 35);
    let req = c.get_service_request_by_repo_url("u".to_string()).unwrap();
    assert_eq!(req.requester_id, acct("y.near"));
    assert_eq!(req.selected_areas, vec!["b".to_string()]);
    assert_eq!(req.timestamp, 2);
}

#[test]
fn distinct_urls_are_kept_apart() {
    let mut c = ledger(0);
    c.request_document_generation(&ctx("x.near", 0, 1), "u1".to_string(), vec![]).unwrap();
    c.request_document_generation(&ctx("y.near", 0, 2), "u2".to_string(), vec![]).unwrap();
    assert_eq!(c.get_service_request_by_repo_url("u1".to_string()).unwrap().requester_id, acct("x.near"));
    assert_eq!(c.get_service_request_by_repo_url("u2".to_string()).unwrap().requester_id, acct("y.near"));
    assert!(c.get_service_request_by_repo_url("u3".to_string()).is_none());
}

#[test]
fn transaction_id_joins_ledger_account_and_time() {
    let mut c = ledger(1);
    let ev = c
        .request_document_generation(&ctx("x.near", 7, 1700000000123), "u".to_string(), vec![])
        .unwrap();
    match ev {
        LedgerEvent::ServiceRequested { request, fee_paid } => {
            assert_eq!(request.transaction_id, "deco-zero.near1700000000123");
            assert_eq!(fee_paid, 7);
        }
        _ => panic!("wrong event"),
    }
    let stored = c.get_service_request_by_repo_url("u".to_string()).unwrap();
    assert_eq!(stored.transaction_id, "deco-zero.near1700000000123");
}

#[test]
fn request_counter_rejects_fee_overflow() {
    let mut c = ledger(0);
    c.request_document_generation(&ctx("x.near", u128::MAX, 1), "u".to_string(), vec![]).unwrap();
    let r = c.request_document_generation(&ctx("x.near", 1, 2), "v".to_string(), vec![]);
    assert_eq!(r.unwrap_err(), LedgerError::ArithmeticOverflow);
    assert_eq!(c.get_total_services_provided(), 1);
    assert_eq!(c.get_total_fees_collected(), u128::MAX);
    assert!(c.get_service_request_by_repo_url("v".to_string()).is_none());
}

#[test]
fn set_fee_is_owner_only() {
    let mut c = ledger(100);
    let r = c.owner_set_service_fee(&ctx("mallory.near", 0, 1), 5);
    assert_eq!(r.unwrap_err(), LedgerError::NotAuthorized);
    assert_eq!(c.get_service_fee(), 100);
    match c.owner_set_service_fee(&ctx("owner.near", 0, 1), 5).unwrap() {
        LedgerEvent::FeeUpdated { new_fee } => assert_eq!(new_fee, 5),
        _ => panic!("wrong event"),
    }
    assert_eq!(c.get_service_fee(), 5);
}

#[test]
fn withdrawal_is_bounded_and_owner_only() {
    let mut c = ledger(10);
    c.request_document_generation(&ctx("x.near", 300, 1), "u".to_string(), vec![]).unwrap();
    let r = c.owner_withdraw_fees(&ctx("x.near", 0, 2), 10, acct("x.near"));
    assert_eq!(r.unwrap_err(), LedgerError::NotAuthorized);
    let r = c.owner_withdraw_fees(&ctx("owner.near", 0, 2), 301, acct("owner.near"));
    assert_eq!(r.unwrap_err(), LedgerError::InsufficientFunds);
    assert_eq!(c.get_total_fees_collected(), 300);
    let p = c.owner_withdraw_fees(&ctx("owner.near", 0, 2), 120, acct("treasury.near")).unwrap();
    assert_eq!(p.receiver_id, acct("treasury.near"));
    assert_eq!(p.amount, 120);
    assert_eq!(c.get_total_fees_collected(), 180);
    c.owner_withdraw_fees(&ctx("owner.near", 0, 3), 180, acct("owner.near")).unwrap();
    assert_eq!(c.get_total_fees_collected(), 0);
}

#[test]
fn failed_payout_is_recredited_by_the_ledger_only() {
    let mut c = ledger(10);
    c.request_document_generation(&ctx("x.near", 50, 1), "u".to_string(), vec![]).unwrap();
    let p = c.owner_withdraw_fees(&ctx("owner.near", 0, 2), 40, acct("gone.near")).unwrap();
    assert_eq!(c.get_total_fees_collected(), 10);
    let r = c.restore_withdrawn_fees(&ctx("owner.near", 0, 3), &p);
    assert_eq!(r.unwrap_err(), LedgerError::NotAuthorized);
    assert_eq!(c.get_total_fees_collected(), 10);
    c.restore_withdrawn_fees(&ctx("deco-zero.near", 0, 3), &p).unwrap();
    assert_eq!(c.get_total_fees_collected(), 50);
}
