//! The service-request ledger: fee-gated requests keyed by repository URL,
//! running totals, and owner-only fee management.
use vstd::prelude::*;

use crate::account::{require_caller_is, AccountId};
use crate::assoc::{
    assoc_get, distinct_keys, lemma_distinct_push, lemma_get_index, lemma_get_none,
    lemma_get_push, lemma_get_update,
};
use crate::error::LedgerError;
use crate::host::{CallContext, LedgerEvent, Payout};

verus! {

pub open spec fn digit_char(d: nat) -> char {
    if d == 0 {
        '0'
    } else if d == 1 {
        '1'
    } else if d == 2 {
        '2'
    } else if d == 3 {
        '3'
    } else if d == 4 {
        '4'
    } else if d == 5 {
        '5'
    } else if d == 6 {
        '6'
    } else if d == 7 {
        '7'
    } else if d == 8 {
        '8'
    } else {
        '9'
    }
}

/// The decimal digits of `n`, most significant first, without leading zeros.
pub open spec fn decimal_digits(n: nat) -> Seq<char>
    decreases n,
{
    if n < 10 {
        seq![digit_char(n)]
    } else {
        decimal_digits(n / 10) + seq![digit_char(n % 10)]
    }
}

/// Relies on std's `Display` for `u64` (through `to_string`): plain decimal
/// notation, no sign, no leading zeros.
#[verifier::external_body]
fn decimal_string(n: u64) -> (r: String)
    ensures
        r@ == decimal_digits(n as nat),
{
    n.to_string()
}

pub open spec fn strings_view(v: Seq<String>) -> Seq<Seq<char>> {
    v.map_values(|s: String| s@)
}

/// A recorded request for document generation.
#[derive(Debug, Clone)]
pub struct ServiceRequest {
    pub requester_id: AccountId,
    pub github_repo_url: String,
    pub selected_areas: Vec<String>,
    pub timestamp: u64,
    pub transaction_id: String,
}

pub struct ServiceRequestModel {
    pub requester_id: Seq<char>,
    pub github_repo_url: Seq<char>,
    pub selected_areas: Seq<Seq<char>>,
    pub timestamp: u64,
    pub transaction_id: Seq<char>,
}

impl View for ServiceRequest {
    type V = ServiceRequestModel;

    open spec fn view(&self) -> ServiceRequestModel {
        ServiceRequestModel {
            requester_id: self.requester_id@,
            github_repo_url: self.github_repo_url@,
            selected_areas: strings_view(self.selected_areas@),
            timestamp: self.timestamp,
            transaction_id: self.transaction_id@,
        }
    }
}

fn copy_strings(v: &Vec<String>) -> (r: Vec<String>)
    ensures
        r@ == v@,
{
    let mut r: Vec<String> = Vec::new();
    let mut i: usize = 0;
    while i < v.len()
        invariant
            i <= v@.len(),
            r@ == v@.subrange(0, i as int),
        decreases v@.len() - i,
    {
        r.push(v[i].clone());
        i = i + 1;
        assert(r@ =~= v@.subrange(0, i as int));
    }
    assert(v@.subrange(0, v@.len() as int) =~= v@);
    r
}

impl ServiceRequest {
    /// A copy that holds the same values.
    pub fn duplicate(&self) -> (r: ServiceRequest)
        ensures
            r@ == self@,
    {
        ServiceRequest {
            requester_id: self.requester_id.duplicate(),
            github_repo_url: self.github_repo_url.clone(),
            selected_areas: copy_strings(&self.selected_areas),
            timestamp: self.timestamp,
            transaction_id: self.transaction_id.clone(),
        }
    }
}

/// The request that a call records: caller, key, areas, time, and a
/// transaction id made of the ledger's own account and the time.
pub open spec fn request_of(ctx: CallContext, url: Seq<char>, areas: Seq<Seq<char>>) -> ServiceRequestModel {
    ServiceRequestModel {
        requester_id: ctx.predecessor_account_id@,
        github_repo_url: url,
        selected_areas: areas,
        timestamp: ctx.block_timestamp,
        transaction_id: ctx.current_account_id@ + decimal_digits(ctx.block_timestamp as nat),
    }
}

/// The state of the service ledger: its requests are an association list
/// from repository URL to the latest request for it.
pub struct ServiceLedgerModel {
    pub owner: Seq<char>,
    pub service_fee_min_near: u128,
    pub requests: Seq<(Seq<char>, ServiceRequestModel)>,
    pub total_services_provided: u64,
    pub total_fees_collected: u128,
}

/// Why a request with this payment is rejected, if it is.
pub open spec fn request_error(s: ServiceLedgerModel, deposit: u128) -> Option<LedgerError> {
    if deposit < s.service_fee_min_near {
        Some(
            LedgerError::InsufficientDeposit {
                required: s.service_fee_min_near,
                provided: deposit,
            },
        )
    } else if s.total_services_provided == u64::MAX || s.total_fees_collected + deposit
        > u128::MAX {
        Some(LedgerError::ArithmeticOverflow)
    } else {
        None
    }
}

/// `post` is `pre` after `r` was recorded with payment `fee`: the request
/// replaces any earlier one for its URL, the count goes up by one and the
/// fees by the payment.
pub open spec fn request_recorded(
    pre: ServiceLedgerModel,
    post: ServiceLedgerModel,
    r: ServiceRequestModel,
    fee: u128,
) -> bool {
    &&& post.owner == pre.owner
    &&& post.service_fee_min_near == pre.service_fee_min_near
    &&& post.total_services_provided == pre.total_services_provided + 1
    &&& post.total_fees_collected == pre.total_fees_collected + fee
    &&& distinct_keys(post.requests)
    &&& forall|k: Seq<char>|
        #[trigger] assoc_get(post.requests, k) == if k == r.github_repo_url {
            Some(r)
        } else {
            assoc_get(pre.requests, k)
        }
}

/// The service-request ledger.
pub struct DecoZeroContract {
    owner: AccountId,
    service_fee_min_near: u128,
    service_requests: Vec<ServiceRequest>,
    total_services_provided: u64,
    total_fees_collected: u128,
}

pub open spec fn request_entries(v: Seq<ServiceRequest>) -> Seq<(Seq<char>, ServiceRequestModel)> {
    v.map_values(|r: ServiceRequest| (r.github_repo_url@, r@))
}

impl View for DecoZeroContract {
    type V = ServiceLedgerModel;

    closed spec fn view(&self) -> ServiceLedgerModel {
        ServiceLedgerModel {
            owner: self.owner@,
            service_fee_min_near: self.service_fee_min_near,
            requests: request_entries(self.service_requests@),
            total_services_provided: self.total_services_provided,
            total_fees_collected: self.total_fees_collected,
        }
    }
}

impl DecoZeroContract {
    /// Each repository URL has at most one stored request.
    pub open spec fn wf(&self) -> bool {
        distinct_keys(self@.requests)
    }

    /// Sets up a fresh ledger; refused where state already exists.
    pub fn new(state_exists: bool, owner_id: AccountId, initial_service_fee_min_near: u128) -> (r:
        Result<DecoZeroContract, LedgerError>)
        ensures
            state_exists ==> r == Err::<DecoZeroContract, LedgerError>(
                LedgerError::AlreadyInitialized,
            ),
            !state_exists ==> r is Ok,
            r is Ok ==> ({
                let c = r->Ok_0;
                &&& c.wf()
                &&& c@.owner == owner_id@
                &&& c@.service_fee_min_near == initial_service_fee_min_near
                &&& c@.requests.len() == 0
                &&& c@.total_services_provided == 0
                &&& c@.total_fees_collected == 0
            }),
    {
        if state_exists {
            return Err(LedgerError::AlreadyInitialized);
        }
        let c = DecoZeroContract {
            owner: owner_id,
            service_fee_min_near: initial_service_fee_min_near,
            service_requests: Vec::new(),
            total_services_provided: 0,
            total_fees_collected: 0,
        };
        assert(c@.requests =~= Seq::<(Seq<char>, ServiceRequestModel)>::empty());
        Ok(c)
    }

    fn find_request(&self, url: &String) -> (r: Option<usize>)
        ensures
            match r {
                Some(i) => i < self.service_requests@.len()
                    && self.service_requests@[i as int].github_repo_url@ == url@,
                None => forall|i: int|
                    0 <= i < self.service_requests@.len()
                        ==> self.service_requests@[i].github_repo_url@ != url@,
            },
    {
        let mut i: usize = 0;
        while i < self.service_requests.len()
            invariant
                i <= self.service_requests@.len(),
                forall|j: int| 0 <= j < i ==> self.service_requests@[j].github_repo_url@ != url@,
            decreases self.service_requests@.len() - i,
        {
            if self.service_requests[i].github_repo_url == *url {
                return Some(i);
            }
            i = i + 1;
        }
        None
    }

    fn store_request(&mut self, req: ServiceRequest)
        requires
            old(self).wf(),
        ensures
            final(self).wf(),
            final(self).owner == old(self).owner,
            final(self).service_fee_min_near == old(self).service_fee_min_near,
            final(self).total_services_provided == old(self).total_services_provided,
            final(self).total_fees_collected == old(self).total_fees_collected,
            forall|k: Seq<char>|
                #[trigger] assoc_get(final(self)@.requests, k) == if k == req.github_repo_url@ {
                    Some(req@)
                } else {
                    assoc_get(old(self)@.requests, k)
                },
    {
        let ghost pre = self@.requests;
        let ghost e = (req.github_repo_url@, req@);
        match self.find_request(&req.github_repo_url) {
            Some(i) => {
                self.service_requests.set(i, req);
                assert(self@.requests =~= pre.update(i as int, e));
                assert forall|k: Seq<char>| #[trigger]
                    assoc_get(self@.requests, k) == if k == e.0 {
                        Some(e.1)
                    } else {
                        assoc_get(pre, k)
                    } by {
                    lemma_get_update(pre, i as int, e, k);
                }
                proof {
                    lemma_get_update(pre, i as int, e, e.0);
                }
            },
            None => {
                self.service_requests.push(req);
                assert(self@.requests =~= pre.push(e));
                proof {
                    lemma_distinct_push(pre, e);
                }
                assert forall|k: Seq<char>| #[trigger]
                    assoc_get(self@.requests, k) == if k == e.0 {
                        Some(e.1)
                    } else {
                        assoc_get(pre, k)
                    } by {
                    lemma_get_push(pre, e, k);
                }
            },
        }
    }
}


impl DecoZeroContract {
    /// Accepts a paid request for document generation. The request is stored
    /// under its repository URL, replacing any earlier one, and the payment is
    /// kept by the ledger.
    pub fn request_document_generation(
        &mut self,
        ctx: &CallContext,
        github_repo_url: String,
        selected_areas: Vec<String>,
    ) -> (r: Result<LedgerEvent, LedgerError>)
        requires
            old(self).wf(),
        ensures
            final(self).wf(),
            r is Err <==> request_error(old(self)@, ctx.attached_deposit) is Some,
            r is Err ==> r == Err::<LedgerEvent, LedgerError>(
                request_error(old(self)@, ctx.attached_deposit)->Some_0,
            ) && final(self)@ == old(self)@,
            r is Ok ==> {
                let req = request_of(*ctx, github_repo_url@, strings_view(selected_areas@));
                &&& request_recorded(old(self)@, final(self)@, req, ctx.attached_deposit)
                &&& r->Ok_0 is ServiceRequested
                &&& r->Ok_0->request@ == req
                &&& r->Ok_0->fee_paid == ctx.attached_deposit
            },
    {
        let deposit = ctx.attached_deposit;
        if deposit < self.service_fee_min_near {
            return Err(
                LedgerError::InsufficientDeposit {
                    required: self.service_fee_min_near,
                    provided: deposit,
                },
            );
        }
        if self.total_services_provided == u64::MAX {
            return Err(LedgerError::ArithmeticOverflow);
        }
        let fees = match self.total_fees_collected.checked_add(deposit) {
            Some(f) => f,
            None => {
                return Err(LedgerError::ArithmeticOverflow);
            },
        };
        let timestamp = ctx.block_timestamp;
        let mut transaction_id = String::from_str(ctx.current_account_id.as_str());
        let digits = decimal_string(timestamp);
        transaction_id.append(digits.as_str());
        let request = ServiceRequest {
            requester_id: ctx.predecessor_account_id.duplicate(),
            github_repo_url,
            selected_areas,
            timestamp,
            transaction_id,
        };
        self.store_request(request.duplicate());
        self.total_services_provided = self.total_services_provided + 1;
        self.total_fees_collected = fees;
        Ok(LedgerEvent::ServiceRequested { request, fee_paid: deposit })
    }

    /// The owner takes `amount` out of the collected fees and has it paid to
    /// `to_account`.
    pub fn owner_withdraw_fees(&mut self, ctx: &CallContext, amount: u128, to_account: AccountId) -> (r:
        Result<Payout, LedgerError>)
        ensures
            ctx.predecessor_account_id@ != old(self)@.owner ==> r == Err::<Payout, LedgerError>(
                LedgerError::NotAuthorized,
            ),
            ctx.predecessor_account_id@ == old(self)@.owner && amount
                > old(self)@.total_fees_collected ==> r == Err::<Payout, LedgerError>(
                LedgerError::InsufficientFunds,
            ),
            r is Err ==> *final(self) == *old(self),
            r is Ok <==> ctx.predecessor_account_id@ == old(self)@.owner && amount
                <= old(self)@.total_fees_collected,
            r is Ok ==> {
                &&& final(self)@ == (ServiceLedgerModel {
                    total_fees_collected: (old(self)@.total_fees_collected - amount) as u128,
                    ..old(self)@
                })
                &&& r->Ok_0.receiver_id@ == to_account@
                &&& r->Ok_0.amount == amount
            },
    {
        match require_caller_is(&ctx.predecessor_account_id, &self.owner) {
            Ok(()) => {},
            Err(e) => {
                return Err(e);
            },
        }
        if amount > self.total_fees_collected {
            return Err(LedgerError::InsufficientFunds);
        }
        self.total_fees_collected = self.total_fees_collected - amount;
        Ok(Payout { receiver_id: to_account, amount })
    }

    /// Undoes a withdrawal whose payout the host could not carry out: the
    /// amount returns to the collected fees. Only the ledger's own account,
    /// answering for the failed transfer, may call it.
    pub fn restore_withdrawn_fees(&mut self, ctx: &CallContext, payout: &Payout) -> (r: Result<
        (),
        LedgerError,
    >)
        ensures
            ctx.predecessor_account_id@ != ctx.current_account_id@ ==> r == Err::<(), LedgerError>(
                LedgerError::NotAuthorized,
            ),
            ctx.predecessor_account_id@ == ctx.current_account_id@ && old(self)@.total_fees_collected
                + payout.amount > u128::MAX ==> r == Err::<(), LedgerError>(
                LedgerError::ArithmeticOverflow,
            ),
            r is Err ==> *final(self) == *old(self),
            r is Ok ==> final(self)@ == (ServiceLedgerModel {
                total_fees_collected: (old(self)@.total_fees_collected + payout.amount) as u128,
                ..old(self)@
            }),
            r is Ok <==> ctx.predecessor_account_id@ == ctx.current_account_id@
                && old(self)@.total_fees_collected + payout.amount <= u128::MAX,
    {
        match require_caller_is(&ctx.predecessor_account_id, &ctx.current_account_id) {
            Ok(()) => {},
            Err(e) => {
                return Err(e);
            },
        }
        match self.total_fees_collected.checked_add(payout.amount) {
            Some(total) => {
                self.total_fees_collected = total;
                Ok(())
            },
            None => Err(LedgerError::ArithmeticOverflow),
        }
    }

    /// The owner replaces the minimum fee.
    pub fn owner_set_service_fee(&mut self, ctx: &CallContext, new_fee: u128) -> (r: Result<
        LedgerEvent,
        LedgerError,
    >)
        ensures
            ctx.predecessor_account_id@ != old(self)@.owner ==> r == Err::<LedgerEvent, LedgerError>(
                LedgerError::NotAuthorized,
            ) && *final(self) == *old(self),
            ctx.predecessor_account_id@ == old(self)@.owner ==> {
                &&& r is Ok
                &&& r->Ok_0 is FeeUpdated
                &&& r->Ok_0->new_fee == new_fee
                &&& final(self)@ == (ServiceLedgerModel {
                    service_fee_min_near: new_fee,
                    ..old(self)@
                })
            },
    {
        match require_caller_is(&ctx.predecessor_account_id, &self.owner) {
            Ok(()) => {},
            Err(e) => {
                return Err(e);
            },
        }
        self.service_fee_min_near = new_fee;
        Ok(LedgerEvent::FeeUpdated { new_fee })
    }

    pub fn get_service_fee(&self) -> (r: u128)
        ensures
            r == self@.service_fee_min_near,
    {
        self.service_fee_min_near
    }

    pub fn get_total_services_provided(&self) -> (r: u64)
        ensures
            r == self@.total_services_provided,
    {
        self.total_services_provided
    }

    pub fn get_total_fees_collected(&self) -> (r: u128)
        ensures
            r == self@.total_fees_collected,
    {
        self.total_fees_collected
    }

    /// The latest request stored for the URL, if any.
    pub fn get_service_request_by_repo_url(&self, github_repo_url: String) -> (r: Option<
        ServiceRequest,
    >)
        requires
            self.wf(),
        ensures
            match r {
                Some(req) => assoc_get(self@.requests, github_repo_url@) == Some(req@),
                None => assoc_get(self@.requests, github_repo_url@) is None,
            },
    {
        match self.find_request(&github_repo_url) {
            Some(i) => {
                proof {
                    assert(self@.requests[i as int].0 == github_repo_url@);
                    lemma_get_index(self@.requests, i as int);
                }
                Some(self.service_requests[i].duplicate())
            },
            None => {
                proof {
                    lemma_get_none(self@.requests, github_repo_url@);
                }
                None
            },
        }
    }
}


/// Two accepted requests for the same repository URL leave exactly one stored
/// request for that URL, the later one, while the count of services provided
/// goes up once for each call; requests for other URLs are untouched.
pub proof fn lemma_same_url_keeps_latest(
    s0: ServiceLedgerModel,
    s1: ServiceLedgerModel,
    s2: ServiceLedgerModel,
    first: ServiceRequestModel,
    second: ServiceRequestModel,
    fee1: u128,
    fee2: u128,
)
    requires
        request_recorded(s0, s1, first, fee1),
        request_recorded(s1, s2, second, fee2),
        first.github_repo_url == second.github_repo_url,
    ensures
        assoc_get(s2.requests, second.github_repo_url) == Some(second),
        distinct_keys(s2.requests),
        exists|i: int|
            0 <= i < s2.requests.len() && #[trigger] s2.requests[i].0 == second.github_repo_url,
        forall|k: Seq<char>|
            k != second.github_repo_url ==> #[trigger] assoc_get(s2.requests, k) == assoc_get(
                s0.requests,
                k,
            ),
        s2.total_services_provided == s0.total_services_provided + 2,
        s2.total_fees_collected == s0.total_fees_collected + fee1 + fee2,
{
    let url = second.github_repo_url;
    assert(assoc_get(s2.requests, url) == Some(second));
    lemma_get_none(s2.requests, url);
    assert forall|k: Seq<char>| k != url implies #[trigger] assoc_get(s2.requests, k) == assoc_get(
        s0.requests,
        k,
    ) by {
        assert(assoc_get(s2.requests, k) == assoc_get(s1.requests, k));
        assert(assoc_get(s1.requests, k) == assoc_get(s0.requests, k));
    }
}

} // verus!
