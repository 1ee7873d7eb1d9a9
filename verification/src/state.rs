//! The marketplace ledger state: blueprint registry, operator directory,
//! pending requests, active services, the deferred-slash queue, balances and
//! the stake facts mirrored from the delegation provider.
use vstd::prelude::*;
use crate::events::Event;
use crate::types::{
    Account, Balance, Blueprint, Field, Preferences, contains_acct, distinct_accts,
    account_eq, MAX_OPERATORS_PER_SERVICE, SLASH_DEFER_DURATION,
};

verus! {

/// A stored blueprint together with the provider account that published it.
pub struct BlueprintRecord {
    pub owner: Account,
    pub blueprint: Blueprint,
}

/// One operator's registration against one blueprint.
pub struct Registration {
    pub blueprint_id: u64,
    pub operator: Account,
    pub preferences: Preferences,
    pub args: Vec<Field>,
    pub bond: Balance,
}

/// One operator's recorded consent to a request, with the stake exposure it
/// restakes into the prospective service.
pub struct Approval {
    pub operator: Account,
    pub restaking_percent: u8,
    pub exposure: Balance,
}

/// A pending service request, waiting for unanimous operator approval.
pub struct ServiceRequest {
    pub id: u64,
    pub blueprint_id: u64,
    pub requester: Account,
    pub permitted_callers: Vec<Account>,
    pub operators: Vec<Account>,
    pub assets: Vec<u32>,
    pub ttl: u64,
    pub expires_at: u64,
    pub value: Balance,
    pub approvals: Vec<Approval>,
}

/// One operator's submitted result for a job call.
pub struct JobResult {
    pub operator: Account,
    pub outputs: Vec<Field>,
}

/// An open job call within an active service.
pub struct JobCallRecord {
    pub call_id: u64,
    pub job_index: u8,
    pub args: Vec<Field>,
    pub results: Vec<JobResult>,
}

/// An active service instance.
pub struct Service {
    pub id: u64,
    pub blueprint_id: u64,
    pub owner: Account,
    pub permitted_callers: Vec<Account>,
    pub operators: Vec<Approval>,
    pub assets: Vec<u32>,
    pub value: Balance,
    pub next_call_id: u64,
    pub calls: Vec<JobCallRecord>,
}

/// A scheduled stake penalty, pending and disputable at `(era, index)` until
/// the dispute window elapses.
pub struct UnappliedSlash {
    pub era: u32,
    pub index: u32,
    pub offender: Account,
    pub service_id: u64,
    pub blueprint_id: u64,
    pub percent: u8,
    pub exposure: Balance,
}

/// A stake fact mirrored from the external delegation provider.
pub struct OperatorStake {
    pub operator: Account,
    pub stake: Balance,
    pub active: bool,
}

/// One account's free balance on the ledger.
pub struct AccountBalance {
    pub account: Account,
    pub amount: Balance,
}

/// The whole marketplace state. Every command is an atomic transition on it.
pub struct State {
    pub blueprints: Vec<BlueprintRecord>,
    pub registrations: Vec<Registration>,
    pub requests: Vec<ServiceRequest>,
    pub services: Vec<Service>,
    pub slashes: Vec<UnappliedSlash>,
    pub balances: Vec<AccountBalance>,
    pub stakes: Vec<OperatorStake>,
    pub next_request_id: u64,
    pub next_service_id: u64,
    pub current_block: u64,
    pub current_era: u32,
    pub next_slash_index: u32,
    pub strict_id_narrowing: bool,
    pub events: Vec<Event>,
}

/// Approval lists never name an operator twice.
pub open spec fn distinct_approvals(s: Seq<Approval>) -> bool {
    forall|i: int, j: int| 0 <= i < j < s.len() ==> s[i].operator@ != s[j].operator@
}

/// Every approval comes from one of the request's named operators.
pub open spec fn approvals_subset(approvals: Seq<Approval>, operators: Seq<Account>) -> bool {
    forall|i: int|
        0 <= i < approvals.len() ==> contains_acct(operators, (#[trigger] approvals[i]).operator@)
}

/// Whether the operator identity `w` occurs in an approval list.
pub open spec fn approvals_contain(s: Seq<Approval>, w: Seq<u8>) -> bool {
    exists|i: int| 0 <= i < s.len() && s[i].operator@ == w
}

/// Well-formedness of one pending request.
pub open spec fn request_wf(r: ServiceRequest, n_blueprints: int, next_request_id: u64) -> bool {
    &&& r.id < next_request_id
    &&& (r.blueprint_id as int) < n_blueprints
    &&& r.operators@.len() > 0
    &&& r.operators@.len() <= MAX_OPERATORS_PER_SERVICE as int
    &&& distinct_accts(r.operators@)
    &&& distinct_approvals(r.approvals@)
    &&& approvals_subset(r.approvals@, r.operators@)
    &&& r.approvals@.len() <= r.operators@.len()
    &&& forall|i: int|
        0 <= i < r.approvals@.len() ==> (#[trigger] r.approvals@[i]).restaking_percent <= 100
}

/// Result lists are maps keyed by operator: no operator appears twice.
pub open spec fn distinct_result_ops(s: Seq<JobResult>) -> bool {
    forall|i: int, j: int| 0 <= i < j < s.len() ==> s[i].operator@ != s[j].operator@
}

/// Well-formedness of one active service.
pub open spec fn service_wf(s: Service, n_blueprints: int, next_service_id: u64) -> bool {
    &&& s.id < next_service_id
    &&& (s.blueprint_id as int) < n_blueprints
    &&& s.operators@.len() > 0
    &&& distinct_approvals(s.operators@)
    &&& forall|i: int, j: int|
        0 <= i < j < s.calls@.len() ==> s.calls@[i].call_id != s.calls@[j].call_id
    &&& forall|i: int| 0 <= i < s.calls@.len() ==> (#[trigger] s.calls@[i]).call_id < s.next_call_id
    &&& forall|i: int|
        0 <= i < s.calls@.len() ==> distinct_result_ops((#[trigger] s.calls@[i]).results@)
}

/// Well-formedness of one pending slash entry: it sits at a stable address
/// below the era's counter, inside its dispute window.
pub open spec fn slash_wf(
    s: UnappliedSlash,
    n_blueprints: int,
    current_era: u32,
    next_slash_index: u32,
) -> bool {
    &&& (s.blueprint_id as int) < n_blueprints
    &&& s.percent <= 100
    &&& s.era < current_era || (s.era == current_era && s.index < next_slash_index)
    &&& current_era as int <= s.era as int + SLASH_DEFER_DURATION as int
}

impl State {
    /// Every registration points at a stored blueprint, and no pair
    /// `(blueprint, operator)` is registered twice.
    pub open spec fn wf_registrations(&self) -> bool {
        &&& forall|i: int|
            0 <= i < self.registrations@.len() ==> (#[trigger] self.registrations@[i]).blueprint_id
                < self.blueprints@.len()
        &&& forall|i: int, j: int|
            0 <= i < j < self.registrations@.len() ==> !(self.registrations@[i].blueprint_id
                == self.registrations@[j].blueprint_id && self.registrations@[i].operator@
                == self.registrations@[j].operator@)
    }

    /// Every pending request is well formed and ids never collide.
    pub open spec fn wf_requests(&self) -> bool {
        &&& forall|i: int|
            0 <= i < self.requests@.len() ==> request_wf(
                #[trigger] self.requests@[i],
                self.blueprints@.len() as int,
                self.next_request_id,
            )
        &&& forall|i: int, j: int|
            0 <= i < j < self.requests@.len() ==> self.requests@[i].id != self.requests@[j].id
    }

    /// Every active service is well formed and ids never collide.
    pub open spec fn wf_services(&self) -> bool {
        &&& forall|i: int|
            0 <= i < self.services@.len() ==> service_wf(
                #[trigger] self.services@[i],
                self.blueprints@.len() as int,
                self.next_service_id,
            )
        &&& forall|i: int, j: int|
            0 <= i < j < self.services@.len() ==> self.services@[i].id != self.services@[j].id
    }

    /// Every pending slash is well formed and addresses never collide.
    pub open spec fn wf_slashes(&self) -> bool {
        &&& forall|i: int|
            0 <= i < self.slashes@.len() ==> slash_wf(
                #[trigger] self.slashes@[i],
                self.blueprints@.len() as int,
                self.current_era,
                self.next_slash_index,
            )
        &&& forall|i: int, j: int|
            0 <= i < j < self.slashes@.len() ==> !(self.slashes@[i].era == self.slashes@[j].era
                && self.slashes@[i].index == self.slashes@[j].index)
    }

    /// Balance and stake tables key each account at most once.
    pub open spec fn wf_accounts(&self) -> bool {
        &&& forall|i: int, j: int|
            0 <= i < j < self.balances@.len() ==> self.balances@[i].account@
                != self.balances@[j].account@
        &&& forall|i: int, j: int|
            0 <= i < j < self.stakes@.len() ==> self.stakes@[i].operator@
                != self.stakes@[j].operator@
    }

    /// The state invariant: every constructor establishes it and every
    /// command preserves it.
    pub open spec fn wf(&self) -> bool {
        &&& self.wf_registrations()
        &&& self.wf_requests()
        &&& self.wf_services()
        &&& self.wf_slashes()
        &&& self.wf_accounts()
    }

    /// Whether a pending request with this id exists.
    pub open spec fn has_request(&self, id: u64) -> bool {
        exists|i: int| 0 <= i < self.requests@.len() && self.requests@[i].id == id
    }

    /// Whether an active service with this id exists.
    pub open spec fn has_service(&self, id: u64) -> bool {
        exists|i: int| 0 <= i < self.services@.len() && self.services@[i].id == id
    }

    /// Whether `(blueprint_id, operator)` is registered.
    pub open spec fn is_registered(&self, blueprint_id: u64, operator: Seq<u8>) -> bool {
        exists|i: int|
            0 <= i < self.registrations@.len() && self.registrations@[i].blueprint_id
                == blueprint_id && self.registrations@[i].operator@ == operator
    }

    /// Whether a pending slash sits at `(era, index)`.
    pub open spec fn has_slash(&self, era: u32, index: u32) -> bool {
        exists|i: int|
            0 <= i < self.slashes@.len() && self.slashes@[i].era == era
                && self.slashes@[i].index == index
    }

    /// Finds the pending request with the given id.
    pub fn find_request(&self, id: u64) -> (r: Option<usize>)
        ensures
            match r {
                Some(i) => i < self.requests@.len() && self.requests@[i as int].id == id,
                None => !self.has_request(id),
            },
    {
        let n = self.requests.len();
        let mut i: usize = 0;
        while i < n
            invariant
                n == self.requests@.len(),
                i <= n,
                forall|j: int| 0 <= j < i ==> self.requests@[j].id != id,
            decreases n - i,
        {
            if self.requests[i].id == id {
                return Some(i);
            }
            i += 1;
        }
        None
    }

    /// Finds the active service with the given id.
    pub fn find_service(&self, id: u64) -> (r: Option<usize>)
        ensures
            match r {
                Some(i) => i < self.services@.len() && self.services@[i as int].id == id,
                None => !self.has_service(id),
            },
    {
        let n = self.services.len();
        let mut i: usize = 0;
        while i < n
            invariant
                n == self.services@.len(),
                i <= n,
                forall|j: int| 0 <= j < i ==> self.services@[j].id != id,
            decreases n - i,
        {
            if self.services[i].id == id {
                return Some(i);
            }
            i += 1;
        }
        None
    }

    /// Finds the registration of `operator` for `blueprint_id`.
    pub fn find_registration(&self, blueprint_id: u64, operator: &Account) -> (r: Option<usize>)
        ensures
            match r {
                Some(i) => i < self.registrations@.len() && self.registrations@[
                    i as int
                ].blueprint_id == blueprint_id && self.registrations@[i as int].operator@
                    == operator@,
                None => !self.is_registered(blueprint_id, operator@),
            },
    {
        let n = self.registrations.len();
        let mut i: usize = 0;
        while i < n
            invariant
                n == self.registrations@.len(),
                i <= n,
                forall|j: int|
                    0 <= j < i ==> !(self.registrations@[j].blueprint_id == blueprint_id
                        && self.registrations@[j].operator@ == operator@),
            decreases n - i,
        {
            if self.registrations[i].blueprint_id == blueprint_id && account_eq(
                &self.registrations[i].operator,
                operator,
            ) {
                return Some(i);
            }
            i += 1;
        }
        None
    }

    /// Finds the pending slash at `(era, index)`.
    pub fn find_slash(&self, era: u32, index: u32) -> (r: Option<usize>)
        ensures
            match r {
                Some(i) => i < self.slashes@.len() && self.slashes@[i as int].era == era
                    && self.slashes@[i as int].index == index,
                None => !self.has_slash(era, index),
            },
    {
        let n = self.slashes.len();
        let mut i: usize = 0;
        while i < n
            invariant
                n == self.slashes@.len(),
                i <= n,
                forall|j: int|
                    0 <= j < i ==> !(self.slashes@[j].era == era && self.slashes@[j].index
                        == index),
            decreases n - i,
        {
            if self.slashes[i].era == era && self.slashes[i].index == index {
                return Some(i);
            }
            i += 1;
        }
        None
    }

    /// An empty marketplace: no entities, all counters at zero, permissive
    /// identifier narrowing.
    pub fn new() -> (s: State)
        ensures
            s.wf(),
            s.blueprints@.len() == 0,
            s.registrations@.len() == 0,
            s.requests@.len() == 0,
            s.services@.len() == 0,
            s.slashes@.len() == 0,
            s.balances@.len() == 0,
            s.stakes@.len() == 0,
            s.next_request_id == 0,
            s.next_service_id == 0,
            s.current_block == 0,
            s.current_era == 0,
            s.next_slash_index == 0,
            !s.strict_id_narrowing,
            s.events@.len() == 0,
    {
        State {
            blueprints: Vec::new(),
            registrations: Vec::new(),
            requests: Vec::new(),
            services: Vec::new(),
            slashes: Vec::new(),
            balances: Vec::new(),
            stakes: Vec::new(),
            next_request_id: 0,
            next_service_id: 0,
            current_block: 0,
            current_era: 0,
            next_slash_index: 0,
            strict_id_narrowing: false,
            events: Vec::new(),
        }
    }
}

/// The free balance recorded for `w`, zero when no entry exists.
pub open spec fn balance_of(s: Seq<AccountBalance>, w: Seq<u8>) -> int {
    if exists|i: int| 0 <= i < s.len() && s[i].account@ == w {
        s[choose|i: int| 0 <= i < s.len() && s[i].account@ == w].amount as int
    } else {
        0
    }
}

/// The stake recorded for `w`, zero when no entry exists.
pub open spec fn stake_of(s: Seq<OperatorStake>, w: Seq<u8>) -> int {
    if exists|i: int| 0 <= i < s.len() && s[i].operator@ == w {
        s[choose|i: int| 0 <= i < s.len() && s[i].operator@ == w].stake as int
    } else {
        0
    }
}

} // verus!
