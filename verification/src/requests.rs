//! The request and quorum engine: requests are created in a pending state,
//! collect unanimous operator approvals into an active service, and die on a
//! single rejection.
use vstd::prelude::*;
use crate::events::{Event, EventView, log_extended, log_extended2};
use crate::ledger::{credit, credit_saturating, debit, get_stake};
use crate::state::{
    Approval, ServiceRequest, Service, State, approvals_contain, approvals_subset, balance_of,
    distinct_approvals, request_wf, stake_of,
};
use crate::types::{
    Account, Balance, Error, Field, account_eq, clone_account, contains_acct, distinct_accts,
    find_account,
    fields_match_schema, percent_of, spec_percent_of, MAX_ASSETS_PER_SERVICE,
    MAX_OPERATORS_PER_SERVICE, MAX_PERMITTED_CALLERS,
};

verus! {

/// Checks that a list of accounts names no identity twice.
pub fn accounts_distinct(v: &Vec<Account>) -> (r: bool)
    ensures
        r == distinct_accts(v@),
{
    let n = v.len();
    let mut i: usize = 0;
    while i < n
        invariant
            n == v@.len(),
            i <= n,
            forall|a: int, b: int| 0 <= a < b < n && a < i ==> v@[a]@ != v@[b]@,
        decreases n - i,
    {
        let mut j: usize = i + 1;
        while j < n
            invariant
                n == v@.len(),
                i < n,
                i < j <= n,
                forall|b: int| i < b < j ==> v@[i as int]@ != v@[b]@,
            decreases n - j,
        {
            if account_eq(&v[i], &v[j]) {
                return false;
            }
            j += 1;
        }
        i += 1;
    }
    true
}

/// Exactly when and why `request` is refused, in check order.
pub open spec fn request_refused(
    pre: State,
    who: Seq<u8>,
    blueprint_id: u64,
    permitted_callers: Seq<Account>,
    operators: Seq<Account>,
    ttl: u64,
    assets: Seq<u32>,
    request_args: Seq<Field>,
    value: Balance,
    e: Error,
) -> bool {
    if operators.len() == 0 {
        e == Error::EmptyOperatorSet
    } else if operators.len() > MAX_OPERATORS_PER_SERVICE as int {
        e == Error::TooManyOperators
    } else if permitted_callers.len() > MAX_PERMITTED_CALLERS as int {
        e == Error::TooManyCallers
    } else if assets.len() > MAX_ASSETS_PER_SERVICE as int {
        e == Error::TooManyAssets
    } else if !distinct_accts(operators) {
        e == Error::OutOfBounds
    } else if (blueprint_id as int) >= pre.blueprints@.len() {
        e == Error::UnknownBlueprint
    } else if exists|i: int|
        0 <= i < operators.len() && !pre.is_registered(
            blueprint_id,
            (#[trigger] operators[i])@,
        ) {
        e == Error::OperatorNotRegistered
    } else if !fields_match_schema(
        request_args,
        pre.blueprints@[blueprint_id as int].blueprint.request_params@,
    ) {
        e == Error::TypeCheck
    } else if pre.next_request_id == u64::MAX || ttl > u64::MAX - pre.current_block {
        e == Error::ArithmeticOverflow
    } else {
        &&& e == Error::InsufficientBalance
        &&& balance_of(pre.balances@, who) < value
    }
}

/// Exactly when and why `approve` is refused, in check order.
pub open spec fn approve_refused(pre: State, who: Seq<u8>, request_id: u64, e: Error) -> bool {
    if !pre.has_request(request_id) {
        e == Error::NotFound
    } else if exists|i: int|
        0 <= i < pre.requests@.len() && (#[trigger] pre.requests@[i]).id == request_id
            && !contains_acct(pre.requests@[i].operators@, who) {
        e == Error::Unauthorized
    } else if exists|i: int|
        0 <= i < pre.requests@.len() && (#[trigger] pre.requests@[i]).id == request_id
            && approvals_contain(pre.requests@[i].approvals@, who) {
        e == Error::AlreadyVoted
    } else {
        &&& e == Error::ArithmeticOverflow
        &&& pre.next_service_id == u64::MAX
        &&& exists|i: int|
            0 <= i < pre.requests@.len() && (#[trigger] pre.requests@[i]).id == request_id
                && pre.requests@[i].approvals@.len() + 1 == pre.requests@[i].operators@.len()
    }
}

/// Exactly when and why `reject` is refused, in check order.
pub open spec fn reject_refused(pre: State, who: Seq<u8>, request_id: u64, e: Error) -> bool {
    if !pre.has_request(request_id) {
        e == Error::NotFound
    } else if exists|i: int|
        0 <= i < pre.requests@.len() && (#[trigger] pre.requests@[i]).id == request_id
            && !contains_acct(pre.requests@[i].operators@, who) {
        e == Error::Unauthorized
    } else {
        &&& e == Error::ArithmeticOverflow
        &&& exists|i: int|
            0 <= i < pre.requests@.len() && (#[trigger] pre.requests@[i]).id == request_id
                && balance_of(pre.balances@, pre.requests@[i].requester@) + pre.requests@[i].value
                > u128::MAX
    }
}

/// All fields of a request other than its approval list agree.
pub open spec fn request_same_identity(a: ServiceRequest, b: ServiceRequest) -> bool {
    &&& a.id == b.id
    &&& a.blueprint_id == b.blueprint_id
    &&& a.requester == b.requester
    &&& a.permitted_callers == b.permitted_callers
    &&& a.operators == b.operators
    &&& a.assets == b.assets
    &&& a.ttl == b.ttl
    &&& a.expires_at == b.expires_at
    &&& a.value == b.value
}

/// The successful `request` transition: the escrowed value leaves the
/// requester's balance and a fresh pending request appears under the next
/// request id, with no approvals yet.
pub open spec fn requested(
    pre: State,
    post: State,
    who: Seq<u8>,
    blueprint_id: u64,
    permitted_callers: Seq<Account>,
    operators: Seq<Account>,
    ttl: u64,
    assets: Seq<u32>,
    value: Balance,
    id: u64,
) -> bool {
    &&& operators.len() > 0
    &&& operators.len() <= MAX_OPERATORS_PER_SERVICE as int
    &&& permitted_callers.len() <= MAX_PERMITTED_CALLERS as int
    &&& assets.len() <= MAX_ASSETS_PER_SERVICE as int
    &&& distinct_accts(operators)
    &&& (blueprint_id as int) < pre.blueprints@.len()
    &&& forall|i: int|
        0 <= i < operators.len() ==> pre.is_registered(blueprint_id, (#[trigger] operators[i])@)
    &&& balance_of(pre.balances@, who) >= value
    &&& id == pre.next_request_id
    &&& post.next_request_id == pre.next_request_id + 1
    &&& post.requests@.len() == pre.requests@.len() + 1
    &&& post.requests@.subrange(0, pre.requests@.len() as int) == pre.requests@
    &&& {
        let req = post.requests@.last();
        &&& req.id == id
        &&& req.blueprint_id == blueprint_id
        &&& req.requester@ == who
        &&& req.permitted_callers@ == permitted_callers
        &&& req.operators@ == operators
        &&& req.assets@ == assets
        &&& req.ttl == ttl
        &&& req.expires_at == pre.current_block + ttl
        &&& req.value == value
        &&& req.approvals@.len() == 0
    }
    &&& balance_of(post.balances@, who) == balance_of(pre.balances@, who) - value
    &&& forall|w: Seq<u8>|
        w != who ==> #[trigger] balance_of(post.balances@, w) == balance_of(pre.balances@, w)
    &&& log_extended(
        pre.events@,
        post.events@,
        EventView::ServiceRequested { requester: who, request_id: id, blueprint_id },
    )
    &&& post.blueprints == pre.blueprints
    &&& post.registrations == pre.registrations
    &&& post.services == pre.services
    &&& post.slashes == pre.slashes
    &&& post.stakes == pre.stakes
    &&& post.next_service_id == pre.next_service_id
    &&& post.current_block == pre.current_block
    &&& post.current_era == pre.current_era
    &&& post.next_slash_index == pre.next_slash_index
    &&& post.strict_id_narrowing == pre.strict_id_narrowing
}

/// The successful `approve` transition. Either the approval is recorded and
/// the request stays pending, or — when it completes unanimity — the request
/// is atomically replaced by a fresh active service whose operator set is
/// exactly the request's named operator set. The escrowed value moves with
/// the record: no balance changes at activation (the service holds the
/// escrow until termination returns it to the owner), which is why
/// `post.balances == pre.balances` below.
pub open spec fn approved(
    pre: State,
    post: State,
    who: Seq<u8>,
    request_id: u64,
    percent: u8,
) -> bool {
    exists|i: int|
        {
            &&& 0 <= i < pre.requests@.len()
            &&& (#[trigger] pre.requests@[i]).id == request_id
            &&& contains_acct(pre.requests@[i].operators@, who)
            &&& !approvals_contain(pre.requests@[i].approvals@, who)
            &&& {
                let oldreq = pre.requests@[i];
                let exposure = spec_percent_of(
                    stake_of(pre.stakes@, who) as Balance,
                    percent,
                );
                if oldreq.approvals@.len() + 1 < oldreq.operators@.len() {
                    &&& post.requests@.len() == pre.requests@.len()
                    &&& forall|j: int|
                        0 <= j < pre.requests@.len() && j != i ==> post.requests@[j]
                            == pre.requests@[j]
                    &&& request_same_identity(post.requests@[i], oldreq)
                    &&& post.requests@[i].approvals@.len() == oldreq.approvals@.len() + 1
                    &&& post.requests@[i].approvals@.subrange(
                        0,
                        oldreq.approvals@.len() as int,
                    ) == oldreq.approvals@
                    &&& {
                        let ap = post.requests@[i].approvals@.last();
                        &&& ap.operator@ == who
                        &&& ap.restaking_percent == percent
                        &&& ap.exposure as int == exposure
                    }
                    &&& post.services == pre.services
                    &&& post.next_service_id == pre.next_service_id
                    &&& log_extended(
                        pre.events@,
                        post.events@,
                        EventView::RequestApproved { operator: who, request_id },
                    )
                } else {
                    &&& oldreq.approvals@.len() + 1 == oldreq.operators@.len()
                    &&& post.requests@ == pre.requests@.remove(i)
                    &&& post.services@.len() == pre.services@.len() + 1
                    &&& post.services@.subrange(0, pre.services@.len() as int) == pre.services@
                    &&& {
                        let sv = post.services@.last();
                        &&& sv.id == pre.next_service_id
                        &&& sv.blueprint_id == oldreq.blueprint_id
                        &&& sv.owner == oldreq.requester
                        &&& sv.permitted_callers == oldreq.permitted_callers
                        &&& sv.assets == oldreq.assets
                        &&& sv.value == oldreq.value
                        &&& sv.next_call_id == 0
                        &&& sv.calls@.len() == 0
                        &&& sv.operators@.len() == oldreq.operators@.len()
                        &&& sv.operators@.subrange(0, oldreq.approvals@.len() as int)
                            == oldreq.approvals@
                        &&& sv.operators@.last().operator@ == who
                        &&& sv.operators@.last().restaking_percent == percent
                        &&& sv.operators@.last().exposure as int == exposure
                        &&& forall|w: Seq<u8>|
                            contains_acct(oldreq.operators@, w) <==> approvals_contain(
                                sv.operators@,
                                w,
                            )
                    }
                    &&& post.next_service_id == pre.next_service_id + 1
                    &&& log_extended2(
                        pre.events@,
                        post.events@,
                        EventView::RequestApproved { operator: who, request_id },
                        EventView::ServiceInitiated {
                            request_id,
                            service_id: pre.next_service_id,
                        },
                    )
                }
            }
            &&& post.blueprints == pre.blueprints
            &&& post.registrations == pre.registrations
            &&& post.slashes == pre.slashes
            &&& post.balances == pre.balances
            &&& post.stakes == pre.stakes
            &&& post.next_request_id == pre.next_request_id
            &&& post.current_block == pre.current_block
            &&& post.current_era == pre.current_era
            &&& post.next_slash_index == pre.next_slash_index
            &&& post.strict_id_narrowing == pre.strict_id_narrowing
        }
}

/// The successful `reject` transition: one named operator's veto deletes the
/// pending request and refunds the requester's escrowed value in full.
pub open spec fn rejected(pre: State, post: State, who: Seq<u8>, request_id: u64) -> bool {
    &&& exists|i: int|
        {
            &&& 0 <= i < pre.requests@.len()
            &&& (#[trigger] pre.requests@[i]).id == request_id
            &&& contains_acct(pre.requests@[i].operators@, who)
            &&& post.requests@ == pre.requests@.remove(i)
            &&& balance_of(post.balances@, pre.requests@[i].requester@) == balance_of(
                pre.balances@,
                pre.requests@[i].requester@,
            ) + pre.requests@[i].value
            &&& forall|w: Seq<u8>|
                w != pre.requests@[i].requester@ ==> #[trigger] balance_of(post.balances@, w)
                    == balance_of(pre.balances@, w)
        }
    &&& log_extended(
        pre.events@,
        post.events@,
        EventView::RequestRejected { operator: who, request_id },
    )
    &&& post.blueprints == pre.blueprints
    &&& post.registrations == pre.registrations
    &&& post.services == pre.services
    &&& post.slashes == pre.slashes
    &&& post.stakes == pre.stakes
    &&& post.next_request_id == pre.next_request_id
    &&& post.next_service_id == pre.next_service_id
    &&& post.current_block == pre.current_block
    &&& post.current_era == pre.current_era
    &&& post.next_slash_index == pre.next_slash_index
    &&& post.strict_id_narrowing == pre.strict_id_narrowing
}

/// Whether a pending request's time-to-live has elapsed at block `now`.
pub open spec fn request_expired(r: ServiceRequest, now: u64) -> bool {
    r.expires_at < now
}

/// The free balance an identity `w` ends with after every expired request
/// of a queue refunds its escrow, in order, stopping at the balance type's
/// maximum.
pub open spec fn balance_after_refunds(
    initial: int,
    reqs: Seq<ServiceRequest>,
    now: u64,
    w: Seq<u8>,
) -> int
    decreases reqs.len(),
{
    if reqs.len() == 0 {
        initial
    } else {
        let prev = balance_after_refunds(initial, reqs.drop_last(), now, w);
        let r = reqs.last();
        if request_expired(r, now) && r.requester@ == w {
            if prev + r.value <= u128::MAX {
                prev + r.value
            } else {
                u128::MAX as int
            }
        } else {
            prev
        }
    }
}

/// The event log after every expired request of a queue has logged its
/// expiry, in order.
pub open spec fn events_after_expiry(
    log: Seq<Event>,
    reqs: Seq<ServiceRequest>,
    now: u64,
) -> Seq<Event>
    decreases reqs.len(),
{
    if reqs.len() == 0 {
        log
    } else {
        let prev = events_after_expiry(log, reqs.drop_last(), now);
        let r = reqs.last();
        if request_expired(r, now) {
            prev.push(Event::RequestExpired { request_id: r.id })
        } else {
            prev
        }
    }
}

/// The `advance_block` transition: block time steps, and exactly the
/// pending requests whose time-to-live has elapsed are swept — deleted,
/// logged, and their escrow refunded to their requesters.
pub open spec fn block_advanced(pre: State, post: State) -> bool {
    &&& post.current_block == pre.current_block + 1
    &&& forall|k: int|
        0 <= k < post.requests@.len() ==> !request_expired(
            #[trigger] post.requests@[k],
            post.current_block,
        ) && exists|m: int| 0 <= m < pre.requests@.len() && pre.requests@[m] == post.requests@[k]
    &&& forall|m: int|
        0 <= m < pre.requests@.len() && !request_expired(
            #[trigger] pre.requests@[m],
            post.current_block,
        ) ==> exists|k: int| 0 <= k < post.requests@.len() && post.requests@[k] == pre.requests@[m]
    &&& forall|w: Seq<u8>|
        #[trigger] balance_of(post.balances@, w) == balance_after_refunds(
            balance_of(pre.balances@, w),
            pre.requests@,
            post.current_block,
            w,
        )
    &&& post.events@ == events_after_expiry(pre.events@, pre.requests@, post.current_block)
    &&& post.blueprints == pre.blueprints
    &&& post.registrations == pre.registrations
    &&& post.services == pre.services
    &&& post.slashes == pre.slashes
    &&& post.stakes == pre.stakes
    &&& post.next_request_id == pre.next_request_id
    &&& post.next_service_id == pre.next_service_id
    &&& post.current_era == pre.current_era
    &&& post.next_slash_index == pre.next_slash_index
    &&& post.strict_id_narrowing == pre.strict_id_narrowing
}

/// A list of distinct approvals drawn from a same-length list of distinct
/// operators must cover every operator: unanimity by counting.
proof fn lemma_full_approval(approvals: Seq<Approval>, operators: Seq<Account>)
    requires
        distinct_approvals(approvals),
        distinct_accts(operators),
        approvals_subset(approvals, operators),
        approvals.len() == operators.len(),
    ensures
        forall|w: Seq<u8>| contains_acct(operators, w) ==> approvals_contain(approvals, w),
{
    let avs = Seq::new(approvals.len(), |i: int| approvals[i].operator@);
    let ovs = Seq::new(operators.len(), |i: int| operators[i]@);
    assert(avs.no_duplicates());
    assert(ovs.no_duplicates());
    avs.unique_seq_to_set();
    ovs.unique_seq_to_set();
    assert forall|x: Seq<u8>| avs.to_set().contains(x) implies ovs.to_set().contains(x) by {
        let i = choose|i: int| 0 <= i < avs.len() && avs[i] == x;
        assert(contains_acct(operators, x));
        let j = choose|j: int| 0 <= j < operators.len() && operators[j]@ == x;
        assert(ovs[j] == x);
    }
    vstd::set_lib::lemma_subset_equality(avs.to_set(), ovs.to_set());
    assert forall|w: Seq<u8>| contains_acct(operators, w) implies approvals_contain(
        approvals,
        w,
    ) by {
        let j = choose|j: int| 0 <= j < operators.len() && operators[j]@ == w;
        assert(ovs[j] == w);
        assert(ovs.to_set().contains(w));
        assert(avs.to_set().contains(w));
        let i = choose|i: int| 0 <= i < avs.len() && avs[i] == w;
        assert(approvals[i].operator@ == w);
    }
}

impl State {
    /// Creates a pending service request over a set of named operators,
    /// escrowing `value` from the requester. Fails — in this order — with
    /// `EmptyOperatorSet`, `TooManyOperators`, `TooManyCallers`,
    /// `TooManyAssets`, `OutOfBounds` on a duplicated operator,
    /// `UnknownBlueprint`, `OperatorNotRegistered`, `TypeCheck` when the
    /// arguments miss the blueprint's request schema, `ArithmeticOverflow`
    /// when an id or deadline counter would wrap, or `InsufficientBalance`;
    /// succeeds exactly when none of these holds.
    pub fn request(
        &mut self,
        signer: &Account,
        blueprint_id: u64,
        permitted_callers: Vec<Account>,
        operators: Vec<Account>,
        ttl: u64,
        assets: Vec<u32>,
        request_args: Vec<Field>,
        value: Balance,
    ) -> (r: Result<u64, Error>)
        requires
            old(self).wf(),
        ensures
            final(self).wf(),
            r is Err ==> *final(self) == *old(self),
            match r {
                Ok(id) => requested(
                    *old(self),
                    *final(self),
                    signer@,
                    blueprint_id,
                    permitted_callers@,
                    operators@,
                    ttl,
                    assets@,
                    value,
                    id,
                ) && fields_match_schema(
                    request_args@,
                    old(self).blueprints@[blueprint_id as int].blueprint.request_params@,
                ),
                Err(e) => request_refused(
                    *old(self),
                    signer@,
                    blueprint_id,
                    permitted_callers@,
                    operators@,
                    ttl,
                    assets@,
                    request_args@,
                    value,
                    e,
                ),
            },
    {
        if operators.len() == 0 {
            return Err(Error::EmptyOperatorSet);
        }
        if operators.len() > MAX_OPERATORS_PER_SERVICE {
            return Err(Error::TooManyOperators);
        }
        if permitted_callers.len() > MAX_PERMITTED_CALLERS {
            return Err(Error::TooManyCallers);
        }
        if assets.len() > MAX_ASSETS_PER_SERVICE {
            return Err(Error::TooManyAssets);
        }
        if !accounts_distinct(&operators) {
            return Err(Error::OutOfBounds);
        }
        if blueprint_id >= self.blueprints.len() as u64 {
            return Err(Error::UnknownBlueprint);
        }
        let n_ops = operators.len();
        let mut k: usize = 0;
        while k < n_ops
            invariant
                *self == *old(self),
                self.wf(),
                (blueprint_id as int) < self.blueprints@.len(),
                operators@.len() > 0,
                operators@.len() <= MAX_OPERATORS_PER_SERVICE as int,
                permitted_callers@.len() <= MAX_PERMITTED_CALLERS as int,
                assets@.len() <= MAX_ASSETS_PER_SERVICE as int,
                distinct_accts(operators@),
                n_ops == operators@.len(),
                k <= n_ops,
                forall|i: int|
                    0 <= i < k ==> self.is_registered(blueprint_id, (#[trigger] operators@[i])@),
            decreases n_ops - k,
        {
            if self.find_registration(blueprint_id, &operators[k]).is_none() {
                proof {
                    assert(!old(self).is_registered(blueprint_id, operators@[k as int]@));
                    assert(exists|i: int|
                        0 <= i < operators@.len() && !old(self).is_registered(
                            blueprint_id,
                            (#[trigger] operators@[i])@,
                        ));
                }
                return Err(Error::OperatorNotRegistered);
            }
            k += 1;
        }
        let schema_ok = crate::types::check_fields(
            &request_args,
            &self.blueprints[blueprint_id as usize].blueprint.request_params,
        );
        if !schema_ok {
            return Err(Error::TypeCheck);
        }
        if self.next_request_id == u64::MAX || ttl > u64::MAX - self.current_block {
            return Err(Error::ArithmeticOverflow);
        }
        match debit(&mut self.balances, signer, value) {
            Ok(_) => {},
            Err(_) => {
                return Err(Error::InsufficientBalance);
            },
        }
        let id = self.next_request_id;
        self.next_request_id = id + 1;
        let requester = clone_account(signer);
        let expires_at = self.current_block + ttl;
        self.requests.push(
            ServiceRequest {
                id,
                blueprint_id,
                requester,
                permitted_callers,
                operators,
                assets,
                ttl,
                expires_at,
                value,
                approvals: Vec::new(),
            },
        );
        let ev_req = clone_account(signer);
        self.events.push(
            Event::ServiceRequested { requester: ev_req, request_id: id, blueprint_id },
        );
        proof {
            assert(self.requests@.subrange(0, old(self).requests@.len() as int) =~= old(
                self,
            ).requests@);
            assert(self.events@.subrange(0, old(self).events@.len() as int) =~= old(self).events@);
        }
        Ok(id)
    }

    /// Records the caller's approval of a pending request, restaking
    /// `restaking_percent` of its current stake as exposure. When the
    /// approval completes unanimity the request atomically becomes an
    /// active service under a fresh service id. Fails with `NotFound`,
    /// `Unauthorized` for a caller that is not a named operator,
    /// `AlreadyVoted`, or `ArithmeticOverflow` when the service id space is
    /// exhausted; succeeds exactly otherwise.
    pub fn approve(&mut self, signer: &Account, request_id: u64, restaking_percent: u8) -> (r:
        Result<(), Error>)
        requires
            old(self).wf(),
            restaking_percent <= 100,
        ensures
            final(self).wf(),
            r is Err ==> *final(self) == *old(self),
            match r {
                Ok(_) => approved(*old(self), *final(self), signer@, request_id, restaking_percent),
                Err(e) => approve_refused(*old(self), signer@, request_id, e),
            },
    {
        let idx = match self.find_request(request_id) {
            Some(i) => i,
            None => {
                return Err(Error::NotFound);
            },
        };
        if find_account(&self.requests[idx].operators, signer).is_none() {
            return Err(Error::Unauthorized);
        }
        if crate::registry::find_approval(&self.requests[idx].approvals, signer).is_some() {
            return Err(Error::AlreadyVoted);
        }
        proof {
            assert forall|i: int|
                0 <= i < old(self).requests@.len() && (#[trigger] old(self).requests@[i]).id
                    == request_id implies i == idx by {
                assert(old(self).wf_requests());
            }
        }
        proof {
            let oldreq = old(self).requests@[idx as int];
            assert(request_wf(
                oldreq,
                old(self).blueprints@.len() as int,
                old(self).next_request_id,
            ));
            if oldreq.approvals@.len() == oldreq.operators@.len() {
                lemma_full_approval(oldreq.approvals@, oldreq.operators@);
                assert(approvals_contain(oldreq.approvals@, signer@));
                assert(false);
            }
        }
        let will_activate = self.requests[idx].approvals.len()
            == self.requests[idx].operators.len() - 1;
        if will_activate && self.next_service_id == u64::MAX {
            proof {
                assert(old(self).requests@[idx as int].approvals@.len() + 1 == old(
                    self,
                ).requests@[idx as int].operators@.len());
            }
            return Err(Error::ArithmeticOverflow);
        }
        let stake = get_stake(&self.stakes, signer);
        let exposure = percent_of(stake, restaking_percent);
        let operator = clone_account(signer);
        let mut req = self.requests.remove(idx);
        let ghost oldreq = old(self).requests@[idx as int];
        req.approvals.push(Approval { operator, restaking_percent, exposure });
        proof {
            assert(req.approvals@.subrange(0, oldreq.approvals@.len() as int) =~= oldreq.approvals@);
        }
        if !will_activate {
            self.requests.insert(idx, req);
            let ev_op = clone_account(signer);
            self.events.push(Event::RequestApproved { operator: ev_op, request_id });
            proof {
                assert(self.requests@ =~= old(self).requests@.update(
                    idx as int,
                    self.requests@[idx as int],
                ));
                assert(self.events@.subrange(0, old(self).events@.len() as int) =~= old(
                    self,
                ).events@);
                assert(approved(*old(self), *self, signer@, request_id, restaking_percent));
            }
            return Ok(());
        }
        let service_id = self.next_service_id;
        self.next_service_id = service_id + 1;
        let service = Service {
            id: service_id,
            blueprint_id: req.blueprint_id,
            owner: req.requester,
            permitted_callers: req.permitted_callers,
            operators: req.approvals,
            assets: req.assets,
            value: req.value,
            next_call_id: 0,
            calls: Vec::new(),
        };
        proof {
            lemma_full_approval(service.operators@, oldreq.operators@);
        }
        self.services.push(service);
        let ev_op = clone_account(signer);
        self.events.push(Event::RequestApproved { operator: ev_op, request_id });
        self.events.push(Event::ServiceInitiated { request_id, service_id });
        proof {
            assert(self.services@.subrange(0, old(self).services@.len() as int) =~= old(
                self,
            ).services@);
            assert(self.events@.subrange(0, old(self).events@.len() as int) =~= old(self).events@);
            assert forall|w: Seq<u8>|
                contains_acct(oldreq.operators@, w) <==> approvals_contain(
                    self.services@.last().operators@,
                    w,
                ) by {}
            assert(approved(*old(self), *self, signer@, request_id, restaking_percent));
        }
        Ok(())
    }

    /// Rejects a pending request: any single named operator's veto deletes
    /// the request and refunds the requester's escrowed value in full.
    /// Fails with `NotFound`, `Unauthorized` for a caller that is not a
    /// named operator, or `ArithmeticOverflow` when the refund would
    /// overflow the requester's balance; succeeds exactly otherwise.
    pub fn reject(&mut self, signer: &Account, request_id: u64) -> (r: Result<(), Error>)
        requires
            old(self).wf(),
        ensures
            final(self).wf(),
            r is Err ==> *final(self) == *old(self),
            match r {
                Ok(_) => rejected(*old(self), *final(self), signer@, request_id),
                Err(e) => reject_refused(*old(self), signer@, request_id, e),
            },
    {
        let idx = match self.find_request(request_id) {
            Some(i) => i,
            None => {
                return Err(Error::NotFound);
            },
        };
        if find_account(&self.requests[idx].operators, signer).is_none() {
            return Err(Error::Unauthorized);
        }
        proof {
            assert forall|i: int|
                0 <= i < old(self).requests@.len() && (#[trigger] old(self).requests@[i]).id
                    == request_id implies i == idx by {
                assert(old(self).wf_requests());
            }
        }
        let value = self.requests[idx].value;
        let requester = clone_account(&self.requests[idx].requester);
        match credit(&mut self.balances, &requester, value) {
            Ok(_) => {},
            Err(_) => {
                proof {
                    assert(old(self).requests@[idx as int].id == request_id);
                    assert(balance_of(
                        old(self).balances@,
                        old(self).requests@[idx as int].requester@,
                    ) + old(self).requests@[idx as int].value > u128::MAX);
                }
                return Err(Error::ArithmeticOverflow);
            },
        }
        self.requests.remove(idx);
        let ev_op = clone_account(signer);
        self.events.push(Event::RequestRejected { operator: ev_op, request_id });
        proof {
            assert(self.events@.subrange(0, old(self).events@.len() as int) =~= old(self).events@);
        }
        Ok(())
    }

    /// The block hook: steps block time and sweeps exactly the pending
    /// requests whose time-to-live has elapsed, refunding each requester's
    /// escrow. Fails only when the block counter would wrap.
    #[verifier::rlimit(60)]
    pub fn advance_block(&mut self) -> (r: Result<(), Error>)
        requires
            old(self).wf(),
        ensures
            final(self).wf(),
            r is Err ==> *final(self) == *old(self) && r == Err::<(), Error>(
                Error::ArithmeticOverflow,
            ) && old(self).current_block == u64::MAX,
            r is Ok ==> block_advanced(*old(self), *final(self)),
    {
        if self.current_block == u64::MAX {
            return Err(Error::ArithmeticOverflow);
        }
        let now = self.current_block + 1;
        self.current_block = now;
        let ghost pre_requests = self.requests@;
        let ghost pre_balances = self.balances@;
        let ghost pre_events = self.events@;
        let mut processed: usize = 0;
        let ghost n = self.requests@.len();
        proof {
            assert(self.requests.len() == self.requests@.len());
        }
        let mut i: usize = 0;
        while i < self.requests.len()
            invariant
                i <= processed,
                processed <= n,
                n <= usize::MAX,
                n == pre_requests.len(),
                i as int == self.requests@.len() - (n - processed),
                self.wf_accounts(),
                self.requests@.subrange(i as int, self.requests@.len() as int)
                    =~= pre_requests.subrange(processed as int, n as int),
                forall|k: int|
                    0 <= k < i ==> !request_expired(#[trigger] self.requests@[k], now) && exists|
                        m: int,
                    | 0 <= m < processed && pre_requests[m] == self.requests@[k],
                forall|m: int|
                    0 <= m < processed && !request_expired(#[trigger] pre_requests[m], now)
                        ==> exists|k: int| 0 <= k < i && self.requests@[k] == pre_requests[m],
                forall|w: Seq<u8>|
                    #[trigger] balance_of(self.balances@, w) == balance_after_refunds(
                        balance_of(pre_balances, w),
                        pre_requests.subrange(0, processed as int),
                        now,
                        w,
                    ),
                self.events@ == events_after_expiry(
                    pre_events,
                    pre_requests.subrange(0, processed as int),
                    now,
                ),
                forall|a: int, b: int|
                    0 <= a < b < self.requests@.len() ==> self.requests@[a].id
                        != self.requests@[b].id,
                forall|k: int|
                    0 <= k < self.requests@.len() ==> request_wf(
                        #[trigger] self.requests@[k],
                        self.blueprints@.len() as int,
                        self.next_request_id,
                    ),
                self.current_block == now,
                now == old(self).current_block + 1,
                self.blueprints == old(self).blueprints,
                self.registrations == old(self).registrations,
                self.services == old(self).services,
                self.slashes == old(self).slashes,
                self.stakes == old(self).stakes,
                self.next_request_id == old(self).next_request_id,
                self.next_service_id == old(self).next_service_id,
                self.current_era == old(self).current_era,
                self.next_slash_index == old(self).next_slash_index,
                self.strict_id_narrowing == old(self).strict_id_narrowing,
            decreases n - processed,
        {
            proof {
                assert(self.requests@.subrange(i as int, self.requests@.len() as int)[0]
                    == pre_requests.subrange(processed as int, n as int)[0]);
                assert(self.requests@[i as int] == pre_requests[processed as int]);
            }
            let ghost before = self.requests@;
            let expired = self.requests[i].expires_at < now;
            if expired {
                let value = self.requests[i].value;
                let request_id = self.requests[i].id;
                let requester = clone_account(&self.requests[i].requester);
                self.requests.remove(i);
                credit_saturating(&mut self.balances, &requester, value);
                self.events.push(Event::RequestExpired { request_id });
                proof {
                    let prefix_new = pre_requests.subrange(0, processed as int + 1);
                    assert(prefix_new.drop_last() =~= pre_requests.subrange(0, processed as int));
                    assert(prefix_new.last() == pre_requests[processed as int]);
                    assert(before.len() - i == n - processed);
                    assert(self.requests@.len() == before.len() - 1);
                    assert forall|k: int|
                        0 <= k < self.requests@.len() - i implies (
                        #[trigger] self.requests@.subrange(
                            i as int,
                            self.requests@.len() as int,
                        )[k]) == pre_requests.subrange(processed as int + 1, n as int)[k] by {
                        assert(self.requests@[i + k] == before[i + 1 + k]);
                        assert(before.subrange(i as int, before.len() as int)[k + 1]
                            == pre_requests.subrange(processed as int, n as int)[k + 1]);
                    }
                    assert(self.requests@.subrange(i as int, self.requests@.len() as int)
                        =~= pre_requests.subrange(processed as int + 1, n as int));
                    assert(forall|k: int| 0 <= k < i ==> self.requests@[k] == before[k]);
                    assert forall|m: int|
                        0 <= m < processed + 1 && !request_expired(
                            #[trigger] pre_requests[m],
                            now,
                        ) implies exists|k: int|
                        0 <= k < i && self.requests@[k] == pre_requests[m] by {
                        if m < processed {
                            let k0 = choose|k: int|
                                0 <= k < i && before[k] == pre_requests[m];
                            assert(self.requests@[k0] == pre_requests[m]);
                        }
                    }
                    assert(self.events@ == events_after_expiry(pre_events, prefix_new, now));
                }
            } else {
                proof {
                    let prefix_new = pre_requests.subrange(0, processed as int + 1);
                    assert(prefix_new.drop_last() =~= pre_requests.subrange(0, processed as int));
                    assert(prefix_new.last() == pre_requests[processed as int]);
                    assert(before.len() - i == n - processed);
                    assert forall|w: Seq<u8>|
                        #[trigger] balance_of(self.balances@, w) == balance_after_refunds(
                            balance_of(pre_balances, w),
                            prefix_new,
                            now,
                            w,
                        ) by {}
                    assert forall|k: int|
                        0 <= k < self.requests@.len() - (i + 1) implies (
                        #[trigger] self.requests@.subrange(
                            i as int + 1,
                            self.requests@.len() as int,
                        )[k]) == pre_requests.subrange(processed as int + 1, n as int)[k] by {
                        assert(before.subrange(i as int, before.len() as int)[k + 1]
                            == pre_requests.subrange(processed as int, n as int)[k + 1]);
                        assert(self.requests@[i + 1 + k] == before[i + 1 + k]);
                    }
                    assert(self.requests@.subrange(i as int + 1, self.requests@.len() as int)
                        =~= pre_requests.subrange(processed as int + 1, n as int));
                }
                i += 1;
            }
            processed += 1;
        }
        proof {
            assert(pre_requests.subrange(0, n as int) =~= pre_requests);
            assert(self.requests@.subrange(i as int, self.requests@.len() as int).len() == 0);
            assert(i as int == self.requests@.len());
        }
        Ok(())
    }
}

} // verus!
