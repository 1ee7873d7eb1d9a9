//! Active services: termination, job dispatch and result submission.
use vstd::prelude::*;
use crate::events::{Event, EventView, log_extended};
use crate::ledger::credit;
use crate::registry::find_approval;
use crate::state::{
    JobCallRecord, JobResult, Service, State, approvals_contain, balance_of, service_wf,
};
use crate::types::{
    Account, Error, Field, Origin, account_eq, clone_account, contains_acct, fields_match_schema,
    find_account, origin_is_root, origin_signed_by,
};

verus! {

/// Finds the open job call with the given call id.
pub fn find_call(v: &Vec<JobCallRecord>, call_id: u64) -> (r: Option<usize>)
    ensures
        match r {
            Some(i) => i < v@.len() && v@[i as int].call_id == call_id,
            None => forall|j: int| 0 <= j < v@.len() ==> v@[j].call_id != call_id,
        },
{
    let n = v.len();
    let mut i: usize = 0;
    while i < n
        invariant
            n == v@.len(),
            i <= n,
            forall|j: int| 0 <= j < i ==> v@[j].call_id != call_id,
        decreases n - i,
    {
        if v[i].call_id == call_id {
            return Some(i);
        }
        i += 1;
    }
    None
}

/// Whether `w` already submitted a result in this list.
pub open spec fn results_contain(s: Seq<JobResult>, w: Seq<u8>) -> bool {
    exists|i: int| 0 <= i < s.len() && s[i].operator@ == w
}

/// Finds the result submitted by `who`.
pub fn find_result(v: &Vec<JobResult>, who: &Account) -> (r: Option<usize>)
    ensures
        match r {
            Some(i) => i < v@.len() && v@[i as int].operator@ == who@,
            None => !results_contain(v@, who@),
        },
{
    let n = v.len();
    let mut i: usize = 0;
    while i < n
        invariant
            n == v@.len(),
            i <= n,
            forall|j: int| 0 <= j < i ==> v@[j].operator@ != who@,
        decreases n - i,
    {
        if account_eq(&v[i].operator, who) {
            return Some(i);
        }
        i += 1;
    }
    None
}

/// Exactly when and why `terminate` is refused, in check order.
pub open spec fn terminate_refused(pre: State, origin: Origin, service_id: u64, e: Error) -> bool {
    if !pre.has_service(service_id) {
        e == Error::ServiceNotFound
    } else if exists|i: int|
        0 <= i < pre.services@.len() && (#[trigger] pre.services@[i]).id == service_id && !(
        origin_is_root(origin) || origin_signed_by(origin, pre.services@[i].owner@)) {
        e == Error::Unauthorized
    } else {
        &&& e == Error::ArithmeticOverflow
        &&& exists|i: int|
            0 <= i < pre.services@.len() && (#[trigger] pre.services@[i]).id == service_id
                && balance_of(pre.balances@, pre.services@[i].owner@) + pre.services@[i].value
                > u128::MAX
    }
}

/// Exactly when and why `call` is refused, in check order.
pub open spec fn call_refused(
    pre: State,
    who: Seq<u8>,
    service_id: u64,
    job: u8,
    args: Seq<Field>,
    e: Error,
) -> bool {
    if !pre.has_service(service_id) {
        e == Error::ServiceNotFound
    } else if exists|i: int|
        0 <= i < pre.services@.len() && (#[trigger] pre.services@[i]).id == service_id
            && !contains_acct(pre.services@[i].permitted_callers@, who) {
        e == Error::CallerNotPermitted
    } else if exists|i: int|
        0 <= i < pre.services@.len() && (#[trigger] pre.services@[i]).id == service_id && (
        job as int) >= pre.blueprints@[pre.services@[i].blueprint_id as int].blueprint.jobs@.len() {
        e == Error::InvalidJobIndex
    } else if exists|i: int|
        0 <= i < pre.services@.len() && (#[trigger] pre.services@[i]).id == service_id
            && !fields_match_schema(
            args,
            pre.blueprints@[pre.services@[i].blueprint_id as int].blueprint.jobs@[job as int].params@,
        ) {
        e == Error::TypeCheck
    } else {
        &&& e == Error::ArithmeticOverflow
        &&& exists|i: int|
            0 <= i < pre.services@.len() && (#[trigger] pre.services@[i]).id == service_id
                && pre.services@[i].next_call_id == u64::MAX
    }
}

/// Exactly when and why `submit_result` is refused, in check order.
pub open spec fn submit_result_refused(
    pre: State,
    who: Seq<u8>,
    service_id: u64,
    call_id: u64,
    e: Error,
) -> bool {
    if !pre.has_service(service_id) {
        e == Error::ServiceNotFound
    } else if exists|i: int|
        0 <= i < pre.services@.len() && (#[trigger] pre.services@[i]).id == service_id
            && !approvals_contain(pre.services@[i].operators@, who) {
        e == Error::Unauthorized
    } else if exists|i: int|
        0 <= i < pre.services@.len() && (#[trigger] pre.services@[i]).id == service_id && (forall|
            j: int,
        |
            0 <= j < pre.services@[i].calls@.len() ==> (#[trigger] pre.services@[i].calls@[
            j]).call_id != call_id) {
        e == Error::CallNotFound
    } else {
        &&& e == Error::DuplicateResult
        &&& exists|i: int, j: int|
            0 <= i < pre.services@.len() && pre.services@[i].id == service_id && 0 <= j
                < pre.services@[i].calls@.len() && (#[trigger] pre.services@[i].calls@[j]).call_id
                == call_id && results_contain(pre.services@[i].calls@[j].results@, who)
    }
}

/// The successful `terminate` transition: the service disappears and its
/// remaining escrowed value returns to its owner.
pub open spec fn terminated(pre: State, post: State, origin: Origin, service_id: u64) -> bool {
    &&& exists|i: int|
        {
            &&& 0 <= i < pre.services@.len()
            &&& (#[trigger] pre.services@[i]).id == service_id
            &&& (origin_is_root(origin) || origin_signed_by(origin, pre.services@[i].owner@))
            &&& post.services@ == pre.services@.remove(i)
            &&& balance_of(post.balances@, pre.services@[i].owner@) == balance_of(
                pre.balances@,
                pre.services@[i].owner@,
            ) + pre.services@[i].value
            &&& forall|w: Seq<u8>|
                w != pre.services@[i].owner@ ==> #[trigger] balance_of(post.balances@, w)
                    == balance_of(pre.balances@, w)
        }
    &&& log_extended(pre.events@, post.events@, EventView::ServiceTerminated { service_id })
    &&& post.blueprints == pre.blueprints
    &&& post.registrations == pre.registrations
    &&& post.requests == pre.requests
    &&& post.slashes == pre.slashes
    &&& post.stakes == pre.stakes
    &&& post.next_request_id == pre.next_request_id
    &&& post.next_service_id == pre.next_service_id
    &&& post.current_block == pre.current_block
    &&& post.current_era == pre.current_era
    &&& post.next_slash_index == pre.next_slash_index
    &&& post.strict_id_narrowing == pre.strict_id_narrowing
}

/// All fields of a service other than its call table and call counter agree.
pub open spec fn service_same_identity(a: Service, b: Service) -> bool {
    &&& a.id == b.id
    &&& a.blueprint_id == b.blueprint_id
    &&& a.owner == b.owner
    &&& a.permitted_callers == b.permitted_callers
    &&& a.operators == b.operators
    &&& a.assets == b.assets
    &&& a.value == b.value
}

/// The successful `call` transition: a fresh job call record under the
/// service's next call id.
pub open spec fn job_called(
    pre: State,
    post: State,
    who: Seq<u8>,
    service_id: u64,
    job: u8,
    args: Seq<Field>,
    call_id: u64,
) -> bool {
    &&& exists|i: int|
        {
            &&& 0 <= i < pre.services@.len()
            &&& (#[trigger] pre.services@[i]).id == service_id
            &&& contains_acct(pre.services@[i].permitted_callers@, who)
            &&& (job as int) < pre.blueprints@[pre.services@[i].blueprint_id as int].blueprint.jobs@.len()
            &&& fields_match_schema(
                args,
                pre.blueprints@[pre.services@[i].blueprint_id as int].blueprint.jobs@[job as int].params@,
            )
            &&& call_id == pre.services@[i].next_call_id
            &&& post.services@.len() == pre.services@.len()
            &&& forall|j: int|
                0 <= j < pre.services@.len() && j != i ==> post.services@[j] == pre.services@[j]
            &&& service_same_identity(post.services@[i], pre.services@[i])
            &&& post.services@[i].next_call_id == pre.services@[i].next_call_id + 1
            &&& post.services@[i].calls@.len() == pre.services@[i].calls@.len() + 1
            &&& post.services@[i].calls@.subrange(0, pre.services@[i].calls@.len() as int)
                == pre.services@[i].calls@
            &&& {
                let call = post.services@[i].calls@.last();
                &&& call.call_id == call_id
                &&& call.job_index == job
                &&& call.args@ == args
                &&& call.results@.len() == 0
            }
        }
    &&& log_extended(
        pre.events@,
        post.events@,
        EventView::JobCalled { caller: who, service_id, call_id, job },
    )
    &&& post.blueprints == pre.blueprints
    &&& post.registrations == pre.registrations
    &&& post.requests == pre.requests
    &&& post.slashes == pre.slashes
    &&& post.balances == pre.balances
    &&& post.stakes == pre.stakes
    &&& post.next_request_id == pre.next_request_id
    &&& post.next_service_id == pre.next_service_id
    &&& post.current_block == pre.current_block
    &&& post.current_era == pre.current_era
    &&& post.next_slash_index == pre.next_slash_index
    &&& post.strict_id_narrowing == pre.strict_id_narrowing
}

/// The successful `submit_result` transition: the operator's result joins
/// the call's result set, at most once per operator.
pub open spec fn result_submitted(
    pre: State,
    post: State,
    who: Seq<u8>,
    service_id: u64,
    call_id: u64,
    outputs: Seq<Field>,
) -> bool {
    &&& exists|i: int, j: int|
        {
            &&& 0 <= i < pre.services@.len()
            &&& pre.services@[i].id == service_id
            &&& approvals_contain(pre.services@[i].operators@, who)
            &&& 0 <= j < pre.services@[i].calls@.len()
            &&& (#[trigger] pre.services@[i].calls@[j]).call_id == call_id
            &&& !results_contain(pre.services@[i].calls@[j].results@, who)
            &&& post.services@.len() == pre.services@.len()
            &&& forall|k: int|
                0 <= k < pre.services@.len() && k != i ==> post.services@[k] == pre.services@[k]
            &&& service_same_identity(post.services@[i], pre.services@[i])
            &&& post.services@[i].next_call_id == pre.services@[i].next_call_id
            &&& post.services@[i].calls@.len() == pre.services@[i].calls@.len()
            &&& forall|k: int|
                0 <= k < pre.services@[i].calls@.len() && k != j ==> post.services@[i].calls@[k]
                    == pre.services@[i].calls@[k]
            &&& post.services@[i].calls@[j].call_id == pre.services@[i].calls@[j].call_id
            &&& post.services@[i].calls@[j].job_index == pre.services@[i].calls@[j].job_index
            &&& post.services@[i].calls@[j].args == pre.services@[i].calls@[j].args
            &&& post.services@[i].calls@[j].results@.len() == pre.services@[i].calls@[
                j
            ].results@.len() + 1
            &&& post.services@[i].calls@[j].results@.subrange(
                0,
                pre.services@[i].calls@[j].results@.len() as int,
            ) == pre.services@[i].calls@[j].results@
            &&& post.services@[i].calls@[j].results@.last().operator@ == who
            &&& post.services@[i].calls@[j].results@.last().outputs@ == outputs
        }
    &&& log_extended(
        pre.events@,
        post.events@,
        EventView::JobResultSubmitted { operator: who, service_id, call_id },
    )
    &&& post.blueprints == pre.blueprints
    &&& post.registrations == pre.registrations
    &&& post.requests == pre.requests
    &&& post.slashes == pre.slashes
    &&& post.balances == pre.balances
    &&& post.stakes == pre.stakes
    &&& post.next_request_id == pre.next_request_id
    &&& post.next_service_id == pre.next_service_id
    &&& post.current_block == pre.current_block
    &&& post.current_era == pre.current_era
    &&& post.next_slash_index == pre.next_slash_index
    &&& post.strict_id_narrowing == pre.strict_id_narrowing
}

impl State {
    /// Deletes an active service and returns its remaining escrowed value
    /// to the owner. Callable by the service's owner or by the force
    /// origin. Fails with `ServiceNotFound`, `Unauthorized`, or
    /// `ArithmeticOverflow` on a refund that would overflow; succeeds
    /// exactly otherwise.
    pub fn terminate(&mut self, origin: &Origin, service_id: u64) -> (r: Result<(), Error>)
        requires
            old(self).wf(),
        ensures
            final(self).wf(),
            r is Err ==> *final(self) == *old(self),
            match r {
                Ok(_) => terminated(*old(self), *final(self), *origin, service_id),
                Err(e) => terminate_refused(*old(self), *origin, service_id, e),
            },
    {
        let idx = match self.find_service(service_id) {
            Some(i) => i,
            None => {
                return Err(Error::ServiceNotFound);
            },
        };
        proof {
            assert forall|i: int|
                0 <= i < old(self).services@.len() && (#[trigger] old(self).services@[i]).id
                    == service_id implies i == idx by {
                assert(old(self).wf_services());
            }
        }
        let authorized = match origin {
            Origin::Root => true,
            Origin::Signed(who) => account_eq(who, &self.services[idx].owner),
        };
        if !authorized {
            return Err(Error::Unauthorized);
        }
        let value = self.services[idx].value;
        let owner = clone_account(&self.services[idx].owner);
        match credit(&mut self.balances, &owner, value) {
            Ok(_) => {},
            Err(_) => {
                proof {
                    assert(old(self).services@[idx as int].id == service_id);
                    assert(balance_of(
                        old(self).balances@,
                        old(self).services@[idx as int].owner@,
                    ) + old(self).services@[idx as int].value > u128::MAX);
                }
                return Err(Error::ArithmeticOverflow);
            },
        }
        self.services.remove(idx);
        self.events.push(Event::ServiceTerminated { service_id });
        proof {
            assert(self.events@.subrange(0, old(self).events@.len() as int) =~= old(self).events@);
        }
        Ok(())
    }

    /// Records a job call within an active service. Fails with
    /// `ServiceNotFound`, `CallerNotPermitted`, `InvalidJobIndex`,
    /// `TypeCheck` when the arguments miss the job's schema, or
    /// `ArithmeticOverflow` when the call id space is exhausted; on success
    /// returns the freshly allocated call id.
    pub fn call(&mut self, signer: &Account, service_id: u64, job: u8, args: Vec<Field>) -> (r:
        Result<u64, Error>)
        requires
            old(self).wf(),
        ensures
            final(self).wf(),
            r is Err ==> *final(self) == *old(self),
            match r {
                Ok(call_id) => job_called(
                    *old(self),
                    *final(self),
                    signer@,
                    service_id,
                    job,
                    args@,
                    call_id,
                ),
                Err(e) => call_refused(*old(self), signer@, service_id, job, args@, e),
            },
    {
        let idx = match self.find_service(service_id) {
            Some(i) => i,
            None => {
                return Err(Error::ServiceNotFound);
            },
        };
        proof {
            assert forall|i: int|
                0 <= i < old(self).services@.len() && (#[trigger] old(self).services@[i]).id
                    == service_id implies i == idx by {
                assert(old(self).wf_services());
            }
            assert(service_wf(
                old(self).services@[idx as int],
                old(self).blueprints@.len() as int,
                old(self).next_service_id,
            ));
        }
        if find_account(&self.services[idx].permitted_callers, signer).is_none() {
            return Err(Error::CallerNotPermitted);
        }
        let blueprint_id = self.services[idx].blueprint_id;
        proof {
            assert(self.blueprints.len() == self.blueprints@.len());
            assert((blueprint_id as int) < self.blueprints@.len());
        }
        let n_jobs = self.blueprints[blueprint_id as usize].blueprint.jobs.len();
        if (job as usize) >= n_jobs {
            return Err(Error::InvalidJobIndex);
        }
        let schema_ok = crate::types::check_fields(
            &args,
            &self.blueprints[blueprint_id as usize].blueprint.jobs[job as usize].params,
        );
        if !schema_ok {
            return Err(Error::TypeCheck);
        }
        if self.services[idx].next_call_id == u64::MAX {
            proof {
                assert(old(self).services@[idx as int].id == service_id);
                assert(old(self).services@[idx as int].next_call_id == u64::MAX);
            }
            return Err(Error::ArithmeticOverflow);
        }
        let caller = clone_account(signer);
        let mut service = self.services.remove(idx);
        let call_id = service.next_call_id;
        service.next_call_id = call_id + 1;
        service.calls.push(JobCallRecord { call_id, job_index: job, args, results: Vec::new() });
        proof {
            assert(service.calls@.subrange(
                0,
                old(self).services@[idx as int].calls@.len() as int,
            ) =~= old(self).services@[idx as int].calls@);
        }
        self.services.insert(idx, service);
        self.events.push(Event::JobCalled { caller, service_id, call_id, job });
        proof {
            assert(self.services@ =~= old(self).services@.update(
                idx as int,
                self.services@[idx as int],
            ));
            assert(self.events@.subrange(0, old(self).events@.len() as int) =~= old(self).events@);
        }
        Ok(call_id)
    }

    /// Records one operator's result for an open job call. Fails with
    /// `ServiceNotFound`, `Unauthorized` for a caller that is not one of
    /// the service's operators, `CallNotFound`, or `DuplicateResult`;
    /// succeeds exactly otherwise.
    pub fn submit_result(
        &mut self,
        signer: &Account,
        service_id: u64,
        call_id: u64,
        outputs: Vec<Field>,
    ) -> (r: Result<(), Error>)
        requires
            old(self).wf(),
        ensures
            final(self).wf(),
            r is Err ==> *final(self) == *old(self),
            match r {
                Ok(_) => result_submitted(
                    *old(self),
                    *final(self),
                    signer@,
                    service_id,
                    call_id,
                    outputs@,
                ),
                Err(e) => submit_result_refused(*old(self), signer@, service_id, call_id, e),
            },
    {
        let idx = match self.find_service(service_id) {
            Some(i) => i,
            None => {
                return Err(Error::ServiceNotFound);
            },
        };
        proof {
            assert forall|i: int|
                0 <= i < old(self).services@.len() && (#[trigger] old(self).services@[i]).id
                    == service_id implies i == idx by {
                assert(old(self).wf_services());
            }
            assert(service_wf(
                old(self).services@[idx as int],
                old(self).blueprints@.len() as int,
                old(self).next_service_id,
            ));
        }
        if find_approval(&self.services[idx].operators, signer).is_none() {
            return Err(Error::Unauthorized);
        }
        let cidx = match find_call(&self.services[idx].calls, call_id) {
            Some(j) => j,
            None => {
                return Err(Error::CallNotFound);
            },
        };
        proof {
            assert forall|j: int|
                0 <= j < old(self).services@[idx as int].calls@.len() && (#[trigger] old(
                    self,
                ).services@[idx as int].calls@[j]).call_id == call_id implies j == cidx by {}
        }
        if find_result(&self.services[idx].calls[cidx].results, signer).is_some() {
            return Err(Error::DuplicateResult);
        }
        let operator = clone_account(signer);
        let mut service = self.services.remove(idx);
        let mut call = service.calls.remove(cidx);
        call.results.push(JobResult { operator, outputs });
        proof {
            assert(call.results@.subrange(
                0,
                old(self).services@[idx as int].calls@[cidx as int].results@.len() as int,
            ) =~= old(self).services@[idx as int].calls@[cidx as int].results@);
        }
        service.calls.insert(cidx, call);
        proof {
            assert(service.calls@ =~= old(self).services@[idx as int].calls@.update(
                cidx as int,
                service.calls@[cidx as int],
            ));
        }
        self.services.insert(idx, service);
        let ev_op = clone_account(signer);
        self.events.push(Event::JobResultSubmitted { operator: ev_op, service_id, call_id });
        proof {
            assert(self.services@ =~= old(self).services@.update(
                idx as int,
                self.services@[idx as int],
            ));
            assert(self.events@.subrange(0, old(self).events@.len() as int) =~= old(self).events@);
        }
        Ok(())
    }
}

} // verus!
