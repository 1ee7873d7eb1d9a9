//! The native command surface: one closed tagged-variant command per
//! marketplace operation, dispatched through a single `apply` entry point
//! that switches exhaustively on the variant.
use vstd::prelude::*;
use crate::registry::{created_blueprint, registered, unregistered};
use crate::requests::{approved, rejected, requested};
use crate::services::{job_called, result_submitted, terminated};
use crate::slashing::{slash_disputed, slash_scheduled};
use crate::state::State;
use crate::types::{
    Account, Balance, Error, Field, Origin, Preferences, from_percent, spec_clamp_percent,
};

verus! {

/// One marketplace command, carrying strongly-typed arguments. The signer
/// comes separately, as the dispatch origin.
pub enum Command {
    CreateBlueprint { blueprint: crate::types::Blueprint },
    Register {
        blueprint_id: u64,
        preferences: Preferences,
        registration_args: Vec<Field>,
        value: Balance,
    },
    Unregister { blueprint_id: u64 },
    Request {
        blueprint_id: u64,
        permitted_callers: Vec<Account>,
        operators: Vec<Account>,
        ttl: u64,
        assets: Vec<u32>,
        request_args: Vec<Field>,
        value: Balance,
    },
    Approve { request_id: u64, restaking_percent: u8 },
    Reject { request_id: u64 },
    Terminate { service_id: u64 },
    Call { service_id: u64, job: u8, args: Vec<Field> },
    SubmitResult { service_id: u64, call_id: u64, result: Vec<Field> },
    Slash { offender: Account, service_id: u64, percent: u8 },
    Dispute { era: u32, index: u32 },
}

impl State {
    /// Applies one command as an atomic state transition: on failure the
    /// state, including the event log, is exactly as before. Commands that
    /// need a signed caller fail with `Unauthorized` under the root
    /// origin; caller-supplied percentages are clamped to at most one
    /// hundred. The events of a successful command are appended to the
    /// state's log.
    pub fn apply(&mut self, origin: &Origin, cmd: Command) -> (r: Result<(), Error>)
        requires
            old(self).wf(),
        ensures
            final(self).wf(),
            r is Err ==> *final(self) == *old(self),
            r is Err ==> match cmd {
                Command::CreateBlueprint { blueprint } => match *origin {
                    Origin::Root => r->Err_0 == Error::Unauthorized,
                    Origin::Signed(who) => crate::registry::create_blueprint_refused(
                        *old(self),
                        blueprint,
                        r->Err_0,
                    ),
                },
                Command::Register { blueprint_id, preferences, registration_args, value } => (
                match *origin {
                    Origin::Root => r->Err_0 == Error::Unauthorized,
                    Origin::Signed(who) => crate::registry::register_refused(
                        *old(self),
                        who@,
                        blueprint_id,
                        preferences,
                        registration_args@,
                        value,
                        r->Err_0,
                    ),
                }),
                Command::Unregister { blueprint_id } => match *origin {
                    Origin::Root => r->Err_0 == Error::Unauthorized,
                    Origin::Signed(who) => crate::registry::unregister_refused(
                        *old(self),
                        who@,
                        blueprint_id,
                        r->Err_0,
                    ),
                },
                Command::Request {
                    blueprint_id,
                    permitted_callers,
                    operators,
                    ttl,
                    assets,
                    request_args,
                    value,
                } => match *origin {
                    Origin::Root => r->Err_0 == Error::Unauthorized,
                    Origin::Signed(who) => crate::requests::request_refused(
                        *old(self),
                        who@,
                        blueprint_id,
                        permitted_callers@,
                        operators@,
                        ttl,
                        assets@,
                        request_args@,
                        value,
                        r->Err_0,
                    ),
                },
                Command::Approve { request_id, restaking_percent } => match *origin {
                    Origin::Root => r->Err_0 == Error::Unauthorized,
                    Origin::Signed(who) => crate::requests::approve_refused(
                        *old(self),
                        who@,
                        request_id,
                        r->Err_0,
                    ),
                },
                Command::Reject { request_id } => match *origin {
                    Origin::Root => r->Err_0 == Error::Unauthorized,
                    Origin::Signed(who) => crate::requests::reject_refused(
                        *old(self),
                        who@,
                        request_id,
                        r->Err_0,
                    ),
                },
                Command::Terminate { service_id } => crate::services::terminate_refused(
                    *old(self),
                    *origin,
                    service_id,
                    r->Err_0,
                ),
                Command::Call { service_id, job, args } => match *origin {
                    Origin::Root => r->Err_0 == Error::Unauthorized,
                    Origin::Signed(who) => crate::services::call_refused(
                        *old(self),
                        who@,
                        service_id,
                        job,
                        args@,
                        r->Err_0,
                    ),
                },
                Command::SubmitResult { service_id, call_id, result } => match *origin {
                    Origin::Root => r->Err_0 == Error::Unauthorized,
                    Origin::Signed(who) => crate::services::submit_result_refused(
                        *old(self),
                        who@,
                        service_id,
                        call_id,
                        r->Err_0,
                    ),
                },
                Command::Slash { offender, service_id, percent } => (
                crate::slashing::slash_refused(
                    *old(self),
                    *origin,
                    offender@,
                    service_id,
                    r->Err_0,
                )),
                Command::Dispute { era, index } => crate::slashing::dispute_refused(
                    *old(self),
                    *origin,
                    era,
                    index,
                    r->Err_0,
                ),
            },
            r is Ok ==> match cmd {
                Command::CreateBlueprint { blueprint } => exists|who: Account, id: u64|
                    *origin == Origin::Signed(who) && #[trigger] created_blueprint(
                        *old(self),
                        *final(self),
                        who@,
                        blueprint,
                        id,
                    ),
                Command::Register { blueprint_id, preferences, registration_args, value } => (
                exists|who: Account|
                    *origin == Origin::Signed(who) && #[trigger] registered(
                        *old(self),
                        *final(self),
                        who@,
                        blueprint_id,
                        preferences,
                        registration_args@,
                        value,
                    )),
                Command::Unregister { blueprint_id } => exists|who: Account|
                    *origin == Origin::Signed(who) && #[trigger] unregistered(
                        *old(self),
                        *final(self),
                        who@,
                        blueprint_id,
                    ),
                Command::Request {
                    blueprint_id,
                    permitted_callers,
                    operators,
                    ttl,
                    assets,
                    request_args,
                    value,
                } => exists|who: Account, id: u64|
                    *origin == Origin::Signed(who) && #[trigger] requested(
                        *old(self),
                        *final(self),
                        who@,
                        blueprint_id,
                        permitted_callers@,
                        operators@,
                        ttl,
                        assets@,
                        value,
                        id,
                    ),
                Command::Approve { request_id, restaking_percent } => exists|who: Account|
                    *origin == Origin::Signed(who) && #[trigger] approved(
                        *old(self),
                        *final(self),
                        who@,
                        request_id,
                        spec_clamp_percent(restaking_percent),
                    ),
                Command::Reject { request_id } => exists|who: Account|
                    *origin == Origin::Signed(who) && #[trigger] rejected(
                        *old(self),
                        *final(self),
                        who@,
                        request_id,
                    ),
                Command::Terminate { service_id } => terminated(
                    *old(self),
                    *final(self),
                    *origin,
                    service_id,
                ),
                Command::Call { service_id, job, args } => exists|who: Account, call_id: u64|
                    *origin == Origin::Signed(who) && #[trigger] job_called(
                        *old(self),
                        *final(self),
                        who@,
                        service_id,
                        job,
                        args@,
                        call_id,
                    ),
                Command::SubmitResult { service_id, call_id, result } => exists|who: Account|
                    *origin == Origin::Signed(who) && #[trigger] result_submitted(
                        *old(self),
                        *final(self),
                        who@,
                        service_id,
                        call_id,
                        result@,
                    ),
                Command::Slash { offender, service_id, percent } => exists|index: u32|
                    #[trigger] slash_scheduled(
                        *old(self),
                        *final(self),
                        *origin,
                        offender@,
                        service_id,
                        spec_clamp_percent(percent),
                        index,
                    ),
                Command::Dispute { era, index } => slash_disputed(
                    *old(self),
                    *final(self),
                    *origin,
                    era,
                    index,
                ),
            },
    {
        match cmd {
            Command::CreateBlueprint { blueprint } => {
                match origin {
                    Origin::Signed(who) => match self.create_blueprint(who, blueprint) {
                        Ok(_) => Ok(()),
                        Err(e) => Err(e),
                    },
                    Origin::Root => Err(Error::Unauthorized),
                }
            },
            Command::Register { blueprint_id, preferences, registration_args, value } => {
                match origin {
                    Origin::Signed(who) => self.register(
                        who,
                        blueprint_id,
                        preferences,
                        registration_args,
                        value,
                    ),
                    Origin::Root => Err(Error::Unauthorized),
                }
            },
            Command::Unregister { blueprint_id } => {
                match origin {
                    Origin::Signed(who) => self.unregister(who, blueprint_id),
                    Origin::Root => Err(Error::Unauthorized),
                }
            },
            Command::Request {
                blueprint_id,
                permitted_callers,
                operators,
                ttl,
                assets,
                request_args,
                value,
            } => {
                match origin {
                    Origin::Signed(who) => match self.request(
                        who,
                        blueprint_id,
                        permitted_callers,
                        operators,
                        ttl,
                        assets,
                        request_args,
                        value,
                    ) {
                        Ok(_) => Ok(()),
                        Err(e) => Err(e),
                    },
                    Origin::Root => Err(Error::Unauthorized),
                }
            },
            Command::Approve { request_id, restaking_percent } => {
                match origin {
                    Origin::Signed(who) => {
                        let pct = from_percent(restaking_percent);
                        self.approve(who, request_id, pct)
                    },
                    Origin::Root => Err(Error::Unauthorized),
                }
            },
            Command::Reject { request_id } => {
                match origin {
                    Origin::Signed(who) => self.reject(who, request_id),
                    Origin::Root => Err(Error::Unauthorized),
                }
            },
            Command::Terminate { service_id } => self.terminate(origin, service_id),
            Command::Call { service_id, job, args } => {
                match origin {
                    Origin::Signed(who) => match self.call(who, service_id, job, args) {
                        Ok(_) => Ok(()),
                        Err(e) => Err(e),
                    },
                    Origin::Root => Err(Error::Unauthorized),
                }
            },
            Command::SubmitResult { service_id, call_id, result } => {
                match origin {
                    Origin::Signed(who) => self.submit_result(who, service_id, call_id, result),
                    Origin::Root => Err(Error::Unauthorized),
                }
            },
            Command::Slash { offender, service_id, percent } => {
                let pct = from_percent(percent);
                match self.slash(origin, &offender, service_id, pct) {
                    Ok(_) => Ok(()),
                    Err(e) => Err(e),
                }
            },
            Command::Dispute { era, index } => self.dispute(origin, era, index),
        }
    }
}

} // verus!
