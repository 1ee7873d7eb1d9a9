//! Blueprint registry and operator directory: publishing blueprints,
//! registering and unregistering operators.
use vstd::prelude::*;
use crate::events::{Event, EventView, log_extended};
use crate::ledger::{credit, debit};
use crate::state::{Approval, Registration, State, approvals_contain, balance_of, BlueprintRecord};
use crate::types::{
    Account, Balance, Blueprint, Error, Field, Preferences, account_eq, clone_account,
    fields_match_schema, MAX_FIELDS_SIZE,
};

verus! {

/// Whether `who` is currently bound as an operator into a live service of
/// the given blueprint.
pub open spec fn operator_bound_in_service(s: State, blueprint_id: u64, who: Seq<u8>) -> bool {
    exists|i: int|
        0 <= i < s.services@.len() && s.services@[i].blueprint_id == blueprint_id
            && approvals_contain(s.services@[i].operators@, who)
}

/// Looks up the approval of `who` in an approval list.
pub fn find_approval(v: &Vec<Approval>, who: &Account) -> (r: Option<usize>)
    ensures
        match r {
            Some(i) => i < v@.len() && v@[i as int].operator@ == who@,
            None => !approvals_contain(v@, who@),
        },
{
    let n = v.len();
    let mut i: usize = 0;
    while i < n
        invariant
            n == v@.len(),
            i <= n,
            forall|j: int| 0 <= j < i ==> v@[j].operator@ != who@,
        decreases n - i,
    {
        if account_eq(&v[i].operator, who) {
            return Some(i);
        }
        i += 1;
    }
    None
}

/// Exactly when and why `create_blueprint` is refused.
pub open spec fn create_blueprint_refused(pre: State, blueprint: Blueprint, e: Error) -> bool {
    &&& !blueprint.within_bounds()
    &&& e == Error::OutOfBounds
}

/// Exactly when and why `register` is refused, in check order.
pub open spec fn register_refused(
    pre: State,
    who: Seq<u8>,
    blueprint_id: u64,
    preferences: Preferences,
    args: Seq<Field>,
    value: Balance,
    e: Error,
) -> bool {
    if (blueprint_id as int) >= pre.blueprints@.len() {
        e == Error::UnknownBlueprint
    } else if pre.is_registered(blueprint_id, who) {
        e == Error::AlreadyRegistered
    } else if preferences@.len() > MAX_FIELDS_SIZE as int {
        e == Error::OutOfBounds
    } else if !fields_match_schema(
        args,
        pre.blueprints@[blueprint_id as int].blueprint.registration_params@,
    ) {
        e == Error::TypeCheck
    } else {
        &&& e == Error::InsufficientBalance
        &&& balance_of(pre.balances@, who) < value
    }
}

/// Exactly when and why `unregister` is refused, in check order.
pub open spec fn unregister_refused(pre: State, who: Seq<u8>, blueprint_id: u64, e: Error) -> bool {
    if !pre.is_registered(blueprint_id, who) {
        e == Error::NotRegistered
    } else if operator_bound_in_service(pre, blueprint_id, who) {
        e == Error::HasActiveServices
    } else {
        &&& e == Error::ArithmeticOverflow
        &&& exists|i: int|
            0 <= i < pre.registrations@.len() && (#[trigger] pre.registrations@[i]).blueprint_id
                == blueprint_id && pre.registrations@[i].operator@ == who && balance_of(
                pre.balances@,
                who,
            ) + pre.registrations@[i].bond > u128::MAX
    }
}

/// The successful `create_blueprint` transition: the blueprint is stored
/// immutably under the next monotonically assigned id, and nothing else
/// changes.
pub open spec fn created_blueprint(
    pre: State,
    post: State,
    owner: Seq<u8>,
    blueprint: Blueprint,
    id: u64,
) -> bool {
    &&& blueprint.within_bounds()
    &&& id as int == pre.blueprints@.len()
    &&& post.blueprints@.len() == pre.blueprints@.len() + 1
    &&& post.blueprints@.subrange(0, pre.blueprints@.len() as int) == pre.blueprints@
    &&& post.blueprints@[id as int].owner@ == owner
    &&& post.blueprints@[id as int].blueprint == blueprint
    &&& log_extended(
        pre.events@,
        post.events@,
        EventView::BlueprintCreated { owner, blueprint_id: id },
    )
    &&& post.registrations == pre.registrations
    &&& post.requests == pre.requests
    &&& post.services == pre.services
    &&& post.slashes == pre.slashes
    &&& post.balances == pre.balances
    &&& post.stakes == pre.stakes
    &&& post.next_request_id == pre.next_request_id
    &&& post.next_service_id == pre.next_service_id
    &&& post.current_block == pre.current_block
    &&& post.current_era == pre.current_era
    &&& post.next_slash_index == pre.next_slash_index
    &&& post.strict_id_narrowing == pre.strict_id_narrowing
}

/// The successful `register` transition: the registration is recorded and
/// the bond `value` is taken out of the operator's free balance.
pub open spec fn registered(
    pre: State,
    post: State,
    who: Seq<u8>,
    blueprint_id: u64,
    preferences: Preferences,
    args: Seq<Field>,
    value: Balance,
) -> bool {
    &&& (blueprint_id as int) < pre.blueprints@.len()
    &&& !pre.is_registered(blueprint_id, who)
    &&& fields_match_schema(args, pre.blueprints@[blueprint_id as int].blueprint.registration_params@)
    &&& preferences@.len() <= MAX_FIELDS_SIZE as int
    &&& balance_of(pre.balances@, who) >= value
    &&& post.registrations@.len() == pre.registrations@.len() + 1
    &&& post.registrations@.subrange(0, pre.registrations@.len() as int) == pre.registrations@
    &&& {
        let reg = post.registrations@.last();
        &&& reg.blueprint_id == blueprint_id
        &&& reg.operator@ == who
        &&& reg.preferences@ == preferences@
        &&& reg.args@ == args
        &&& reg.bond == value
    }
    &&& balance_of(post.balances@, who) == balance_of(pre.balances@, who) - value
    &&& forall|w: Seq<u8>|
        w != who ==> #[trigger] balance_of(post.balances@, w) == balance_of(pre.balances@, w)
    &&& post.balances@.len() == pre.balances@.len()
    &&& log_extended(
        pre.events@,
        post.events@,
        EventView::OperatorRegistered { operator: who, blueprint_id },
    )
    &&& post.blueprints == pre.blueprints
    &&& post.requests == pre.requests
    &&& post.services == pre.services
    &&& post.slashes == pre.slashes
    &&& post.stakes == pre.stakes
    &&& post.next_request_id == pre.next_request_id
    &&& post.next_service_id == pre.next_service_id
    &&& post.current_block == pre.current_block
    &&& post.current_era == pre.current_era
    &&& post.next_slash_index == pre.next_slash_index
    &&& post.strict_id_narrowing == pre.strict_id_narrowing
}

/// The successful `unregister` transition: the registration disappears and
/// its bond returns to the operator's free balance.
pub open spec fn unregistered(pre: State, post: State, who: Seq<u8>, blueprint_id: u64) -> bool {
    &&& pre.is_registered(blueprint_id, who)
    &&& !operator_bound_in_service(pre, blueprint_id, who)
    &&& exists|i: int|
        {
            &&& 0 <= i < pre.registrations@.len()
            &&& (#[trigger] pre.registrations@[i]).blueprint_id == blueprint_id
            &&& pre.registrations@[i].operator@ == who
            &&& post.registrations@ == pre.registrations@.remove(i)
            &&& balance_of(post.balances@, who) == balance_of(pre.balances@, who)
                + pre.registrations@[i].bond
        }
    &&& forall|w: Seq<u8>|
        w != who ==> #[trigger] balance_of(post.balances@, w) == balance_of(pre.balances@, w)
    &&& log_extended(
        pre.events@,
        post.events@,
        EventView::OperatorUnregistered { operator: who, blueprint_id },
    )
    &&& post.blueprints == pre.blueprints
    &&& post.requests == pre.requests
    &&& post.services == pre.services
    &&& post.slashes == pre.slashes
    &&& post.stakes == pre.stakes
    &&& post.next_request_id == pre.next_request_id
    &&& post.next_service_id == pre.next_service_id
    &&& post.current_block == pre.current_block
    &&& post.current_era == pre.current_era
    &&& post.next_slash_index == pre.next_slash_index
    &&& post.strict_id_narrowing == pre.strict_id_narrowing
}

impl State {
    /// Publishes an immutable blueprint. Fails with `OutOfBounds` exactly
    /// when a configured size bound is exceeded; otherwise allocates the
    /// next `BlueprintId` and stores the blueprint, which can never be
    /// updated or deleted.
    pub fn create_blueprint(&mut self, signer: &Account, blueprint: Blueprint) -> (r: Result<
        u64,
        Error,
    >)
        requires
            old(self).wf(),
        ensures
            final(self).wf(),
            match r {
                Ok(id) => created_blueprint(*old(self), *final(self), signer@, blueprint, id),
                Err(e) => {
                    &&& *final(self) == *old(self)
                    &&& create_blueprint_refused(*old(self), blueprint, e)
                },
            },
    {
        if !crate::types::check_blueprint_bounds(&blueprint) {
            return Err(Error::OutOfBounds);
        }
        let id = self.blueprints.len() as u64;
        let owner = clone_account(signer);
        self.blueprints.push(BlueprintRecord { owner, blueprint });
        let ev_owner = clone_account(signer);
        self.events.push(Event::BlueprintCreated { owner: ev_owner, blueprint_id: id });
        proof {
            assert(self.blueprints@.subrange(0, old(self).blueprints@.len() as int) =~= old(
                self,
            ).blueprints@);
            assert(self.events@.subrange(0, old(self).events@.len() as int) =~= old(self).events@);
        }
        Ok(id)
    }

    /// Registers the caller as an operator for a blueprint, bonding `value`.
    /// Fails with `UnknownBlueprint`, `AlreadyRegistered`, `OutOfBounds` on
    /// an oversized preferences blob, `TypeCheck` when the arguments do not
    /// match the blueprint's registration schema, or `InsufficientBalance`
    /// — in that order, and succeeds exactly when none of these holds.
    pub fn register(
        &mut self,
        signer: &Account,
        blueprint_id: u64,
        preferences: Preferences,
        registration_args: Vec<Field>,
        value: Balance,
    ) -> (r: Result<(), Error>)
        requires
            old(self).wf(),
        ensures
            final(self).wf(),
            r is Err ==> *final(self) == *old(self),
            match r {
                Ok(_) => registered(
                    *old(self),
                    *final(self),
                    signer@,
                    blueprint_id,
                    preferences,
                    registration_args@,
                    value,
                ),
                Err(e) => register_refused(
                    *old(self),
                    signer@,
                    blueprint_id,
                    preferences,
                    registration_args@,
                    value,
                    e,
                ),
            },
    {
        if blueprint_id >= self.blueprints.len() as u64 {
            return Err(Error::UnknownBlueprint);
        }
        if self.find_registration(blueprint_id, signer).is_some() {
            return Err(Error::AlreadyRegistered);
        }
        if preferences.key.len() > MAX_FIELDS_SIZE {
            return Err(Error::OutOfBounds);
        }
        let schema_ok = crate::types::check_fields(
            &registration_args,
            &self.blueprints[blueprint_id as usize].blueprint.registration_params,
        );
        if !schema_ok {
            return Err(Error::TypeCheck);
        }
        match debit(&mut self.balances, signer, value) {
            Ok(_) => {},
            Err(_) => {
                return Err(Error::InsufficientBalance);
            },
        }
        let operator = clone_account(signer);
        self.registrations.push(
            Registration {
                blueprint_id,
                operator,
                preferences,
                args: registration_args,
                bond: value,
            },
        );
        let ev_op = clone_account(signer);
        self.events.push(Event::OperatorRegistered { operator: ev_op, blueprint_id });
        proof {
            assert(self.registrations@.subrange(0, old(self).registrations@.len() as int) =~= old(
                self,
            ).registrations@);
            assert(self.events@.subrange(0, old(self).events@.len() as int) =~= old(self).events@);
        }
        Ok(())
    }

    /// Checks whether `who` is bound into any live service of a blueprint.
    pub fn operator_has_live_service(&self, blueprint_id: u64, who: &Account) -> (r: bool)
        ensures
            r == operator_bound_in_service(*self, blueprint_id, who@),
    {
        let n = self.services.len();
        let mut i: usize = 0;
        while i < n
            invariant
                n == self.services@.len(),
                i <= n,
                forall|j: int|
                    0 <= j < i ==> !(self.services@[j].blueprint_id == blueprint_id
                        && approvals_contain(self.services@[j].operators@, who@)),
            decreases n - i,
        {
            if self.services[i].blueprint_id == blueprint_id {
                if find_approval(&self.services[i].operators, who).is_some() {
                    return true;
                }
            }
            i += 1;
        }
        false
    }

    /// Removes the caller's registration for a blueprint and releases the
    /// held bond. Fails with `NotRegistered` when absent,
    /// `HasActiveServices` while the operator is bound into a live service
    /// of the blueprint, or `ArithmeticOverflow` when releasing the bond
    /// would overflow the free balance; succeeds exactly otherwise.
    pub fn unregister(&mut self, signer: &Account, blueprint_id: u64) -> (r: Result<(), Error>)
        requires
            old(self).wf(),
        ensures
            final(self).wf(),
            r is Err ==> *final(self) == *old(self),
            match r {
                Ok(_) => unregistered(*old(self), *final(self), signer@, blueprint_id),
                Err(e) => unregister_refused(*old(self), signer@, blueprint_id, e),
            },
    {
        let idx = match self.find_registration(blueprint_id, signer) {
            Some(i) => i,
            None => {
                return Err(Error::NotRegistered);
            },
        };
        if self.operator_has_live_service(blueprint_id, signer) {
            return Err(Error::HasActiveServices);
        }
        let bond = self.registrations[idx].bond;
        match credit(&mut self.balances, signer, bond) {
            Ok(_) => {},
            Err(_) => {
                proof {
                    assert(old(self).registrations@[idx as int].blueprint_id == blueprint_id);
                    assert(old(self).registrations@[idx as int].operator@ == signer@);
                    assert(balance_of(old(self).balances@, signer@) + old(
                        self,
                    ).registrations@[idx as int].bond > u128::MAX);
                }
                return Err(Error::ArithmeticOverflow);
            },
        }
        self.registrations.remove(idx);
        let ev_op = clone_account(signer);
        self.events.push(Event::OperatorUnregistered { operator: ev_op, blueprint_id });
        proof {
            assert(self.events@.subrange(0, old(self).events@.len() as int) =~= old(self).events@);
        }
        Ok(())
    }
}

} // verus!
