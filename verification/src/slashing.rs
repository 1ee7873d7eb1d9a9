//! Deferred slashing: accusations enter an era-indexed pending queue with a
//! stable `(era, index)` address, stay disputable for a fixed window of eras,
//! and are applied to the offender's stake only when the window elapses.
use vstd::prelude::*;
use crate::events::{Event, EventView, log_extended};
use crate::ledger::slash_stake;
use crate::registry::find_approval;
use crate::state::{State, UnappliedSlash, approvals_contain, slash_wf, stake_of};
use crate::types::{
    Account, Error, Origin, clone_account, origin_is_root, origin_signed_by, percent_of,
    spec_percent_of, SLASH_DEFER_DURATION,
};

verus! {

/// Whether a pending slash falls due once the current era is `new_era`: its
/// dispute window has been left behind.
pub open spec fn slash_due(s: UnappliedSlash, new_era: u32) -> bool {
    (s.era as int) + (SLASH_DEFER_DURATION as int) < (new_era as int)
}

/// The stake an identity `w` ends with after the due entries of a slash
/// queue are applied in order, each deducting its share of the recorded
/// exposure and stopping at zero.
pub open spec fn stake_after_slashes(
    initial: int,
    slashes: Seq<UnappliedSlash>,
    new_era: u32,
    w: Seq<u8>,
) -> int
    decreases slashes.len(),
{
    if slashes.len() == 0 {
        initial
    } else {
        let prev = stake_after_slashes(initial, slashes.drop_last(), new_era, w);
        let s = slashes.last();
        if slash_due(s, new_era) && s.offender@ == w {
            let amt = spec_percent_of(s.exposure, s.percent);
            if prev >= amt {
                prev - amt
            } else {
                0
            }
        } else {
            prev
        }
    }
}

/// Exactly when and why `slash` is refused, in check order.
pub open spec fn slash_refused(
    pre: State,
    origin: Origin,
    offender: Seq<u8>,
    service_id: u64,
    e: Error,
) -> bool {
    if !pre.has_service(service_id) {
        e == Error::ServiceNotFound
    } else if exists|i: int|
        0 <= i < pre.services@.len() && (#[trigger] pre.services@[i]).id == service_id && !(
        origin_is_root(origin) || origin_signed_by(
            origin,
            pre.blueprints@[pre.services@[i].blueprint_id as int].owner@,
        )) {
        e == Error::Unauthorized
    } else if exists|i: int|
        0 <= i < pre.services@.len() && (#[trigger] pre.services@[i]).id == service_id
            && !approvals_contain(pre.services@[i].operators@, offender) {
        e == Error::OperatorNotInService
    } else {
        &&& e == Error::ArithmeticOverflow
        &&& pre.next_slash_index == u32::MAX
    }
}

/// Exactly when and why `dispute` is refused, in check order.
pub open spec fn dispute_refused(pre: State, origin: Origin, era: u32, index: u32, e: Error) -> bool {
    if !pre.has_slash(era, index) {
        e == Error::SlashNotFound
    } else {
        &&& e == Error::Unauthorized
        &&& exists|i: int|
            0 <= i < pre.slashes@.len() && (#[trigger] pre.slashes@[i]).era == era
                && pre.slashes@[i].index == index && !(origin_is_root(origin) || origin_signed_by(
                origin,
                pre.blueprints@[pre.slashes@[i].blueprint_id as int].owner@,
            ))
    }
}

/// The successful `slash` transition: a pending entry with a fresh stable
/// address in the current era; no stake moves yet.
pub open spec fn slash_scheduled(
    pre: State,
    post: State,
    origin: Origin,
    offender: Seq<u8>,
    service_id: u64,
    percent: u8,
    index: u32,
) -> bool {
    &&& exists|i: int|
        {
            &&& 0 <= i < pre.services@.len()
            &&& (#[trigger] pre.services@[i]).id == service_id
            &&& (origin_is_root(origin) || origin_signed_by(
                origin,
                pre.blueprints@[pre.services@[i].blueprint_id as int].owner@,
            ))
            &&& approvals_contain(pre.services@[i].operators@, offender)
            &&& {
                let sl = post.slashes@.last();
                &&& sl.era == pre.current_era
                &&& sl.index == index
                &&& sl.offender@ == offender
                &&& sl.service_id == service_id
                &&& sl.blueprint_id == pre.services@[i].blueprint_id
                &&& sl.percent == percent
                &&& exists|j: int|
                    0 <= j < pre.services@[i].operators@.len() && (#[trigger] pre.services@[
                        i
                    ].operators@[j]).operator@ == offender && sl.exposure == pre.services@[
                        i
                    ].operators@[j].exposure
            }
        }
    &&& index == pre.next_slash_index
    &&& post.next_slash_index == pre.next_slash_index + 1
    &&& post.slashes@.len() == pre.slashes@.len() + 1
    &&& post.slashes@.subrange(0, pre.slashes@.len() as int) == pre.slashes@
    &&& log_extended(
        pre.events@,
        post.events@,
        EventView::SlashScheduled {
            offender,
            service_id,
            era: pre.current_era,
            index,
            percent,
        },
    )
    &&& post.blueprints == pre.blueprints
    &&& post.registrations == pre.registrations
    &&& post.requests == pre.requests
    &&& post.services == pre.services
    &&& post.balances == pre.balances
    &&& post.stakes == pre.stakes
    &&& post.next_request_id == pre.next_request_id
    &&& post.next_service_id == pre.next_service_id
    &&& post.current_block == pre.current_block
    &&& post.current_era == pre.current_era
    &&& post.strict_id_narrowing == pre.strict_id_narrowing
}

/// The successful `dispute` transition: the pending entry at `(era, index)`
/// vanishes for good; the offender's stake is untouched.
pub open spec fn slash_disputed(
    pre: State,
    post: State,
    origin: Origin,
    era: u32,
    index: u32,
) -> bool {
    &&& exists|i: int|
        {
            &&& 0 <= i < pre.slashes@.len()
            &&& (#[trigger] pre.slashes@[i]).era == era
            &&& pre.slashes@[i].index == index
            &&& (origin_is_root(origin) || origin_signed_by(
                origin,
                pre.blueprints@[pre.slashes@[i].blueprint_id as int].owner@,
            ))
            &&& post.slashes@ == pre.slashes@.remove(i)
        }
    &&& log_extended(pre.events@, post.events@, EventView::SlashDisputed { era, index })
    &&& post.blueprints == pre.blueprints
    &&& post.registrations == pre.registrations
    &&& post.requests == pre.requests
    &&& post.services == pre.services
    &&& post.balances == pre.balances
    &&& post.stakes == pre.stakes
    &&& post.next_request_id == pre.next_request_id
    &&& post.next_service_id == pre.next_service_id
    &&& post.current_block == pre.current_block
    &&& post.current_era == pre.current_era
    &&& post.next_slash_index == pre.next_slash_index
    &&& post.strict_id_narrowing == pre.strict_id_narrowing
}

/// The `advance_era` transition: the era counter steps, the per-era slash
/// index resets, exactly the entries whose dispute window has elapsed leave
/// the queue, and each applies its deduction to its offender's stake.
pub open spec fn era_advanced(pre: State, post: State) -> bool {
    &&& post.current_era == pre.current_era + 1
    &&& post.next_slash_index == 0
    &&& forall|k: int|
        0 <= k < post.slashes@.len() ==> !slash_due(#[trigger] post.slashes@[k], post.current_era)
            && exists|m: int| 0 <= m < pre.slashes@.len() && pre.slashes@[m] == post.slashes@[k]
    &&& forall|m: int|
        0 <= m < pre.slashes@.len() && !slash_due(#[trigger] pre.slashes@[m], post.current_era)
            ==> exists|k: int| 0 <= k < post.slashes@.len() && post.slashes@[k] == pre.slashes@[m]
    &&& forall|w: Seq<u8>|
        #[trigger] stake_of(post.stakes@, w) == stake_after_slashes(
            stake_of(pre.stakes@, w),
            pre.slashes@,
            post.current_era,
            w,
        )
    &&& post.stakes@.len() == pre.stakes@.len()
    &&& forall|k: int|
        0 <= k < pre.stakes@.len() ==> (#[trigger] post.stakes@[k]).operator@
            == pre.stakes@[k].operator@ && post.stakes@[k].active == pre.stakes@[k].active
    &&& post.events == pre.events
    &&& post.blueprints == pre.blueprints
    &&& post.registrations == pre.registrations
    &&& post.requests == pre.requests
    &&& post.services == pre.services
    &&& post.balances == pre.balances
    &&& post.next_request_id == pre.next_request_id
    &&& post.next_service_id == pre.next_service_id
    &&& post.current_block == pre.current_block
    &&& post.strict_id_narrowing == pre.strict_id_narrowing
}

impl State {
    /// Schedules a deferred slash of `percent` of the offender's recorded
    /// exposure for a service. Authorized for the owner of the service's
    /// blueprint or the force origin — a per-service check, not a
    /// chain-wide privilege. Does not touch stake: the entry waits at
    /// `(current_era, index)` through its dispute window. Fails with
    /// `ServiceNotFound`, `Unauthorized`, `OperatorNotInService`, or
    /// `ArithmeticOverflow` when the era's index counter is exhausted; on
    /// success returns the assigned index.
    pub fn slash(&mut self, origin: &Origin, offender: &Account, service_id: u64, percent: u8) -> (
        r: Result<u32, Error>)
        requires
            old(self).wf(),
            percent <= 100,
        ensures
            final(self).wf(),
            r is Err ==> *final(self) == *old(self),
            match r {
                Ok(index) => slash_scheduled(
                    *old(self),
                    *final(self),
                    *origin,
                    offender@,
                    service_id,
                    percent,
                    index,
                ),
                Err(e) => slash_refused(*old(self), *origin, offender@, service_id, e),
            },
    {
        let idx = match self.find_service(service_id) {
            Some(i) => i,
            None => {
                return Err(Error::ServiceNotFound);
            },
        };
        proof {
            assert forall|i: int|
                0 <= i < old(self).services@.len() && (#[trigger] old(self).services@[i]).id
                    == service_id implies i == idx by {
                assert(old(self).wf_services());
            }
            assert(self.blueprints.len() == self.blueprints@.len());
        }
        let blueprint_id = self.services[idx].blueprint_id;
        let authorized = match origin {
            Origin::Root => true,
            Origin::Signed(who) => crate::types::account_eq(
                who,
                &self.blueprints[blueprint_id as usize].owner,
            ),
        };
        if !authorized {
            return Err(Error::Unauthorized);
        }
        let aidx = match find_approval(&self.services[idx].operators, offender) {
            Some(j) => j,
            None => {
                return Err(Error::OperatorNotInService);
            },
        };
        if self.next_slash_index == u32::MAX {
            return Err(Error::ArithmeticOverflow);
        }
        let era = self.current_era;
        let index = self.next_slash_index;
        self.next_slash_index = index + 1;
        let exposure = self.services[idx].operators[aidx].exposure;
        let offender_copy = clone_account(offender);
        self.slashes.push(
            UnappliedSlash {
                era,
                index,
                offender: offender_copy,
                service_id,
                blueprint_id,
                percent,
                exposure,
            },
        );
        let ev_off = clone_account(offender);
        self.events.push(
            Event::SlashScheduled { offender: ev_off, service_id, era, index, percent },
        );
        proof {
            assert(self.slashes@.subrange(0, old(self).slashes@.len() as int) =~= old(
                self,
            ).slashes@);
            assert(self.events@.subrange(0, old(self).events@.len() as int) =~= old(self).events@);
        }
        Ok(index)
    }

    /// Cancels the pending slash at `(era, index)` for good — no partial
    /// dispute. Authorized for the owner of the accused service's blueprint
    /// or the force origin. Fails with `SlashNotFound` when no pending
    /// entry sits at that address, or `Unauthorized`; succeeds exactly
    /// otherwise.
    pub fn dispute(&mut self, origin: &Origin, era: u32, index: u32) -> (r: Result<(), Error>)
        requires
            old(self).wf(),
        ensures
            final(self).wf(),
            r is Err ==> *final(self) == *old(self),
            match r {
                Ok(_) => slash_disputed(*old(self), *final(self), *origin, era, index),
                Err(e) => dispute_refused(*old(self), *origin, era, index, e),
            },
    {
        let idx = match self.find_slash(era, index) {
            Some(i) => i,
            None => {
                return Err(Error::SlashNotFound);
            },
        };
        proof {
            assert(old(self).wf_slashes());
            assert(self.blueprints.len() == self.blueprints@.len());
            assert(slash_wf(
                old(self).slashes@[idx as int],
                old(self).blueprints@.len() as int,
                old(self).current_era,
                old(self).next_slash_index,
            ));
        }
        let blueprint_id = self.slashes[idx].blueprint_id;
        let authorized = match origin {
            Origin::Root => true,
            Origin::Signed(who) => crate::types::account_eq(
                who,
                &self.blueprints[blueprint_id as usize].owner,
            ),
        };
        if !authorized {
            return Err(Error::Unauthorized);
        }
        self.slashes.remove(idx);
        self.events.push(Event::SlashDisputed { era, index });
        proof {
            assert(self.events@.subrange(0, old(self).events@.len() as int) =~= old(self).events@);
        }
        Ok(())
    }

    /// The era-rotation hook: steps the current era, resets the per-era
    /// slash index, and finalizes exactly the pending slashes whose dispute
    /// window has elapsed, reducing each offender's tracked stake by its
    /// recorded share. Fails only when the era counter would wrap.
    #[verifier::rlimit(60)]
    pub fn advance_era(&mut self) -> (r: Result<(), Error>)
        requires
            old(self).wf(),
        ensures
            final(self).wf(),
            r is Err ==> *final(self) == *old(self) && r == Err::<(), Error>(
                Error::ArithmeticOverflow,
            ) && old(self).current_era == u32::MAX,
            r is Ok ==> era_advanced(*old(self), *final(self)),
    {
        if self.current_era == u32::MAX {
            return Err(Error::ArithmeticOverflow);
        }
        let new_era = self.current_era + 1;
        self.current_era = new_era;
        self.next_slash_index = 0;
        let ghost pre_slashes = self.slashes@;
        let ghost pre_stakes = self.stakes@;
        let mut processed: usize = 0;
        let ghost n = self.slashes@.len();
        proof {
            assert(self.slashes.len() == self.slashes@.len());
        }
        let mut i: usize = 0;
        while i < self.slashes.len()
            invariant
                i <= processed,
                processed <= n,
                n <= usize::MAX,
                n == pre_slashes.len(),
                i as int == self.slashes@.len() - (n - processed),
                self.wf_accounts(),
                self.slashes@.subrange(i as int, self.slashes@.len() as int) =~= pre_slashes.subrange(
                    processed as int,
                    n as int,
                ),
                forall|k: int|
                    0 <= k < i ==> !slash_due(#[trigger] self.slashes@[k], new_era) && exists|m: int|
                        0 <= m < processed && pre_slashes[m] == self.slashes@[k],
                forall|m: int|
                    0 <= m < processed && !slash_due(#[trigger] pre_slashes[m], new_era)
                        ==> exists|k: int| 0 <= k < i && self.slashes@[k] == pre_slashes[m],
                forall|w: Seq<u8>|
                    #[trigger] stake_of(self.stakes@, w) == stake_after_slashes(
                        stake_of(pre_stakes, w),
                        pre_slashes.subrange(0, processed as int),
                        new_era,
                        w,
                    ),
                self.stakes@.len() == pre_stakes.len(),
                forall|k: int|
                    0 <= k < pre_stakes.len() ==> (#[trigger] self.stakes@[k]).operator@
                        == pre_stakes[k].operator@ && self.stakes@[k].active
                        == pre_stakes[k].active,
                forall|a: int, b: int|
                    0 <= a < b < self.slashes@.len() ==> !(self.slashes@[a].era
                        == self.slashes@[b].era && self.slashes@[a].index
                        == self.slashes@[b].index),
                forall|k: int|
                    0 <= k < self.slashes@.len() ==> slash_wf(
                        #[trigger] self.slashes@[k],
                        self.blueprints@.len() as int,
                        old(self).current_era,
                        old(self).next_slash_index,
                    ),
                self.current_era == new_era,
                new_era == old(self).current_era + 1,
                self.next_slash_index == 0,
                self.blueprints == old(self).blueprints,
                self.registrations == old(self).registrations,
                self.requests == old(self).requests,
                self.services == old(self).services,
                self.balances == old(self).balances,
                self.events == old(self).events,
                self.next_request_id == old(self).next_request_id,
                self.next_service_id == old(self).next_service_id,
                self.current_block == old(self).current_block,
                self.strict_id_narrowing == old(self).strict_id_narrowing,
            decreases n - processed,
    {
            proof {
                assert(self.slashes@.subrange(i as int, self.slashes@.len() as int)[0]
                    == pre_slashes.subrange(processed as int, n as int)[0]);
                assert(self.slashes@[i as int] == pre_slashes[processed as int]);
            }
            let ghost before = self.slashes@;
            let s_era = self.slashes[i].era;
            let due = (s_era as u64) + (SLASH_DEFER_DURATION as u64) < (new_era as u64);
            if due {
                let amount = percent_of(self.slashes[i].exposure, self.slashes[i].percent);
                let offender = clone_account(&self.slashes[i].offender);
                self.slashes.remove(i);
                slash_stake(&mut self.stakes, &offender, amount);
                proof {
                    let prefix_new = pre_slashes.subrange(0, processed as int + 1);
                    assert(prefix_new.drop_last() =~= pre_slashes.subrange(0, processed as int));
                    assert(prefix_new.last() == pre_slashes[processed as int]);
                    assert(before.len() - i == n - processed);
                    assert(self.slashes@.len() == before.len() - 1);
                    assert forall|k: int|
                        0 <= k < self.slashes@.len() - i implies #[trigger] self.slashes@.subrange(
                        i as int,
                        self.slashes@.len() as int,
                    )[k] == pre_slashes.subrange(processed as int + 1, n as int)[k] by {
                        assert(self.slashes@[i + k] == before[i + 1 + k]);
                        assert(before.subrange(i as int, before.len() as int)[k + 1]
                            == pre_slashes.subrange(processed as int, n as int)[k + 1]);
                    }
                    assert(self.slashes@.subrange(i as int, self.slashes@.len() as int)
                        =~= pre_slashes.subrange(processed as int + 1, n as int));
                    assert(forall|k: int| 0 <= k < i ==> self.slashes@[k] == before[k]);
                    assert forall|m: int|
                        0 <= m < processed + 1 && !slash_due(
                            #[trigger] pre_slashes[m],
                            new_era,
                        ) implies exists|k: int|
                        0 <= k < i && self.slashes@[k] == pre_slashes[m] by {
                        if m < processed {
                            let k0 = choose|k: int|
                                0 <= k < i && before[k] == pre_slashes[m];
                            assert(self.slashes@[k0] == pre_slashes[m]);
                        }
                    }
                }
            } else {
                proof {
                    let prefix_new = pre_slashes.subrange(0, processed as int + 1);
                    assert(prefix_new.drop_last() =~= pre_slashes.subrange(0, processed as int));
                    assert(prefix_new.last() == pre_slashes[processed as int]);
                    assert forall|w: Seq<u8>|
                        #[trigger] stake_of(self.stakes@, w) == stake_after_slashes(
                            stake_of(pre_stakes, w),
                            prefix_new,
                            new_era,
                            w,
                        ) by {}
                    assert(before.len() - i == n - processed);
                    assert forall|k: int|
                        0 <= k < self.slashes@.len() - (i + 1) implies (
                        #[trigger] self.slashes@.subrange(
                            i as int + 1,
                            self.slashes@.len() as int,
                        )[k]) == pre_slashes.subrange(processed as int + 1, n as int)[k] by {
                        assert(before.subrange(i as int, before.len() as int)[k + 1]
                            == pre_slashes.subrange(processed as int, n as int)[k + 1]);
                        assert(self.slashes@[i + 1 + k] == before[i + 1 + k]);
                    }
                    assert(self.slashes@.subrange(i as int + 1, self.slashes@.len() as int)
                        =~= pre_slashes.subrange(processed as int + 1, n as int));
                }
                i += 1;
            }
            processed += 1;
        }
        proof {
            assert(pre_slashes.subrange(0, n as int) =~= pre_slashes);
            assert(self.slashes@.subrange(i as int, self.slashes@.len() as int).len() == 0);
            assert(i as int == self.slashes@.len());
        }
        Ok(())
    }
}

} // verus!
