//! Global laws of the marketplace, proved once over the transition
//! relations that the command functions ensure.
use vstd::prelude::*;
use crate::registry::{created_blueprint, registered, unregistered};
use crate::requests::{approved, rejected};
use crate::slashing::{era_advanced, slash_due};
use crate::state::{State, approvals_subset, balance_of};
use crate::types::{Blueprint, Field, Preferences, Balance, SLASH_DEFER_DURATION};

verus! {

/// Blueprint creation never merges: two successive successful creations,
/// even with byte-identical content, assign distinct identifiers, and both
/// blueprints remain stored unchanged.
pub proof fn lemma_blueprint_creation_never_merges(
    s0: State,
    s1: State,
    s2: State,
    owner1: Seq<u8>,
    owner2: Seq<u8>,
    b1: Blueprint,
    b2: Blueprint,
    id1: u64,
    id2: u64,
)
    requires
        created_blueprint(s0, s1, owner1, b1, id1),
        created_blueprint(s1, s2, owner2, b2, id2),
    ensures
        id1 != id2,
        s2.blueprints@[id1 as int].blueprint == b1,
        s2.blueprints@[id2 as int].blueprint == b2,
{
    assert(s2.blueprints@.subrange(0, s1.blueprints@.len() as int)[id1 as int]
        == s1.blueprints@[id1 as int]);
}

/// In every well-formed state, the approvals recorded on a pending request
/// are a subset of the request's named operators, which never hold
/// duplicates.
pub proof fn lemma_approvals_always_subset(s: State, i: int)
    requires
        s.wf(),
        0 <= i < s.requests@.len(),
    ensures
        approvals_subset(s.requests@[i].approvals@, s.requests@[i].operators@),
        s.requests@[i].approvals@.len() <= s.requests@[i].operators@.len(),
{
}

/// Unanimity resolution: an approval removes the pending request exactly
/// when it completes the operator set — the request resolves to an active
/// service if and only if every named operator has approved.
pub proof fn lemma_approval_resolution(
    pre: State,
    post: State,
    who: Seq<u8>,
    request_id: u64,
    percent: u8,
)
    requires
        pre.wf(),
        approved(pre, post, who, request_id, percent),
    ensures
        post.has_request(request_id) <==> !(exists|i: int|
            0 <= i < pre.requests@.len() && (#[trigger] pre.requests@[i]).id == request_id
                && pre.requests@[i].approvals@.len() + 1 == pre.requests@[i].operators@.len()),
        (exists|i: int|
            0 <= i < pre.requests@.len() && (#[trigger] pre.requests@[i]).id == request_id
                && pre.requests@[i].approvals@.len() + 1 == pre.requests@[i].operators@.len())
            ==> post.services@.len() == pre.services@.len() + 1,
{
    let i = choose|i: int|
        {
            &&& 0 <= i < pre.requests@.len()
            &&& (#[trigger] pre.requests@[i]).id == request_id
            &&& crate::types::contains_acct(pre.requests@[i].operators@, who)
            &&& !crate::state::approvals_contain(pre.requests@[i].approvals@, who)
            &&& (if pre.requests@[i].approvals@.len() + 1 < pre.requests@[i].operators@.len() {
                post.requests@.len() == pre.requests@.len()
            } else {
                post.requests@ == pre.requests@.remove(i)
            })
        };
    assert forall|j: int|
        0 <= j < pre.requests@.len() && (#[trigger] pre.requests@[j]).id == request_id implies j
        == i by {}
    if pre.requests@[i].approvals@.len() + 1 < pre.requests@[i].operators@.len() {
        assert(post.requests@[i].id == request_id);
    } else {
        assert forall|k: int| 0 <= k < post.requests@.len() implies (#[trigger] post.requests@[
        k]).id != request_id by {
            if k < i {
                assert(post.requests@[k] == pre.requests@[k]);
            } else {
                assert(post.requests@[k] == pre.requests@[k + 1]);
            }
        }
    }
}

/// A single rejection resolves the request for good: the pending entry is
/// gone, the requester's escrow is fully refunded, and no service is
/// created — a request never resolves both ways.
pub proof fn lemma_rejection_resolution(pre: State, post: State, who: Seq<u8>, request_id: u64)
    requires
        pre.wf(),
        rejected(pre, post, who, request_id),
    ensures
        !post.has_request(request_id),
        post.services == pre.services,
        post.next_service_id == pre.next_service_id,
{
    let i = choose|i: int|
        {
            &&& 0 <= i < pre.requests@.len()
            &&& (#[trigger] pre.requests@[i]).id == request_id
            &&& crate::types::contains_acct(pre.requests@[i].operators@, who)
            &&& post.requests@ == pre.requests@.remove(i)
        };
    assert forall|k: int| 0 <= k < post.requests@.len() implies (#[trigger] post.requests@[k]).id
        != request_id by {
        if k < i {
            assert(post.requests@[k] == pre.requests@[k]);
        } else {
            assert(post.requests@[k] == pre.requests@[k + 1]);
        }
    }
}

/// A `register` followed immediately by `unregister` of the same pair, with
/// no intervening service, is a perfect round trip: the operator directory
/// and every account balance end exactly where they began.
pub proof fn lemma_register_unregister_round_trip(
    s0: State,
    s1: State,
    s2: State,
    who: Seq<u8>,
    blueprint_id: u64,
    preferences: Preferences,
    args: Seq<Field>,
    value: Balance,
)
    requires
        s0.wf(),
        s1.wf(),
        registered(s0, s1, who, blueprint_id, preferences, args, value),
        unregistered(s1, s2, who, blueprint_id),
    ensures
        s2.registrations@ == s0.registrations@,
        forall|w: Seq<u8>| #[trigger] balance_of(s2.balances@, w) == balance_of(s0.balances@, w),
{
    let i = choose|i: int|
        {
            &&& 0 <= i < s1.registrations@.len()
            &&& (#[trigger] s1.registrations@[i]).blueprint_id == blueprint_id
            &&& s1.registrations@[i].operator@ == who
            &&& s2.registrations@ == s1.registrations@.remove(i)
            &&& balance_of(s2.balances@, who) == balance_of(s1.balances@, who)
                + s1.registrations@[i].bond
        };
    let last = s0.registrations@.len() as int;
    if i != last {
        assert(s1.registrations@.subrange(0, last)[i] == s0.registrations@[i]);
        assert(s0.is_registered(blueprint_id, who));
        assert(false);
    }
    assert forall|k: int| 0 <= k < s0.registrations@.len() implies s2.registrations@[k]
        == s0.registrations@[k] by {
        assert(s2.registrations@[k] == s1.registrations@[k]);
        assert(s1.registrations@.subrange(0, last)[k] == s1.registrations@[k]);
    }
    assert(s2.registrations@ =~= s0.registrations@);
    assert forall|w: Seq<u8>| #[trigger] balance_of(s2.balances@, w) == balance_of(
        s0.balances@,
        w,
    ) by {
        if w == who {
            assert(s1.registrations@[i].bond == value);
        }
    }
}

/// A pending request survives a block step exactly while its time-to-live
/// has not elapsed: the sweep deletes precisely the expired requests.
pub proof fn lemma_request_expiry(pre: State, post: State, request_id: u64)
    requires
        pre.wf(),
        crate::requests::block_advanced(pre, post),
    ensures
        post.has_request(request_id) <==> exists|m: int|
            0 <= m < pre.requests@.len() && (#[trigger] pre.requests@[m]).id == request_id
                && !crate::requests::request_expired(pre.requests@[m], post.current_block),
{
    if post.has_request(request_id) {
        let k = choose|k: int|
            0 <= k < post.requests@.len() && post.requests@[k].id == request_id;
        let m = choose|m: int|
            0 <= m < pre.requests@.len() && pre.requests@[m] == post.requests@[k];
        assert(pre.requests@[m].id == request_id);
        assert(!crate::requests::request_expired(pre.requests@[m], post.current_block));
    }
    if exists|m: int|
        0 <= m < pre.requests@.len() && (#[trigger] pre.requests@[m]).id == request_id
            && !crate::requests::request_expired(pre.requests@[m], post.current_block) {
        let m = choose|m: int|
            0 <= m < pre.requests@.len() && (#[trigger] pre.requests@[m]).id == request_id
                && !crate::requests::request_expired(pre.requests@[m], post.current_block);
        let k = choose|k: int|
            0 <= k < post.requests@.len() && post.requests@[k] == pre.requests@[m];
        assert(post.has_request(request_id));
    }
}

/// In every well-formed state, every pending slash still sits inside its
/// dispute window: the current era has not advanced past
/// `era + SlashDeferDuration`.
pub proof fn lemma_pending_slash_within_window(s: State, k: int)
    requires
        s.wf(),
        0 <= k < s.slashes@.len(),
    ensures
        s.current_era as int <= (s.slashes@[k].era as int) + (SLASH_DEFER_DURATION as int),
{
}

/// A pending slash survives an era rotation exactly while the new era has
/// not passed its dispute window: afterwards the address `(era, index)` is
/// gone for good, so a dispute of it must fail.
pub proof fn lemma_slash_disputable_window(pre: State, post: State, era: u32, index: u32)
    requires
        pre.wf(),
        era_advanced(pre, post),
    ensures
        post.has_slash(era, index) <==> (pre.has_slash(era, index) && !((era as int)
            + (SLASH_DEFER_DURATION as int) < post.current_era as int)),
{
    if post.has_slash(era, index) {
        let k = choose|k: int|
            0 <= k < post.slashes@.len() && post.slashes@[k].era == era && post.slashes@[k].index
                == index;
        let m = choose|m: int| 0 <= m < pre.slashes@.len() && pre.slashes@[m] == post.slashes@[k];
        assert(pre.has_slash(era, index));
        assert(!slash_due(post.slashes@[k], post.current_era));
    }
    if pre.has_slash(era, index) && !((era as int) + (SLASH_DEFER_DURATION as int)
        < post.current_era as int) {
        let m = choose|m: int|
            0 <= m < pre.slashes@.len() && pre.slashes@[m].era == era && pre.slashes@[m].index
                == index;
        assert(!slash_due(pre.slashes@[m], post.current_era));
        let k = choose|k: int|
            0 <= k < post.slashes@.len() && post.slashes@[k] == pre.slashes@[m];
        assert(post.has_slash(era, index));
    }
}

} // verus!
