//! Observable events: one per successful state transition, kept in an
//! append-only log so callers can audit what each command did.
use vstd::prelude::*;
use crate::types::{Account, account_eq};

verus! {

/// One observable state transition of the marketplace.
pub enum Event {
    BlueprintCreated { owner: Account, blueprint_id: u64 },
    OperatorRegistered { operator: Account, blueprint_id: u64 },
    OperatorUnregistered { operator: Account, blueprint_id: u64 },
    ServiceRequested { requester: Account, request_id: u64, blueprint_id: u64 },
    RequestApproved { operator: Account, request_id: u64 },
    RequestRejected { operator: Account, request_id: u64 },
    ServiceInitiated { request_id: u64, service_id: u64 },
    ServiceTerminated { service_id: u64 },
    JobCalled { caller: Account, service_id: u64, call_id: u64, job: u8 },
    JobResultSubmitted { operator: Account, service_id: u64, call_id: u64 },
    SlashScheduled { offender: Account, service_id: u64, era: u32, index: u32, percent: u8 },
    SlashDisputed { era: u32, index: u32 },
    RequestExpired { request_id: u64 },
}

/// The mathematical value of an `Event`, with accounts as byte sequences.
pub enum EventView {
    BlueprintCreated { owner: Seq<u8>, blueprint_id: u64 },
    OperatorRegistered { operator: Seq<u8>, blueprint_id: u64 },
    OperatorUnregistered { operator: Seq<u8>, blueprint_id: u64 },
    ServiceRequested { requester: Seq<u8>, request_id: u64, blueprint_id: u64 },
    RequestApproved { operator: Seq<u8>, request_id: u64 },
    RequestRejected { operator: Seq<u8>, request_id: u64 },
    ServiceInitiated { request_id: u64, service_id: u64 },
    ServiceTerminated { service_id: u64 },
    JobCalled { caller: Seq<u8>, service_id: u64, call_id: u64, job: u8 },
    JobResultSubmitted { operator: Seq<u8>, service_id: u64, call_id: u64 },
    SlashScheduled { offender: Seq<u8>, service_id: u64, era: u32, index: u32, percent: u8 },
    SlashDisputed { era: u32, index: u32 },
    RequestExpired { request_id: u64 },
}

impl View for Event {
    type V = EventView;

    open spec fn view(&self) -> EventView {
        match self {
            Event::BlueprintCreated { owner, blueprint_id } => EventView::BlueprintCreated {
                owner: owner@,
                blueprint_id: *blueprint_id,
            },
            Event::OperatorRegistered { operator, blueprint_id } => EventView::OperatorRegistered {
                operator: operator@,
                blueprint_id: *blueprint_id,
            },
            Event::OperatorUnregistered { operator, blueprint_id } => (
            EventView::OperatorUnregistered { operator: operator@, blueprint_id: *blueprint_id }),
            Event::ServiceRequested { requester, request_id, blueprint_id } => (
            EventView::ServiceRequested {
                requester: requester@,
                request_id: *request_id,
                blueprint_id: *blueprint_id,
            }),
            Event::RequestApproved { operator, request_id } => EventView::RequestApproved {
                operator: operator@,
                request_id: *request_id,
            },
            Event::RequestRejected { operator, request_id } => EventView::RequestRejected {
                operator: operator@,
                request_id: *request_id,
            },
            Event::ServiceInitiated { request_id, service_id } => EventView::ServiceInitiated {
                request_id: *request_id,
                service_id: *service_id,
            },
            Event::ServiceTerminated { service_id } => EventView::ServiceTerminated {
                service_id: *service_id,
            },
            Event::JobCalled { caller, service_id, call_id, job } => EventView::JobCalled {
                caller: caller@,
                service_id: *service_id,
                call_id: *call_id,
                job: *job,
            },
            Event::JobResultSubmitted { operator, service_id, call_id } => (
            EventView::JobResultSubmitted {
                operator: operator@,
                service_id: *service_id,
                call_id: *call_id,
            }),
            Event::SlashScheduled { offender, service_id, era, index, percent } => (
            EventView::SlashScheduled {
                offender: offender@,
                service_id: *service_id,
                era: *era,
                index: *index,
                percent: *percent,
            }),
            Event::SlashDisputed { era, index } => EventView::SlashDisputed {
                era: *era,
                index: *index,
            },
            Event::RequestExpired { request_id } => EventView::RequestExpired {
                request_id: *request_id,
            },
        }
    }
}

/// Compares two events by value.
pub fn event_eq(a: &Event, b: &Event) -> (r: bool)
    ensures
        r == (a@ == b@),
{
    match (a, b) {
        (
            Event::BlueprintCreated { owner: o1, blueprint_id: b1 },
            Event::BlueprintCreated { owner: o2, blueprint_id: b2 },
        ) => account_eq(o1, o2) && b1 == b2,
        (
            Event::OperatorRegistered { operator: o1, blueprint_id: b1 },
            Event::OperatorRegistered { operator: o2, blueprint_id: b2 },
        ) => account_eq(o1, o2) && b1 == b2,
        (
            Event::OperatorUnregistered { operator: o1, blueprint_id: b1 },
            Event::OperatorUnregistered { operator: o2, blueprint_id: b2 },
        ) => account_eq(o1, o2) && b1 == b2,
        (
            Event::ServiceRequested { requester: a1, request_id: r1, blueprint_id: b1 },
            Event::ServiceRequested { requester: a2, request_id: r2, blueprint_id: b2 },
        ) => account_eq(a1, a2) && r1 == r2 && b1 == b2,
        (
            Event::RequestApproved { operator: o1, request_id: r1 },
            Event::RequestApproved { operator: o2, request_id: r2 },
        ) => account_eq(o1, o2) && r1 == r2,
        (
            Event::RequestRejected { operator: o1, request_id: r1 },
            Event::RequestRejected { operator: o2, request_id: r2 },
        ) => account_eq(o1, o2) && r1 == r2,
        (
            Event::ServiceInitiated { request_id: r1, service_id: s1 },
            Event::ServiceInitiated { request_id: r2, service_id: s2 },
        ) => r1 == r2 && s1 == s2,
        (
            Event::ServiceTerminated { service_id: s1 },
            Event::ServiceTerminated { service_id: s2 },
        ) => s1 == s2,
        (
            Event::JobCalled { caller: a1, service_id: s1, call_id: c1, job: j1 },
            Event::JobCalled { caller: a2, service_id: s2, call_id: c2, job: j2 },
        ) => account_eq(a1, a2) && s1 == s2 && c1 == c2 && j1 == j2,
        (
            Event::JobResultSubmitted { operator: o1, service_id: s1, call_id: c1 },
            Event::JobResultSubmitted { operator: o2, service_id: s2, call_id: c2 },
        ) => account_eq(o1, o2) && s1 == s2 && c1 == c2,
        (
            Event::SlashScheduled { offender: o1, service_id: s1, era: e1, index: i1, percent: p1 },
            Event::SlashScheduled { offender: o2, service_id: s2, era: e2, index: i2, percent: p2 },
        ) => account_eq(o1, o2) && s1 == s2 && e1 == e2 && i1 == i2 && p1 == p2,
        (
            Event::SlashDisputed { era: e1, index: i1 },
            Event::SlashDisputed { era: e2, index: i2 },
        ) => e1 == e2 && i1 == i2,
        (
            Event::RequestExpired { request_id: r1 },
            Event::RequestExpired { request_id: r2 },
        ) => r1 == r2,
        _ => false,
    }
}

/// The event log grew by exactly the one event `ev`.
pub open spec fn log_extended(oldlog: Seq<Event>, newlog: Seq<Event>, ev: EventView) -> bool {
    &&& newlog.len() == oldlog.len() + 1
    &&& newlog.subrange(0, oldlog.len() as int) == oldlog
    &&& newlog[newlog.len() - 1]@ == ev
}

/// The event log grew by exactly the two events `ev1` then `ev2`.
pub open spec fn log_extended2(
    oldlog: Seq<Event>,
    newlog: Seq<Event>,
    ev1: EventView,
    ev2: EventView,
) -> bool {
    &&& newlog.len() == oldlog.len() + 2
    &&& newlog.subrange(0, oldlog.len() as int) == oldlog
    &&& newlog[newlog.len() - 2]@ == ev1
    &&& newlog[newlog.len() - 1]@ == ev2
}

/// The views of an event log.
pub open spec fn events_view(s: Seq<Event>) -> Seq<EventView> {
    s.map_values(|e: Event| e@)
}

/// Whether `expected` matches the tail of `actual` exactly, in order.
pub open spec fn is_event_suffix(actual: Seq<Event>, expected: Seq<Event>) -> bool {
    &&& actual.len() >= expected.len()
    &&& events_view(actual).subrange(
        actual.len() - expected.len(),
        actual.len() as int,
    ) == events_view(expected)
}

/// Checks a contiguous set of expected events against the end of a log:
/// `expected` must line up with the most recent events, newest last.
pub fn assert_events(actual: &Vec<Event>, expected: &Vec<Event>) -> (r: bool)
    ensures
        r == is_event_suffix(actual@, expected@),
{
    if actual.len() < expected.len() {
        return false;
    }
    let offset = actual.len() - expected.len();
    let n = expected.len();
    let mut i: usize = 0;
    while i < n
        invariant
            n == expected@.len(),
            offset == actual@.len() - n,
            offset + n == actual@.len(),
            i <= n,
            forall|j: int| 0 <= j < i ==> actual@[offset + j]@ == expected@[j]@,
        decreases n - i,
    {
        proof {
            assert(actual.len() == actual@.len());
            assert(offset + i < actual@.len());
        }
        if !event_eq(&actual[offset + i], &expected[i]) {
            proof {
                if is_event_suffix(actual@, expected@) {
                    let sub = events_view(actual@).subrange(
                        actual@.len() - expected@.len(),
                        actual@.len() as int,
                    );
                    assert(sub[i as int] == events_view(expected@)[i as int]);
                    assert(sub[i as int] == actual@[offset + i]@);
                    assert(events_view(expected@)[i as int] == expected@[i as int]@);
                }
            }
            return false;
        }
        i += 1;
    }
    proof {
        assert(events_view(actual@).subrange(
            actual@.len() - expected@.len(),
            actual@.len() as int,
        ) =~= events_view(expected@));
    }
    true
}

} // verus!
