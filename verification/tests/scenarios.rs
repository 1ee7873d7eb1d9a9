//! End-to-end scenarios over the marketplace state machine.
use service_market::events::{Event, assert_events};
use service_market::mock::{mock_pub_key, new_test_ext};
use service_market::state::State;
use service_market::types::{Account, Blueprint, Error, Origin, Preferences};

fn empty_blueprint() -> Blueprint {
    Blueprint {
        metadata: vec![1, 2, 3],
        registration_params: vec![],
        request_params: vec![],
        jobs: vec![],
    }
}

fn register_operator(state: &mut State, who: &Account, blueprint_id: u64) {
    state
        .register(who, blueprint_id, Preferences { key: vec![9] }, vec![], 0)
        .unwrap();
}

/// Creating two blueprints with identical content yields two distinct ids.
#[test]
fn create_blueprint_never_merges() {
    let mut state = new_test_ext(vec![1]);
    let provider = mock_pub_key(5);
    let id1 = state.create_blueprint(&provider, empty_blueprint()).unwrap();
    let id2 = state.create_blueprint(&provider, empty_blueprint()).unwrap();
    assert_ne!(id1, id2);
    assert_eq!(id1, 0);
    assert_eq!(id2, 1);
}

/// Scenario: blueprint, two registrations, a request over both operators,
/// one approval keeps it pending, the second activates a fresh service.
#[test]
fn unanimous_approval_activates_service() {
    let mut state = new_test_ext(vec![1, 2, 3]);
    let o1 = mock_pub_key(1);
    let o2 = mock_pub_key(2);
    let requester = mock_pub_key(3);
    let provider = mock_pub_key(5);

    let bid = state.create_blueprint(&provider, empty_blueprint()).unwrap();
    register_operator(&mut state, &o1, bid);
    register_operator(&mut state, &o2, bid);

    let rid = state
        .request(
            &requester,
            bid,
            vec![mock_pub_key(3)],
            vec![mock_pub_key(1), mock_pub_key(2)],
            10,
            vec![],
            vec![],
            100,
        )
        .unwrap();
    assert_eq!(rid, 0);

    state.approve(&o1, rid, 10).unwrap();
    assert!(state.find_request(rid).is_some(), "request must stay pending");
    assert!(state.find_service(0).is_none());

    state.approve(&o2, rid, 10).unwrap();
    assert!(state.find_request(rid).is_none(), "request must be resolved");
    assert!(state.find_service(0).is_some(), "service must be active");

    let expected = vec![
        Event::RequestApproved { operator: mock_pub_key(2), request_id: rid },
        Event::ServiceInitiated { request_id: rid, service_id: 0 },
    ];
    assert!(assert_events(&state.events, &expected));
}

/// Scenario: same setup, but the second operator rejects — the request is
/// deleted and the requester's escrowed value is fully refunded.
#[test]
fn single_rejection_kills_request_and_refunds() {
    let mut state = new_test_ext(vec![1, 2, 3]);
    let o1 = mock_pub_key(1);
    let o2 = mock_pub_key(2);
    let requester = mock_pub_key(3);
    let provider = mock_pub_key(5);

    let bid = state.create_blueprint(&provider, empty_blueprint()).unwrap();
    register_operator(&mut state, &o1, bid);
    register_operator(&mut state, &o2, bid);

    let rid = state
        .request(
            &requester,
            bid,
            vec![],
            vec![mock_pub_key(1), mock_pub_key(2)],
            10,
            vec![],
            vec![],
            100,
        )
        .unwrap();
    let after_escrow =
        service_market::ledger::get_balance(&state.balances, &requester);
    assert_eq!(after_escrow, 20000 - 100);

    state.approve(&o1, rid, 10).unwrap();
    state.reject(&o2, rid).unwrap();

    assert!(state.find_request(rid).is_none());
    assert!(state.find_service(0).is_none(), "no service may be created");
    let refunded = service_market::ledger::get_balance(&state.balances, &requester);
    assert_eq!(refunded, 20000, "escrow must be refunded in full");
}

/// Builds a state with one active service over one operator, restaking
/// half of its stake, and returns it with the operator account.
fn one_operator_service() -> (State, Account) {
    let mut state = new_test_ext(vec![1, 3]);
    let o1 = mock_pub_key(1);
    let requester = mock_pub_key(3);
    let provider = mock_pub_key(5);
    let bid = state.create_blueprint(&provider, empty_blueprint()).unwrap();
    register_operator(&mut state, &o1, bid);
    let rid = state
        .request(&requester, bid, vec![], vec![mock_pub_key(1)], 10, vec![], vec![], 0)
        .unwrap();
    state.approve(&o1, rid, 50).unwrap();
    assert!(state.find_service(0).is_some());
    (state, o1)
}

/// Scenario: a slash scheduled at era five sits at address `(5, 0)` and a
/// dispute removes it before it can touch the operator's stake.
#[test]
fn disputed_slash_never_touches_stake() {
    let (mut state, o1) = one_operator_service();
    for _ in 0..5 {
        state.advance_era().unwrap();
    }
    assert_eq!(state.current_era, 5);

    let index = state
        .slash(&Origin::Root, &o1, 0, 20)
        .unwrap();
    assert_eq!(index, 0);
    assert!(state.find_slash(5, 0).is_some(), "entry (5, 0) must be pending");

    state.dispute(&Origin::Root, 5, 0).unwrap();
    assert!(state.find_slash(5, 0).is_none(), "entry must vanish");

    let stake = service_market::ledger::get_stake(&state.stakes, &o1);
    assert_eq!(stake, 10000, "stake must be unaffected");
}

/// Scenario: the same slash, left undisputed, is applied once the era
/// advances past the dispute window: the stake drops by twenty percent of
/// the recorded exposure (half of the genesis stake was restaked).
#[test]
fn undisputed_slash_applies_after_window() {
    let (mut state, o1) = one_operator_service();
    for _ in 0..5 {
        state.advance_era().unwrap();
    }
    state.slash(&Origin::Root, &o1, 0, 20).unwrap();

    // Still pending through the whole window: eras six to twelve.
    for era in 6..=12u32 {
        state.advance_era().unwrap();
        assert_eq!(state.current_era, era);
        assert!(state.find_slash(5, 0).is_some(), "still disputable inside the window");
    }

    state.advance_era().unwrap();
    assert_eq!(state.current_era, 13);
    assert!(state.find_slash(5, 0).is_none(), "finalized entries leave the queue");

    // Exposure was 50% of 10000; the slash takes 20% of that exposure.
    let stake = service_market::ledger::get_stake(&state.stakes, &o1);
    assert_eq!(stake, 10000 - 1000);

    // After finalization the dispute must fail with `SlashNotFound`.
    assert_eq!(state.dispute(&Origin::Root, 5, 0), Err(Error::SlashNotFound));
}

/// Registering and immediately unregistering leaves the directory and the
/// operator's balance unchanged.
#[test]
fn register_unregister_round_trip() {
    let mut state = new_test_ext(vec![1]);
    let o1 = mock_pub_key(1);
    let provider = mock_pub_key(5);
    let bid = state.create_blueprint(&provider, empty_blueprint()).unwrap();

    let regs_before = state.registrations.len();
    state
        .register(&o1, bid, Preferences { key: vec![7] }, vec![], 500)
        .unwrap();
    assert_eq!(
        service_market::ledger::get_balance(&state.balances, &o1),
        20000 - 500
    );
    state.unregister(&o1, bid).unwrap();
    assert_eq!(state.registrations.len(), regs_before);
    assert!(state.find_registration(bid, &o1).is_none());
    assert_eq!(service_market::ledger::get_balance(&state.balances, &o1), 20000);
}

/// Job dispatch inside an active service: a permitted caller opens a call,
/// the operator submits one result, duplicates are refused.
#[test]
fn job_call_and_result_submission() {
    let mut state = new_test_ext(vec![1, 3]);
    let o1 = mock_pub_key(1);
    let requester = mock_pub_key(3);
    let provider = mock_pub_key(5);
    let bp = Blueprint {
        metadata: vec![],
        registration_params: vec![],
        request_params: vec![],
        jobs: vec![service_market::types::JobDef {
            name: vec![b'k'],
            params: vec![service_market::types::TAG_U64],
        }],
    };
    let bid = state.create_blueprint(&provider, bp).unwrap();
    register_operator(&mut state, &o1, bid);
    let rid = state
        .request(
            &requester,
            bid,
            vec![mock_pub_key(3)],
            vec![mock_pub_key(1)],
            10,
            vec![],
            vec![],
            0,
        )
        .unwrap();
    state.approve(&o1, rid, 0).unwrap();

    let call_id = state
        .call(&requester, 0, 0, vec![service_market::types::Field::U64(42)])
        .unwrap();
    assert_eq!(call_id, 0);

    state
        .submit_result(&o1, 0, call_id, vec![service_market::types::Field::U8(1)])
        .unwrap();
    assert_eq!(
        state.submit_result(&o1, 0, call_id, vec![]),
        Err(Error::DuplicateResult)
    );
}

/// Termination by the owner refunds the service's remaining escrow and
/// frees the operator to unregister.
#[test]
fn terminate_releases_escrow_and_operator() {
    let mut state = new_test_ext(vec![1, 3]);
    let o1 = mock_pub_key(1);
    let requester = mock_pub_key(3);
    let provider = mock_pub_key(5);
    let bid = state.create_blueprint(&provider, empty_blueprint()).unwrap();
    register_operator(&mut state, &o1, bid);
    let rid = state
        .request(&requester, bid, vec![], vec![mock_pub_key(1)], 10, vec![], vec![], 250)
        .unwrap();
    state.approve(&o1, rid, 0).unwrap();

    assert_eq!(state.unregister(&o1, bid), Err(Error::HasActiveServices));

    let owner_origin = Origin::Signed(mock_pub_key(3));
    state.terminate(&owner_origin, 0).unwrap();
    assert!(state.find_service(0).is_none());
    assert_eq!(
        service_market::ledger::get_balance(&state.balances, &requester),
        20000
    );

    state.unregister(&o1, bid).unwrap();
}

/// A pending request whose time-to-live elapses is swept by the block
/// hook: it disappears and the requester's escrow comes back in full.
#[test]
fn expired_request_is_swept_and_refunded() {
    let mut state = new_test_ext(vec![1, 3]);
    let o1 = mock_pub_key(1);
    let requester = mock_pub_key(3);
    let provider = mock_pub_key(5);
    let bid = state.create_blueprint(&provider, empty_blueprint()).unwrap();
    register_operator(&mut state, &o1, bid);

    // Filed at block one with a time-to-live of two blocks.
    let rid = state
        .request(&requester, bid, vec![], vec![mock_pub_key(1)], 2, vec![], vec![], 400)
        .unwrap();
    assert_eq!(
        service_market::ledger::get_balance(&state.balances, &requester),
        20000 - 400
    );

    state.advance_block().unwrap();
    state.advance_block().unwrap();
    assert!(state.find_request(rid).is_some(), "alive until the deadline passes");

    state.advance_block().unwrap();
    assert_eq!(state.current_block, 4);
    assert!(state.find_request(rid).is_none(), "swept once expired");
    assert_eq!(
        service_market::ledger::get_balance(&state.balances, &requester),
        20000,
        "escrow must come back in full"
    );
    let expected = vec![Event::RequestExpired { request_id: rid }];
    assert!(assert_events(&state.events, &expected));
}

/// The unified command surface dispatches like the direct calls and
/// refuses signed-only commands from the root origin.
#[test]
fn apply_dispatches_commands() {
    let mut state = new_test_ext(vec![1]);
    let signed = Origin::Signed(mock_pub_key(5));

    state
        .apply(
            &signed,
            service_market::command::Command::CreateBlueprint { blueprint: empty_blueprint() },
        )
        .unwrap();
    assert_eq!(state.blueprints.len(), 1);

    assert_eq!(
        state.apply(
            &Origin::Root,
            service_market::command::Command::CreateBlueprint { blueprint: empty_blueprint() },
        ),
        Err(Error::Unauthorized)
    );
    assert_eq!(state.blueprints.len(), 1);
}
