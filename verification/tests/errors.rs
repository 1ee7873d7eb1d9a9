//! One input per error of the taxonomy.
use service_market::mock::{mock_pub_key, new_test_ext};
use service_market::state::State;
use service_market::types::{
    Account, Blueprint, Error, Field, Origin, Preferences, TAG_U8, MAX_METADATA_LENGTH,
};

fn plain_blueprint() -> Blueprint {
    Blueprint {
        metadata: vec![],
        registration_params: vec![],
        request_params: vec![],
        jobs: vec![],
    }
}

fn setup_with_blueprint() -> (State, u64) {
    let mut state = new_test_ext(vec![1, 2, 3]);
    let provider = mock_pub_key(5);
    let bid = state.create_blueprint(&provider, plain_blueprint()).unwrap();
    (state, bid)
}

#[test]
fn oversized_metadata_is_out_of_bounds() {
    let mut state = new_test_ext(vec![1]);
    let provider = mock_pub_key(5);
    let bp = Blueprint {
        metadata: vec![0u8; MAX_METADATA_LENGTH + 1],
        registration_params: vec![],
        request_params: vec![],
        jobs: vec![],
    };
    assert_eq!(state.create_blueprint(&provider, bp), Err(Error::OutOfBounds));
    assert_eq!(state.blueprints.len(), 0);
}

#[test]
fn register_unknown_blueprint() {
    let mut state = new_test_ext(vec![1]);
    let o1 = mock_pub_key(1);
    assert_eq!(
        state.register(&o1, 7, Preferences { key: vec![] }, vec![], 0),
        Err(Error::UnknownBlueprint)
    );
}

#[test]
fn register_twice_is_refused() {
    let (mut state, bid) = setup_with_blueprint();
    let o1 = mock_pub_key(1);
    state.register(&o1, bid, Preferences { key: vec![] }, vec![], 0).unwrap();
    assert_eq!(
        state.register(&o1, bid, Preferences { key: vec![] }, vec![], 0),
        Err(Error::AlreadyRegistered)
    );
}

#[test]
fn register_schema_mismatch_is_type_check() {
    let mut state = new_test_ext(vec![1]);
    let provider = mock_pub_key(5);
    let bp = Blueprint {
        metadata: vec![],
        registration_params: vec![TAG_U8],
        request_params: vec![],
        jobs: vec![],
    };
    let bid = state.create_blueprint(&provider, bp).unwrap();
    let o1 = mock_pub_key(1);
    assert_eq!(
        state.register(&o1, bid, Preferences { key: vec![] }, vec![Field::U64(1)], 0),
        Err(Error::TypeCheck)
    );
    assert_eq!(
        state.register(&o1, bid, Preferences { key: vec![] }, vec![], 0),
        Err(Error::TypeCheck)
    );
}

#[test]
fn register_without_funds() {
    let (mut state, bid) = setup_with_blueprint();
    let poor = mock_pub_key(9);
    assert_eq!(
        state.register(&poor, bid, Preferences { key: vec![] }, vec![], 1),
        Err(Error::InsufficientBalance)
    );
}

#[test]
fn unregister_without_registration() {
    let (mut state, bid) = setup_with_blueprint();
    let o1 = mock_pub_key(1);
    assert_eq!(state.unregister(&o1, bid), Err(Error::NotRegistered));
}

#[test]
fn request_with_no_operators() {
    let (mut state, bid) = setup_with_blueprint();
    let requester = mock_pub_key(3);
    assert_eq!(
        state.request(&requester, bid, vec![], vec![], 10, vec![], vec![], 0),
        Err(Error::EmptyOperatorSet)
    );
}

#[test]
fn request_with_too_many_operators() {
    let (mut state, bid) = setup_with_blueprint();
    let requester = mock_pub_key(3);
    let mut operators: Vec<Account> = Vec::new();
    for _ in 0..1025 {
        operators.push(mock_pub_key(1));
    }
    assert_eq!(
        state.request(&requester, bid, vec![], operators, 10, vec![], vec![], 0),
        Err(Error::TooManyOperators)
    );
}

#[test]
fn request_with_too_many_callers() {
    let (mut state, bid) = setup_with_blueprint();
    let requester = mock_pub_key(3);
    let mut callers: Vec<Account> = Vec::new();
    for _ in 0..257 {
        callers.push(mock_pub_key(3));
    }
    assert_eq!(
        state.request(&requester, bid, callers, vec![mock_pub_key(1)], 10, vec![], vec![], 0),
        Err(Error::TooManyCallers)
    );
}

#[test]
fn request_with_too_many_assets() {
    let (mut state, bid) = setup_with_blueprint();
    let requester = mock_pub_key(3);
    assert_eq!(
        state.request(
            &requester,
            bid,
            vec![],
            vec![mock_pub_key(1)],
            10,
            vec![0u32; 65],
            vec![],
            0
        ),
        Err(Error::TooManyAssets)
    );
}

#[test]
fn request_with_duplicate_operator() {
    let (mut state, bid) = setup_with_blueprint();
    let requester = mock_pub_key(3);
    assert_eq!(
        state.request(
            &requester,
            bid,
            vec![],
            vec![mock_pub_key(1), mock_pub_key(1)],
            10,
            vec![],
            vec![],
            0
        ),
        Err(Error::OutOfBounds)
    );
}

#[test]
fn request_with_unregistered_operator() {
    let (mut state, bid) = setup_with_blueprint();
    let requester = mock_pub_key(3);
    assert_eq!(
        state.request(&requester, bid, vec![], vec![mock_pub_key(1)], 10, vec![], vec![], 0),
        Err(Error::OperatorNotRegistered)
    );
}

#[test]
fn request_deadline_overflow() {
    let (mut state, bid) = setup_with_blueprint();
    let requester = mock_pub_key(3);
    let o1 = mock_pub_key(1);
    state.register(&o1, bid, Preferences { key: vec![] }, vec![], 0).unwrap();
    assert_eq!(
        state.request(
            &requester,
            bid,
            vec![],
            vec![mock_pub_key(1)],
            u64::MAX,
            vec![],
            vec![],
            0
        ),
        Err(Error::ArithmeticOverflow)
    );
}

fn pending_request() -> (State, u64) {
    let (mut state, bid) = setup_with_blueprint();
    let o1 = mock_pub_key(1);
    let o2 = mock_pub_key(2);
    let requester = mock_pub_key(3);
    state.register(&o1, bid, Preferences { key: vec![] }, vec![], 0).unwrap();
    state.register(&o2, bid, Preferences { key: vec![] }, vec![], 0).unwrap();
    let rid = state
        .request(
            &requester,
            bid,
            vec![],
            vec![mock_pub_key(1), mock_pub_key(2)],
            10,
            vec![],
            vec![],
            0,
        )
        .unwrap();
    (state, rid)
}

#[test]
fn approve_unknown_request() {
    let (mut state, rid) = pending_request();
    assert_eq!(state.approve(&mock_pub_key(1), rid + 1, 0), Err(Error::NotFound));
}

#[test]
fn approve_by_outsider_is_unauthorized() {
    let (mut state, rid) = pending_request();
    assert_eq!(state.approve(&mock_pub_key(9), rid, 0), Err(Error::Unauthorized));
}

#[test]
fn approve_twice_is_already_voted() {
    let (mut state, rid) = pending_request();
    state.approve(&mock_pub_key(1), rid, 0).unwrap();
    assert_eq!(state.approve(&mock_pub_key(1), rid, 0), Err(Error::AlreadyVoted));
}

#[test]
fn reject_by_outsider_is_unauthorized() {
    let (mut state, rid) = pending_request();
    assert_eq!(state.reject(&mock_pub_key(9), rid), Err(Error::Unauthorized));
}

fn active_service() -> State {
    let (mut state, rid) = pending_request();
    state.approve(&mock_pub_key(1), rid, 0).unwrap();
    state.approve(&mock_pub_key(2), rid, 0).unwrap();
    state
}

#[test]
fn call_unknown_service() {
    let mut state = active_service();
    assert_eq!(
        state.call(&mock_pub_key(3), 9, 0, vec![]),
        Err(Error::ServiceNotFound)
    );
}

#[test]
fn call_by_unpermitted_caller() {
    let mut state = active_service();
    assert_eq!(
        state.call(&mock_pub_key(9), 0, 0, vec![]),
        Err(Error::CallerNotPermitted)
    );
}

#[test]
fn call_with_invalid_job_index() {
    let (mut state, bid) = setup_with_blueprint();
    let o1 = mock_pub_key(1);
    let requester = mock_pub_key(3);
    state.register(&o1, bid, Preferences { key: vec![] }, vec![], 0).unwrap();
    let rid = state
        .request(
            &requester,
            bid,
            vec![mock_pub_key(3)],
            vec![mock_pub_key(1)],
            10,
            vec![],
            vec![],
            0,
        )
        .unwrap();
    state.approve(&o1, rid, 0).unwrap();
    assert_eq!(
        state.call(&requester, 0, 0, vec![]),
        Err(Error::InvalidJobIndex)
    );
}

#[test]
fn submit_result_for_unknown_call() {
    let mut state = active_service();
    assert_eq!(
        state.submit_result(&mock_pub_key(1), 0, 3, vec![]),
        Err(Error::CallNotFound)
    );
}

#[test]
fn submit_result_by_non_operator() {
    let mut state = active_service();
    assert_eq!(
        state.submit_result(&mock_pub_key(9), 0, 0, vec![]),
        Err(Error::Unauthorized)
    );
}

#[test]
fn terminate_by_stranger_is_unauthorized() {
    let mut state = active_service();
    let stranger = Origin::Signed(mock_pub_key(9));
    assert_eq!(state.terminate(&stranger, 0), Err(Error::Unauthorized));
}

#[test]
fn slash_unknown_service() {
    let mut state = active_service();
    assert_eq!(
        state.slash(&Origin::Root, &mock_pub_key(1), 9, 10),
        Err(Error::ServiceNotFound)
    );
}

#[test]
fn slash_by_stranger_is_unauthorized() {
    let mut state = active_service();
    let stranger = Origin::Signed(mock_pub_key(9));
    assert_eq!(
        state.slash(&stranger, &mock_pub_key(1), 0, 10),
        Err(Error::Unauthorized)
    );
}

#[test]
fn slash_authorized_for_blueprint_owner() {
    let mut state = active_service();
    let owner = Origin::Signed(mock_pub_key(5));
    let index = state.slash(&owner, &mock_pub_key(1), 0, 10).unwrap();
    assert_eq!(index, 0);
}

#[test]
fn slash_outsider_not_in_service() {
    let mut state = active_service();
    assert_eq!(
        state.slash(&Origin::Root, &mock_pub_key(9), 0, 10),
        Err(Error::OperatorNotInService)
    );
}

#[test]
fn dispute_unknown_slash() {
    let mut state = active_service();
    assert_eq!(state.dispute(&Origin::Root, 0, 0), Err(Error::SlashNotFound));
}

#[test]
fn dispute_by_stranger_is_unauthorized() {
    let mut state = active_service();
    state.slash(&Origin::Root, &mock_pub_key(1), 0, 10).unwrap();
    let stranger = Origin::Signed(mock_pub_key(9));
    assert_eq!(state.dispute(&stranger, 0, 0), Err(Error::Unauthorized));
}

#[test]
fn reject_refund_overflow_is_refused() {
    let (mut state, bid) = setup_with_blueprint();
    let o1 = mock_pub_key(1);
    let requester = mock_pub_key(3);
    state.register(&o1, bid, Preferences { key: vec![] }, vec![], 0).unwrap();
    let rid = state
        .request(&requester, bid, vec![], vec![mock_pub_key(1)], 10, vec![], vec![], 100)
        .unwrap();
    // Fill the requester's balance to the brim so the escrow cannot return.
    let current = service_market::ledger::get_balance(&state.balances, &requester);
    service_market::ledger::credit(&mut state.balances, &requester, u128::MAX - current)
        .unwrap();
    assert_eq!(state.reject(&o1, rid), Err(Error::ArithmeticOverflow));
    assert!(state.find_request(rid).is_some(), "the request must survive the failure");
}

#[test]
fn unregister_refund_overflow_is_refused() {
    let (mut state, bid) = setup_with_blueprint();
    let o1 = mock_pub_key(1);
    state.register(&o1, bid, Preferences { key: vec![] }, vec![], 5).unwrap();
    let current = service_market::ledger::get_balance(&state.balances, &o1);
    service_market::ledger::credit(&mut state.balances, &o1, u128::MAX - current).unwrap();
    assert_eq!(state.unregister(&o1, bid), Err(Error::ArithmeticOverflow));
    assert!(state.find_registration(bid, &o1).is_some());
}

#[test]
fn call_id_exhaustion_is_refused() {
    let mut state = new_test_ext(vec![1, 3]);
    let provider = mock_pub_key(5);
    let o1 = mock_pub_key(1);
    let requester = mock_pub_key(3);
    let bp = Blueprint {
        metadata: vec![],
        registration_params: vec![],
        request_params: vec![],
        jobs: vec![service_market::types::JobDef { name: vec![b'j'], params: vec![] }],
    };
    let bid = state.create_blueprint(&provider, bp).unwrap();
    state.register(&o1, bid, Preferences { key: vec![] }, vec![], 0).unwrap();
    let rid = state
        .request(
            &requester,
            bid,
            vec![mock_pub_key(3)],
            vec![mock_pub_key(1)],
            10,
            vec![],
            vec![],
            0,
        )
        .unwrap();
    state.approve(&o1, rid, 0).unwrap();
    state.services[0].next_call_id = u64::MAX;
    assert_eq!(
        state.call(&requester, 0, 0, vec![]),
        Err(Error::ArithmeticOverflow)
    );
}
