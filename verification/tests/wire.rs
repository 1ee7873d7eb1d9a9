//! The wire format and the call bridge: exact decodings, malformed
//! payloads, gas accounting, and the no-mutation-on-failure guarantee.
use service_market::bridge::{
    BridgeError, EvmAddress, GasMeter, RevertReason, U256, DB_READ_GAS_COST,
};
use service_market::codec::{
    encode_bytes, encode_compact, encode_field, encode_u64, read_account, read_blueprint,
    read_bytes, read_compact, read_field, read_fields, read_u64,
};
use service_market::mock::{mock_pub_key, new_test_ext};
use service_market::state::State;
use service_market::types::{account_eq, Error, Field, TAG_U64};

/// Compact prefix of a small value: the value shifted into the one-byte
/// mode.
fn compact(v: u8) -> u8 {
    assert!(v < 64);
    v * 4
}

fn bytes_payload(data: &[u8]) -> Vec<u8> {
    assert!(data.len() < 64);
    let mut out = vec![compact(data.len() as u8)];
    out.extend_from_slice(data);
    out
}

fn account_payload(id: u8) -> Vec<u8> {
    vec![id; 32]
}

fn accounts_payload(ids: &[u8]) -> Vec<u8> {
    let mut out = vec![compact(ids.len() as u8)];
    for id in ids {
        out.extend_from_slice(&account_payload(*id));
    }
    out
}

/// An empty blueprint payload: empty metadata, empty schemas, no jobs.
fn blueprint_payload() -> Vec<u8> {
    let mut out = Vec::new();
    out.extend_from_slice(&bytes_payload(&[1, 2, 3]));
    out.extend_from_slice(&bytes_payload(&[]));
    out.extend_from_slice(&bytes_payload(&[]));
    out.push(compact(0));
    out
}

fn word(v: u64) -> U256 {
    U256 { lo: v as u128, hi: 0 }
}

fn caller_address() -> EvmAddress {
    EvmAddress { bytes: vec![0x11; 20] }
}

#[test]
fn compact_single_byte() {
    assert_eq!(read_compact(&vec![0], 0), Some((0, 1)));
    assert_eq!(read_compact(&vec![4], 0), Some((1, 1)));
    assert_eq!(read_compact(&vec![252], 0), Some((63, 1)));
}

#[test]
fn compact_two_bytes() {
    // 64 << 2 | 1 == 257: little-endian bytes [1, 1].
    assert_eq!(read_compact(&vec![1, 1], 0), Some((64, 2)));
    // 16383 << 2 | 1 == 65533: bytes [253, 255].
    assert_eq!(read_compact(&vec![253, 255], 0), Some((16383, 2)));
}

#[test]
fn compact_four_bytes() {
    // 16384 << 2 | 2 == 65538: bytes [2, 0, 1, 0].
    assert_eq!(read_compact(&vec![2, 0, 1, 0], 0), Some((16384, 4)));
}

#[test]
fn compact_big_mode() {
    // Mode three with a four-byte payload holding 2^30.
    assert_eq!(
        read_compact(&vec![3, 0, 0, 0, 64], 0),
        Some((1073741824, 5))
    );
}

#[test]
fn compact_rejects_non_canonical() {
    // Value 1 encoded in the two-byte mode must be refused.
    assert_eq!(read_compact(&vec![5, 0], 0), None);
    // Truncated input.
    assert_eq!(read_compact(&vec![1], 0), None);
    assert_eq!(read_compact(&vec![], 0), None);
}

#[test]
fn compact_round_trip_at_mode_boundaries() {
    for v in [0u32, 1, 63, 64, 16383, 16384, 1073741823, 1073741824, u32::MAX] {
        let enc = encode_compact(v);
        assert_eq!(read_compact(&enc, 0), Some((v, enc.len())));
    }
}

#[test]
fn u64_and_bytes_round_trip() {
    let enc = encode_u64(0xDEAD_BEEF_CAFE_F00D);
    assert_eq!(read_u64(&enc, 0), Some((0xDEAD_BEEF_CAFE_F00D, 8)));

    let payload = vec![1u8, 2, 3, 4, 5];
    let enc2 = encode_bytes(&payload);
    let (back, consumed) = read_bytes(&enc2, 0).unwrap();
    assert_eq!(back, payload);
    assert_eq!(consumed, enc2.len());
}

#[test]
fn field_round_trip_every_kind() {
    let fields = vec![
        Field::U8(7),
        Field::U64(1 << 40),
        Field::Bytes(vec![9, 9, 9]),
        Field::AccountId(mock_pub_key(6)),
    ];
    for f in &fields {
        let enc = encode_field(f);
        let (back, consumed) = read_field(&enc, 0).unwrap();
        assert_eq!(consumed, enc.len());
        match (f, &back) {
            (Field::U8(a), Field::U8(b)) => assert_eq!(a, b),
            (Field::U64(a), Field::U64(b)) => assert_eq!(a, b),
            (Field::Bytes(a), Field::Bytes(b)) => assert_eq!(a, b),
            (Field::AccountId(a), Field::AccountId(b)) => assert!(account_eq(a, b)),
            _ => panic!("field kind changed through the round trip"),
        }
    }
}

#[test]
fn u64_little_endian() {
    let data = vec![1, 0, 0, 0, 0, 0, 0, 0];
    assert_eq!(read_u64(&data, 0), Some((1, 8)));
    let data2 = vec![0x88, 0x77, 0x66, 0x55, 0x44, 0x33, 0x22, 0x11];
    assert_eq!(read_u64(&data2, 0), Some((0x1122334455667788, 8)));
    assert_eq!(read_u64(&vec![1, 2, 3], 0), None);
}

#[test]
fn account_needs_thirty_two_bytes() {
    let data = account_payload(7);
    let (acct, p) = read_account(&data, 0).unwrap();
    assert_eq!(p, 32);
    assert!(account_eq(&acct, &mock_pub_key(7)));
    assert!(read_account(&vec![0; 31], 0).is_none());
}

#[test]
fn length_prefixed_bytes() {
    let data = bytes_payload(&[9, 8, 7]);
    let (bytes, p) = read_bytes(&data, 0).unwrap();
    assert_eq!(bytes, vec![9, 8, 7]);
    assert_eq!(p, 4);
    // A length that overruns the input must be refused.
    assert_eq!(read_bytes(&vec![compact(3), 1], 0), None);
}

#[test]
fn tagged_fields() {
    let mut data = vec![compact(1), TAG_U64];
    data.extend_from_slice(&[5, 0, 0, 0, 0, 0, 0, 0]);
    let (fields, _) = read_fields(&data, 0).unwrap();
    assert_eq!(fields.len(), 1);
    match &fields[0] {
        Field::U64(v) => assert_eq!(*v, 5),
        _ => panic!("wrong field kind"),
    }
    // An unknown tag byte fails the whole list.
    assert!(read_fields(&vec![compact(1), 99], 0).is_none());
}

#[test]
fn blueprint_payload_round_trip() {
    let data = blueprint_payload();
    let (bp, consumed) = read_blueprint(&data, 0).unwrap();
    assert_eq!(consumed, data.len());
    assert_eq!(bp.metadata, vec![1, 2, 3]);
    assert_eq!(bp.jobs.len(), 0);
}

#[test]
fn bridge_creates_blueprint() {
    let mut state = new_test_ext(vec![1]);
    let mut gas = GasMeter::new(1_000_000);
    service_market::bridge::create_blueprint(
        &mut state,
        &mut gas,
        &caller_address(),
        &blueprint_payload(),
    )
    .unwrap();
    assert_eq!(state.blueprints.len(), 1);
    assert_eq!(gas.remaining, 1_000_000 - DB_READ_GAS_COST);
}

fn snapshot(state: &State) -> (usize, usize, usize, usize, usize, usize) {
    (
        state.blueprints.len(),
        state.registrations.len(),
        state.requests.len(),
        state.services.len(),
        state.slashes.len(),
        state.events.len(),
    )
}

#[test]
fn bridge_decode_failure_leaves_state_untouched() {
    let mut state = new_test_ext(vec![1]);
    let before = snapshot(&state);
    let mut gas = GasMeter::new(1_000_000);
    let r = service_market::bridge::create_blueprint(
        &mut state,
        &mut gas,
        &caller_address(),
        &vec![0xff, 0xff, 0xff],
    );
    assert_eq!(
        r,
        Err(BridgeError::Revert(RevertReason::InvalidBlueprintData))
    );
    assert_eq!(snapshot(&state), before, "a revert must leave no diff");
}

#[test]
fn bridge_out_of_gas_before_any_work() {
    let mut state = new_test_ext(vec![1]);
    let before = snapshot(&state);
    let mut gas = GasMeter::new(DB_READ_GAS_COST - 1);
    let r = service_market::bridge::create_blueprint(
        &mut state,
        &mut gas,
        &caller_address(),
        &blueprint_payload(),
    );
    assert_eq!(r, Err(BridgeError::OutOfGas));
    assert_eq!(gas.remaining, DB_READ_GAS_COST - 1, "no gas may be taken");
    assert_eq!(snapshot(&state), before);
}

#[test]
fn bridge_dispatch_failure_leaves_state_untouched() {
    let mut state = new_test_ext(vec![1]);
    let before = snapshot(&state);
    let mut gas = GasMeter::new(1_000_000);
    // Unregistering without a registration reverts with the inner error.
    let r = service_market::bridge::unregister_operator(
        &mut state,
        &mut gas,
        &caller_address(),
        word(0),
    );
    assert_eq!(
        r,
        Err(BridgeError::Revert(RevertReason::Dispatch(Error::NotRegistered)))
    );
    assert_eq!(snapshot(&state), before);
}

#[test]
fn bridge_value_must_fit_the_balance_width() {
    let mut state = new_test_ext(vec![1]);
    let mut gas = GasMeter::new(1_000_000);
    service_market::bridge::create_blueprint(
        &mut state,
        &mut gas,
        &caller_address(),
        &blueprint_payload(),
    )
    .unwrap();
    let oversized = U256 { lo: 0, hi: 1 };
    let r = service_market::bridge::register_operator(
        &mut state,
        &mut gas,
        &caller_address(),
        word(0),
        &bytes_payload(&[1]),
        &vec![],
        oversized,
    );
    assert_eq!(r, Err(BridgeError::Revert(RevertReason::ValueNotABalance)));
}

#[test]
fn wide_identifiers_wrap_in_permissive_mode() {
    let mut state = new_test_ext(vec![1]);
    let mut gas = GasMeter::new(1_000_000);
    service_market::bridge::create_blueprint(
        &mut state,
        &mut gas,
        &caller_address(),
        &blueprint_payload(),
    )
    .unwrap();
    // 2^64 aliases blueprint zero after truncation.
    let aliased = U256 { lo: 1u128 << 64, hi: 0 };
    let caller_account = service_market::bridge::map_caller(&caller_address());
    let r = service_market::bridge::register_operator(
        &mut state,
        &mut gas,
        &caller_address(),
        aliased,
        &bytes_payload(&[1]),
        &vec![],
        word(0),
    );
    assert_eq!(r, Ok(()));
    assert!(state.find_registration(0, &caller_account).is_some());
}

#[test]
fn wide_identifiers_refused_in_strict_mode() {
    let mut state = new_test_ext(vec![1]);
    state.strict_id_narrowing = true;
    let mut gas = GasMeter::new(1_000_000);
    let aliased = U256 { lo: 1u128 << 64, hi: 0 };
    let r = service_market::bridge::unregister_operator(
        &mut state,
        &mut gas,
        &caller_address(),
        aliased,
    );
    assert_eq!(r, Err(BridgeError::Revert(RevertReason::IdOutOfRange)));
}

/// A full bridged lifecycle: blueprint, registration, request, approval.
#[test]
fn bridged_request_and_approval() {
    let mut state = new_test_ext(vec![1]);
    let mut gas = GasMeter::new(10_000_000);
    let operator_addr = EvmAddress { bytes: vec![0x22; 20] };
    let requester_addr = EvmAddress { bytes: vec![0x33; 20] };

    service_market::bridge::create_blueprint(
        &mut state,
        &mut gas,
        &caller_address(),
        &blueprint_payload(),
    )
    .unwrap();
    service_market::bridge::register_operator(
        &mut state,
        &mut gas,
        &operator_addr,
        word(0),
        &bytes_payload(&[1]),
        &vec![],
        word(0),
    )
    .unwrap();

    // The named operator is the padded form of the operator address.
    let mut providers = vec![compact(1)];
    let mut op_bytes = vec![0x22u8; 20];
    op_bytes.extend_from_slice(&[0u8; 12]);
    providers.extend_from_slice(&op_bytes);

    service_market::bridge::request_service(
        &mut state,
        &mut gas,
        &requester_addr,
        word(0),
        &vec![],
        &accounts_payload(&[]),
        &providers,
        &vec![compact(0)],
        word(0),
    )
    .unwrap();
    assert_eq!(state.requests.len(), 1);
    let rid = state.requests[0].id;

    service_market::bridge::approve(&mut state, &mut gas, &operator_addr, word(rid), 10)
        .unwrap();
    assert_eq!(state.requests.len(), 0);
    assert_eq!(state.services.len(), 1);
    assert!(state.find_service(0).is_some());
}

#[test]
fn bridge_malformed_request_args_leave_state_untouched() {
    let mut state = new_test_ext(vec![1]);
    let mut gas = GasMeter::new(10_000_000);
    let operator_addr = EvmAddress { bytes: vec![0x22; 20] };
    service_market::bridge::create_blueprint(
        &mut state,
        &mut gas,
        &caller_address(),
        &blueprint_payload(),
    )
    .unwrap();
    service_market::bridge::register_operator(
        &mut state,
        &mut gas,
        &operator_addr,
        word(0),
        &bytes_payload(&[1]),
        &vec![],
        word(0),
    )
    .unwrap();
    let before = snapshot(&state);

    let mut providers = vec![compact(1)];
    providers.extend_from_slice(&[0x22u8; 20]);
    providers.extend_from_slice(&[0u8; 12]);

    // A field list announcing one field with an unknown tag byte.
    let malformed_args = vec![compact(1), 99u8];
    let r = service_market::bridge::request_service(
        &mut state,
        &mut gas,
        &caller_address(),
        word(0),
        &vec![],
        &accounts_payload(&[]),
        &providers,
        &malformed_args,
        word(0),
    );
    assert_eq!(r, Err(BridgeError::Revert(RevertReason::InvalidRequestArgs)));
    assert_eq!(snapshot(&state), before, "a revert must leave no diff");
}

#[test]
fn bridge_narrows_wide_asset_identifiers() {
    let mut state = new_test_ext(vec![1]);
    let mut gas = GasMeter::new(10_000_000);
    let operator_addr = EvmAddress { bytes: vec![0x22; 20] };
    service_market::bridge::create_blueprint(
        &mut state,
        &mut gas,
        &caller_address(),
        &blueprint_payload(),
    )
    .unwrap();
    service_market::bridge::register_operator(
        &mut state,
        &mut gas,
        &operator_addr,
        word(0),
        &bytes_payload(&[1]),
        &vec![],
        word(0),
    )
    .unwrap();

    let mut providers = vec![compact(1)];
    providers.extend_from_slice(&[0x22u8; 20]);
    providers.extend_from_slice(&[0u8; 12]);

    // One in-range asset and one whose value exceeds 32 bits.
    let assets = vec![word(7), U256 { lo: (1u128 << 32) + 5, hi: 0 }];
    service_market::bridge::request_service(
        &mut state,
        &mut gas,
        &caller_address(),
        word(0),
        &assets,
        &accounts_payload(&[]),
        &providers,
        &vec![compact(0)],
        word(0),
    )
    .unwrap();
    assert_eq!(state.requests.len(), 1);
    assert_eq!(state.requests[0].assets, vec![7u32, 5u32]);
}
