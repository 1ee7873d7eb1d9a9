//! The test harness items: canonical accounts, the genesis builder, the
//! fake delegation provider, identity and gas mappings, event matching,
//! and exact percentage arithmetic.
use service_market::bridge::EvmAddress;
use service_market::events::{Event, assert_events};
use service_market::ledger::{get_balance, get_stake};
use service_market::mock::{
    ExtBuilder, MockDelegationManager, MockSessionManager, PalletEVMAddressMapping,
    PalletEVMGasWeightMapping, mock_authorities, mock_pub_key, new_test_ext,
    new_test_ext_raw_authorities, GENESIS_BALANCE, GENESIS_STAKE, WEIGHT_PER_GAS,
};
use service_market::types::{account_eq, percent_of};

#[test]
fn mock_pub_key_repeats_the_id_byte() {
    let a = mock_pub_key(4);
    assert_eq!(a.bytes, vec![4u8; 32]);
}

#[test]
fn mock_authorities_maps_each_id() {
    let auths = mock_authorities(vec![1, 2, 3]);
    assert_eq!(auths.len(), 3);
    assert!(account_eq(&auths[0], &mock_pub_key(1)));
    assert!(account_eq(&auths[2], &mock_pub_key(3)));
}

#[test]
fn genesis_state_funds_every_authority() {
    let state = new_test_ext_raw_authorities(mock_authorities(vec![1, 2]));
    assert_eq!(state.current_block, 1);
    assert_eq!(get_balance(&state.balances, &mock_pub_key(1)), GENESIS_BALANCE);
    assert_eq!(get_stake(&state.stakes, &mock_pub_key(2)), GENESIS_STAKE);
    assert_eq!(get_balance(&state.balances, &mock_pub_key(9)), 0);
}

#[test]
fn ext_builder_builds_a_genesis_state() {
    let state = ExtBuilder::default().build(vec![1, 2, 3, 4]);
    assert_eq!(state.balances.len(), 4);
    assert_eq!(state.events.len(), 0);
}

#[test]
fn delegation_provider_facts() {
    assert_eq!(MockDelegationManager::get_current_round(), 0);
    assert!(MockDelegationManager::is_operator(&mock_pub_key(1)));
    assert!(MockDelegationManager::is_operator_active(&mock_pub_key(1)));
    assert!(!MockDelegationManager::is_operator_active(&mock_pub_key(10)));
    assert_eq!(MockDelegationManager::get_operator_stake(&mock_pub_key(1)), 1000);
    assert_eq!(MockDelegationManager::get_operator_stake(&mock_pub_key(10)), 0);
    assert_eq!(
        MockDelegationManager::get_total_delegation_by_asset_id(&mock_pub_key(1), 0),
        0
    );
    assert_eq!(
        MockDelegationManager::get_delegators_for_operator(&mock_pub_key(1)).len(),
        0
    );
}

#[test]
fn address_mapping_round_trip() {
    let addr = EvmAddress { bytes: vec![0x42; 20] };
    let account = PalletEVMAddressMapping::into_account_id(&addr);
    assert_eq!(&account.bytes[0..20], &[0x42u8; 20]);
    assert_eq!(&account.bytes[20..32], &[0u8; 12]);
    let back = PalletEVMAddressMapping::into_address(&account);
    assert_eq!(back.bytes, addr.bytes);
}

#[test]
fn gas_weight_mapping_uses_the_fixed_ratio() {
    assert_eq!(PalletEVMGasWeightMapping::gas_to_weight(2, false), 2 * WEIGHT_PER_GAS);
    assert_eq!(PalletEVMGasWeightMapping::gas_to_weight(u64::MAX, false), u64::MAX);
    assert_eq!(PalletEVMGasWeightMapping::weight_to_gas(50000), 2);
}

#[test]
fn percent_of_exact_values() {
    assert_eq!(percent_of(10000, 20), 2000);
    assert_eq!(percent_of(999, 10), 99);
    assert_eq!(percent_of(1, 99), 0);
    assert_eq!(percent_of(u128::MAX, 100), u128::MAX);
    assert_eq!(percent_of(12345, 0), 0);
}

#[test]
fn assert_events_matches_the_log_tail() {
    let log = vec![
        Event::ServiceTerminated { service_id: 1 },
        Event::SlashDisputed { era: 2, index: 3 },
        Event::ServiceInitiated { request_id: 4, service_id: 5 },
    ];
    let tail = vec![
        Event::SlashDisputed { era: 2, index: 3 },
        Event::ServiceInitiated { request_id: 4, service_id: 5 },
    ];
    assert!(assert_events(&log, &tail));
    let wrong_order = vec![
        Event::ServiceInitiated { request_id: 4, service_id: 5 },
        Event::SlashDisputed { era: 2, index: 3 },
    ];
    assert!(!assert_events(&log, &wrong_order));
    let wrong_payload = vec![Event::ServiceInitiated { request_id: 4, service_id: 6 }];
    assert!(!assert_events(&log, &wrong_payload));
    let too_long = vec![
        Event::ServiceTerminated { service_id: 0 },
        Event::ServiceTerminated { service_id: 1 },
        Event::SlashDisputed { era: 2, index: 3 },
        Event::ServiceInitiated { request_id: 4, service_id: 5 },
    ];
    assert!(!assert_events(&log, &too_long));
}

#[test]
fn session_manager_rotates_the_first_three_sessions() {
    for idx in 0..3u32 {
        let set = MockSessionManager::new_session(idx).unwrap();
        assert_eq!(set.len(), 4);
        assert!(account_eq(&set[0], &mock_pub_key(1)));
        assert!(account_eq(&set[3], &mock_pub_key(4)));
    }
    assert!(MockSessionManager::new_session(3).is_none());
}

#[test]
fn new_test_ext_starts_clean() {
    let state = new_test_ext(vec![7, 8]);
    assert_eq!(state.blueprints.len(), 0);
    assert_eq!(state.requests.len(), 0);
    assert_eq!(state.services.len(), 0);
    assert_eq!(state.slashes.len(), 0);
}
