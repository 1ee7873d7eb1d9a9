//! A deterministic test harness: canonical test accounts, a genesis state
//! builder, a fake delegation provider, and the EVM identity and gas-weight
//! mappings of the test runtime.
use vstd::prelude::*;
use crate::bridge::{EvmAddress, account_of_address};
use crate::state::{AccountBalance, OperatorStake, State, balance_of, stake_of};
use crate::types::{Account, Balance, clone_account, distinct_accts};

verus! {

/// Each authority starts with this free balance at genesis.
pub const GENESIS_BALANCE: Balance = 20000;

/// Each authority starts with this bonded stake at genesis.
pub const GENESIS_STAKE: Balance = 10000;

/// The configured ratio between gas and execution weight.
pub const WEIGHT_PER_GAS: u64 = 25000;

/// The canonical test account identity: one id byte, repeated.
pub open spec fn mock_account_id(id: u8) -> Seq<u8> {
    Seq::new(32, |i: int| id)
}

/// Builds the canonical test account for an id byte.
pub fn mock_pub_key(id: u8) -> (r: Account)
    ensures
        r@ == mock_account_id(id),
        r.wf(),
{
    let mut bytes: Vec<u8> = Vec::new();
    let mut i: usize = 0;
    while i < 32
        invariant
            i <= 32,
            bytes@ =~= mock_account_id(id).subrange(0, i as int),
        decreases 32 - i,
    {
        bytes.push(id);
        proof {
            assert(bytes@ =~= mock_account_id(id).subrange(0, i + 1));
        }
        i += 1;
    }
    proof {
        assert(bytes@ =~= mock_account_id(id));
    }
    Account { bytes }
}

/// Builds the canonical test accounts for a list of id bytes.
pub fn mock_authorities(ids: Vec<u8>) -> (r: Vec<Account>)
    ensures
        r@.len() == ids@.len(),
        forall|i: int| 0 <= i < ids@.len() ==> (#[trigger] r@[i])@ == mock_account_id(ids@[i]),
{
    let mut out: Vec<Account> = Vec::new();
    let n = ids.len();
    let mut i: usize = 0;
    while i < n
        invariant
            i <= n,
            n == ids@.len(),
            out@.len() == i,
            forall|j: int| 0 <= j < i ==> (#[trigger] out@[j])@ == mock_account_id(ids@[j]),
        decreases n - i,
    {
        out.push(mock_pub_key(ids[i]));
        i += 1;
    }
    out
}

/// Builds a genesis marketplace state for a set of distinct authorities:
/// every authority holds the genesis free balance and the genesis active
/// stake, the first block has begun, and no other entity exists yet.
pub fn new_test_ext_raw_authorities(authorities: Vec<Account>) -> (s: State)
    requires
        distinct_accts(authorities@),
    ensures
        s.wf(),
        s.blueprints@.len() == 0,
        s.registrations@.len() == 0,
        s.requests@.len() == 0,
        s.services@.len() == 0,
        s.slashes@.len() == 0,
        s.events@.len() == 0,
        s.next_request_id == 0,
        s.next_service_id == 0,
        s.current_block == 1,
        s.current_era == 0,
        s.next_slash_index == 0,
        !s.strict_id_narrowing,
        s.balances@.len() == authorities@.len(),
        s.stakes@.len() == authorities@.len(),
        forall|i: int|
            0 <= i < authorities@.len() ==> balance_of(
                s.balances@,
                (#[trigger] authorities@[i])@,
            ) == GENESIS_BALANCE as int,
        forall|i: int|
            0 <= i < authorities@.len() ==> stake_of(s.stakes@, (#[trigger] authorities@[i])@)
                == GENESIS_STAKE as int,
{
    let mut s = State::new();
    let n = authorities.len();
    let mut i: usize = 0;
    while i < n
        invariant
            i <= n,
            n == authorities@.len(),
            distinct_accts(authorities@),
            s.blueprints@.len() == 0,
            s.registrations@.len() == 0,
            s.requests@.len() == 0,
            s.services@.len() == 0,
            s.slashes@.len() == 0,
            s.events@.len() == 0,
            s.next_request_id == 0,
            s.next_service_id == 0,
            s.current_block == 0,
            s.current_era == 0,
            s.next_slash_index == 0,
            !s.strict_id_narrowing,
            s.balances@.len() == i,
            s.stakes@.len() == i,
            forall|j: int|
                0 <= j < i ==> (#[trigger] s.balances@[j]).account@ == authorities@[j]@
                    && s.balances@[j].amount == GENESIS_BALANCE,
            forall|j: int|
                0 <= j < i ==> (#[trigger] s.stakes@[j]).operator@ == authorities@[j]@
                    && s.stakes@[j].stake == GENESIS_STAKE && s.stakes@[j].active,
            s.wf(),
        decreases n - i,
    {
        let acct = clone_account(&authorities[i]);
        s.balances.push(AccountBalance { account: acct, amount: GENESIS_BALANCE });
        let op = clone_account(&authorities[i]);
        s.stakes.push(OperatorStake { operator: op, stake: GENESIS_STAKE, active: true });
        i += 1;
    }
    s.current_block = 1;
    proof {
        assert forall|k: int|
            0 <= k < authorities@.len() implies balance_of(
            s.balances@,
            (#[trigger] authorities@[k])@,
        ) == GENESIS_BALANCE as int by {
            assert(s.balances@[k].account@ == authorities@[k]@);
            let w = choose|j: int|
                0 <= j < s.balances@.len() && s.balances@[j].account@ == authorities@[k]@;
            assert(w == k);
        }
        assert forall|k: int|
            0 <= k < authorities@.len() implies stake_of(
            s.stakes@,
            (#[trigger] authorities@[k])@,
        ) == GENESIS_STAKE as int by {
            assert(s.stakes@[k].operator@ == authorities@[k]@);
            let w = choose|j: int|
                0 <= j < s.stakes@.len() && s.stakes@[j].operator@ == authorities@[k]@;
            assert(w == k);
        }
    }
    s
}

/// Builds a genesis state from canonical test account ids.
pub fn new_test_ext(ids: Vec<u8>) -> (s: State)
    requires
        forall|i: int, j: int| 0 <= i < j < ids@.len() ==> ids@[i] != ids@[j],
    ensures
        s.wf(),
        s.current_block == 1,
        s.events@.len() == 0,
        s.balances@.len() == ids@.len(),
        forall|i: int|
            0 <= i < ids@.len() ==> balance_of(s.balances@, mock_account_id(#[trigger] ids@[i]))
                == GENESIS_BALANCE as int,
        forall|i: int|
            0 <= i < ids@.len() ==> stake_of(s.stakes@, mock_account_id(#[trigger] ids@[i]))
                == GENESIS_STAKE as int,
{
    let authorities = mock_authorities(ids);
    proof {
        assert forall|i: int, j: int|
            0 <= i < j < authorities@.len() implies authorities@[i]@ != authorities@[j]@ by {
            assert(authorities@[i]@[0] == ids@[i]);
            assert(authorities@[j]@[0] == ids@[j]);
        }
    }
    let s = new_test_ext_raw_authorities(authorities);
    proof {
        assert forall|i: int|
            0 <= i < ids@.len() implies balance_of(
            s.balances@,
            mock_account_id(#[trigger] ids@[i]),
        ) == GENESIS_BALANCE as int by {
            assert(authorities@[i]@ == mock_account_id(ids@[i]));
            assert(balance_of(s.balances@, authorities@[i]@) == GENESIS_BALANCE as int);
        }
        assert forall|i: int|
            0 <= i < ids@.len() implies stake_of(
            s.stakes@,
            mock_account_id(#[trigger] ids@[i]),
        ) == GENESIS_STAKE as int by {
            assert(authorities@[i]@ == mock_account_id(ids@[i]));
            assert(stake_of(s.stakes@, authorities@[i]@) == GENESIS_STAKE as int);
        }
    }
    s
}

/// A builder for the genesis state, kept for symmetry with the runtime's
/// externality builder.
pub struct ExtBuilder;

impl Default for ExtBuilder {
    /// The one, empty builder.
    fn default() -> (r: ExtBuilder) {
        ExtBuilder
    }
}

impl ExtBuilder {
    /// Builds a genesis state from canonical test account ids.
    pub fn build(&self, ids: Vec<u8>) -> (s: State)
        requires
            forall|i: int, j: int| 0 <= i < j < ids@.len() ==> ids@[i] != ids@[j],
        ensures
            s.wf(),
            s.current_block == 1,
            s.events@.len() == 0,
    {
        new_test_ext(ids)
    }
}

/// The session handler of the test runtime: every rotation hook is a
/// no-op.
pub struct MockSessionHandler;

impl MockSessionHandler {
    /// Called with the genesis validator set; ignores it.
    pub fn on_genesis_session(_validators: &Vec<Account>) {
    }

    /// Called with each new validator set; ignores it.
    pub fn on_new_session(_changed: bool, _validators: &Vec<Account>) {
    }

    /// Called when a validator is disabled; ignores it.
    pub fn on_disabled(_validator_index: u32) {
    }
}

/// The session manager of the test runtime: the first three sessions run
/// with the four canonical validators, later ones keep the set unchanged.
pub struct MockSessionManager;

impl MockSessionManager {
    /// Ends a session; the fake manager keeps no state.
    pub fn end_session(_index: u32) {
    }

    /// Starts a session; the fake manager keeps no state.
    pub fn start_session(_index: u32) {
    }

    /// The validator set of session `idx`: the four canonical validators
    /// for the first three sessions, then no change.
    pub fn new_session(idx: u32) -> (r: Option<Vec<Account>>)
        ensures
            idx <= 2 ==> (r matches Some(v) && v@.len() == 4 && forall|k: int|
                0 <= k < 4 ==> (#[trigger] v@[k])@ == mock_account_id((k + 1) as u8)),
            idx > 2 ==> r is None,
    {
        if idx == 0 || idx == 1 || idx == 2 {
            Some(mock_authorities(vec![1, 2, 3, 4]))
        } else {
            None
        }
    }
}

/// The fake delegation provider of the test runtime: fixed point-in-time
/// stake facts, with the canonical account of id ten inactive and unstaked.
pub struct MockDelegationManager;

impl MockDelegationManager {
    /// The provider's current round; the fake provider stays at zero.
    pub fn get_current_round() -> (r: u32)
        ensures
            r == 0,
    {
        0
    }

    /// Every account counts as an operator to the fake provider.
    pub fn is_operator(_operator: &Account) -> (r: bool)
        ensures
            r,
    {
        true
    }

    /// Every operator is active except the canonical account of id ten.
    pub fn is_operator_active(operator: &Account) -> (r: bool)
        ensures
            r == (operator@ != mock_account_id(10)),
    {
        let inactive = mock_pub_key(10);
        !crate::types::account_eq(operator, &inactive)
    }

    /// Every operator holds a flat stake except the canonical account of
    /// id ten, which holds none.
    pub fn get_operator_stake(operator: &Account) -> (r: Balance)
        ensures
            r == (if operator@ == mock_account_id(10) {
                0
            } else {
                1000 as Balance
            }),
    {
        let inactive = mock_pub_key(10);
        if crate::types::account_eq(operator, &inactive) {
            0
        } else {
            1000
        }
    }

    /// The fake provider tracks no per-asset delegation.
    pub fn get_total_delegation_by_asset_id(_operator: &Account, _asset_id: u32) -> (r: Balance)
        ensures
            r == 0,
    {
        0
    }

    /// The fake provider tracks no delegators.
    pub fn get_delegators_for_operator(_operator: &Account) -> (r: Vec<(Account, Balance, u32)>)
        ensures
            r@.len() == 0,
    {
        Vec::new()
    }
}

/// The gas-to-weight mapping of the test runtime: a fixed ratio.
pub struct PalletEVMGasWeightMapping;

impl PalletEVMGasWeightMapping {
    /// Converts gas to execution weight at the fixed ratio, saturating at
    /// the weight type's maximum.
    pub fn gas_to_weight(gas: u64, _without_base_weight: bool) -> (r: u64)
        ensures
            r == (if gas as int * WEIGHT_PER_GAS as int <= u64::MAX as int {
                gas as int * WEIGHT_PER_GAS as int
            } else {
                u64::MAX as int
            }),
    {
        if gas <= u64::MAX / WEIGHT_PER_GAS {
            proof {
                assert(gas as int * WEIGHT_PER_GAS as int <= u64::MAX as int) by (nonlinear_arith)
                    requires
                        gas <= u64::MAX / WEIGHT_PER_GAS,
                        WEIGHT_PER_GAS == 25000,
                ;
            }
            gas * WEIGHT_PER_GAS
        } else {
            proof {
                assert(gas as int * WEIGHT_PER_GAS as int > u64::MAX as int) by (nonlinear_arith)
                    requires
                        gas > u64::MAX / WEIGHT_PER_GAS,
                        WEIGHT_PER_GAS == 25000,
                ;
            }
            u64::MAX
        }
    }

    /// Converts execution weight back to gas at the fixed ratio.
    pub fn weight_to_gas(weight: u64) -> (r: u64)
        ensures
            r == weight / WEIGHT_PER_GAS,
    {
        weight / WEIGHT_PER_GAS
    }
}

/// The EVM identity mapping of the test runtime.
pub struct PalletEVMAddressMapping;

impl PalletEVMAddressMapping {
    /// Maps a 20-byte EVM address to its ledger account: the address bytes
    /// padded with zeroes — deterministic and injective.
    pub fn into_account_id(address: &EvmAddress) -> (r: Account)
        requires
            address.wf(),
        ensures
            r@ == account_of_address(address@),
            r.wf(),
    {
        crate::bridge::map_caller(address)
    }

    /// Maps a ledger account back to an EVM address: its first 20 bytes.
    pub fn into_address(account_id: &Account) -> (r: EvmAddress)
        requires
            account_id.wf(),
        ensures
            r@ == account_id@.subrange(0, 20),
            r.wf(),
    {
        let mut bytes: Vec<u8> = Vec::new();
        let mut i: usize = 0;
        while i < 20
            invariant
                i <= 20,
                account_id@.len() == 32,
                bytes@ =~= account_id@.subrange(0, i as int),
            decreases 20 - i,
        {
            bytes.push(account_id.bytes[i]);
            i += 1;
        }
        proof {
            assert(bytes@ =~= account_id@.subrange(0, 20));
        }
        EvmAddress { bytes }
    }
}

} // verus!
