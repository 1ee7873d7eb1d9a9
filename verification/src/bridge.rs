//! The call bridge: lets an EVM-style contract environment invoke the
//! marketplace. Each entry charges a flat gas cost first, maps the caller's
//! 20-byte address to a ledger account, decodes every binary argument, and
//! dispatches the typed command — any failure reverts with a reason and
//! leaves the marketplace state untouched.
use vstd::prelude::*;
use crate::codec::{
    accounts_view, fields_view, jobs_view, read_accounts, read_blueprint, read_fields,
    read_preferences, spec_decode_accounts, spec_decode_blueprint, spec_decode_bytes,
    spec_decode_fields,
};
use crate::registry::{created_blueprint, registered, unregistered};
use crate::requests::{approved, rejected, requested};
use crate::services::{job_called, result_submitted, terminated};
use crate::slashing::{slash_disputed, slash_scheduled};
use crate::state::State;
use crate::types::{Account, Blueprint, Error, Origin, Preferences};

verus! {

/// The flat gas cost charged before any bridged operation does work: one
/// storage read under the configured gas-to-weight ratio.
pub const DB_READ_GAS_COST: u64 = 1000;

/// Every bridged service request is created with this time-to-live, in
/// block-time units.
pub const BRIDGE_REQUEST_TTL: u64 = 10000;

/// A 20-byte EVM-side caller address.
pub struct EvmAddress {
    pub bytes: Vec<u8>,
}

impl View for EvmAddress {
    type V = Seq<u8>;

    open spec fn view(&self) -> Seq<u8> {
        self.bytes@
    }
}

impl EvmAddress {
    /// An address is well formed when it is exactly 20 bytes.
    pub open spec fn wf(&self) -> bool {
        self@.len() == 20
    }
}

/// A 256-bit EVM word, as two little-endian 128-bit halves.
pub struct U256 {
    pub lo: u128,
    pub hi: u128,
}

/// The mathematical value of a 256-bit word.
pub open spec fn u256_value(v: U256) -> int {
    (v.hi as int) * 0x100000000000000000000000000000000 + (v.lo as int)
}

/// The deterministic, injective map from an EVM address to its ledger
/// account: the 20 address bytes followed by 12 zero bytes.
pub open spec fn account_of_address(addr: Seq<u8>) -> Seq<u8> {
    addr + Seq::new(12, |i: int| 0u8)
}

/// Maps the EVM caller address to its ledger account.
pub fn map_caller(addr: &EvmAddress) -> (r: Account)
    requires
        addr.wf(),
    ensures
        r@ == account_of_address(addr@),
        r.wf(),
{
    let mut bytes = crate::types::clone_bytes(&addr.bytes);
    let mut i: usize = 0;
    while i < 12
        invariant
            i <= 12,
            bytes@ =~= addr@ + Seq::new(i as nat, |k: int| 0u8),
        decreases 12 - i,
    {
        bytes.push(0u8);
        proof {
            assert(bytes@ =~= addr@ + Seq::new((i + 1) as nat, |k: int| 0u8));
        }
        i += 1;
    }
    proof {
        assert(bytes@ =~= account_of_address(addr@));
    }
    Account { bytes }
}

/// The gas meter of one bridged invocation.
pub struct GasMeter {
    pub remaining: u64,
}

/// Why a bridged call reverted instead of running to completion.
#[derive(Clone, Copy, PartialEq, Eq, Structural, Debug)]
pub enum RevertReason {
    /// The blueprint payload failed to decode.
    InvalidBlueprintData,
    /// The operator preferences payload failed to decode.
    InvalidPreferencesData,
    /// The registration argument payload failed to decode.
    InvalidRegistrationArgs,
    /// The permitted-callers payload failed to decode.
    InvalidPermittedCallers,
    /// The service-providers payload failed to decode.
    InvalidServiceProviders,
    /// The request argument payload failed to decode.
    InvalidRequestArgs,
    /// The job call argument payload failed to decode.
    InvalidJobCallArgs,
    /// The job result payload failed to decode.
    InvalidJobResult,
    /// The offender account payload failed to decode.
    InvalidOffender,
    /// The attached value does not fit the ledger's balance width.
    ValueNotABalance,
    /// Checked narrowing is on and a wide identifier exceeds 64 bits.
    IdOutOfRange,
    /// The decoded command was dispatched and refused by the marketplace.
    Dispatch(Error),
}

/// How a bridged call failed: the gas meter ran dry before any work, or
/// the call reverted with a reason.
#[derive(Clone, Copy, PartialEq, Eq, Structural, Debug)]
pub enum BridgeError {
    OutOfGas,
    Revert(RevertReason),
}

impl GasMeter {
    /// A fresh meter holding `limit` gas.
    pub fn new(limit: u64) -> (r: GasMeter)
        ensures
            r.remaining == limit,
    {
        GasMeter { remaining: limit }
    }

    /// Charges `cost` gas, refusing — and leaving the meter untouched —
    /// when less than `cost` remains.
    pub fn charge(&mut self, cost: u64) -> (r: Result<(), BridgeError>)
        ensures
            match r {
                Ok(_) => old(self).remaining >= cost && final(self).remaining == old(
                    self,
                ).remaining - cost,
                Err(e) => old(self).remaining < cost && *final(self) == *old(self) && e
                    == BridgeError::OutOfGas,
            },
    {
        if self.remaining < cost {
            return Err(BridgeError::OutOfGas);
        }
        self.remaining = self.remaining - cost;
        Ok(())
    }
}

/// Whether a wide identifier must be refused under checked narrowing.
pub open spec fn id_out_of_range(v: U256) -> bool {
    u256_value(v) > u64::MAX as int
}

/// Narrows a wide identifier to the ledger's 64-bit width. In permissive
/// mode the value wraps — two identifiers that agree on their low 64 bits
/// alias; under `strict_id_narrowing` an oversized identifier is refused
/// instead.
pub fn narrow_id(state: &State, v: &U256) -> (r: Result<u64, BridgeError>)
    ensures
        match r {
            Ok(id) => id as int == u256_value(*v) % 0x10000000000000000 && !(
            state.strict_id_narrowing && id_out_of_range(*v)),
            Err(e) => state.strict_id_narrowing && id_out_of_range(*v) && e == BridgeError::Revert(
                RevertReason::IdOutOfRange,
            ),
        },
{
    if state.strict_id_narrowing && (v.hi != 0 || v.lo > u64::MAX as u128) {
        proof {
            assert(u256_value(*v) > u64::MAX as int) by (nonlinear_arith)
                requires
                    v.hi > 0 || v.lo > u64::MAX as u128,
                    u256_value(*v) == (v.hi as int) * 0x100000000000000000000000000000000 + (
                    v.lo as int),
            ;
        }
        return Err(BridgeError::Revert(RevertReason::IdOutOfRange));
    }
    let rem: u128 = v.lo % 0x10000000000000000u128;
    let id = rem as u64;
    proof {
        assert(id as int == u256_value(*v) % 0x10000000000000000) by (nonlinear_arith)
            requires
                id as int == (v.lo as int) % 0x10000000000000000,
                u256_value(*v) == (v.hi as int) * 0x100000000000000000000000000000000 + (
                v.lo as int),
                v.hi >= 0,
                v.lo >= 0,
        ;
        if state.strict_id_narrowing {
            assert(!id_out_of_range(*v)) by (nonlinear_arith)
                requires
                    v.hi == 0,
                    v.lo <= u64::MAX as u128,
                    u256_value(*v) == (v.hi as int) * 0x100000000000000000000000000000000 + (
                    v.lo as int),
            ;
        }
    }
    Ok(id)
}

/// Each wide asset identifier truncated to the ledger's 32-bit width,
/// position by position.
pub open spec fn assets_narrowed(wide: Seq<U256>, narrow: Seq<u32>) -> bool {
    &&& narrow.len() == wide.len()
    &&& forall|k: int|
        0 <= k < wide.len() ==> (#[trigger] narrow[k]) as int == u256_value(wide[k]) % 0x100000000
}

/// Re-reads the EVM's attached value in the ledger's balance width,
/// refusing values that do not fit.
pub fn value_to_balance(v: &U256) -> (r: Result<u128, BridgeError>)
    ensures
        match r {
            Ok(b) => v.hi == 0 && b == v.lo,
            Err(e) => v.hi != 0 && e == BridgeError::Revert(RevertReason::ValueNotABalance),
        },
{
    if v.hi != 0 {
        return Err(BridgeError::Revert(RevertReason::ValueNotABalance));
    }
    Ok(v.lo)
}

/// Bridged `create_blueprint`: charges the flat cost, decodes the
/// blueprint payload, and dispatches as the mapped caller. Any failure
/// leaves the marketplace state exactly as it was.
pub fn create_blueprint(
    state: &mut State,
    gas: &mut GasMeter,
    caller: &EvmAddress,
    blueprint_data: &Vec<u8>,
) -> (r: Result<(), BridgeError>)
    requires
        old(state).wf(),
        caller.wf(),
    ensures
        final(state).wf(),
        r is Err ==> *final(state) == *old(state),
        match r {
            Ok(_) => exists|bp: Blueprint, id: u64|
                {
                    &&& spec_decode_blueprint(blueprint_data@, 0) matches Some((v, _)) && (
                    bp.metadata@, bp.registration_params@, bp.request_params@, jobs_view(bp.jobs@))
                        == v
                    &&& #[trigger] created_blueprint(
                        *old(state),
                        *final(state),
                        account_of_address(caller@),
                        bp,
                        id,
                    )
                },
            Err(e) => if old(gas).remaining < DB_READ_GAS_COST {
                e == BridgeError::OutOfGas && *final(gas) == *old(gas)
            } else if spec_decode_blueprint(blueprint_data@, 0) is None {
                e == BridgeError::Revert(RevertReason::InvalidBlueprintData)
            } else {
                e matches BridgeError::Revert(RevertReason::Dispatch(e2)) && exists|bp: Blueprint|
                    (spec_decode_blueprint(blueprint_data@, 0) matches Some((v, _)) && (
                    bp.metadata@,
                    bp.registration_params@,
                    bp.request_params@,
                    jobs_view(bp.jobs@),
                    ) == v) && #[trigger] crate::registry::create_blueprint_refused(
                        *old(state),
                        bp,
                        e2,
                    )
            },
        },
        !(r is Err && r->Err_0 == BridgeError::OutOfGas) ==> final(gas).remaining == old(
            gas,
        ).remaining - DB_READ_GAS_COST,
{
    gas.charge(DB_READ_GAS_COST)?;
    let origin = map_caller(caller);
    let (blueprint, _) = match read_blueprint(blueprint_data, 0) {
        Some(x) => x,
        None => {
            return Err(BridgeError::Revert(RevertReason::InvalidBlueprintData));
        },
    };
    match state.create_blueprint(&origin, blueprint) {
        Ok(_) => Ok(()),
        Err(e) => Err(BridgeError::Revert(RevertReason::Dispatch(e))),
    }
}

/// Bridged `register`: decodes preferences and registration arguments,
/// converts the attached value, and registers the mapped caller.
pub fn register_operator(
    state: &mut State,
    gas: &mut GasMeter,
    caller: &EvmAddress,
    blueprint_id: U256,
    preferences_data: &Vec<u8>,
    registration_args_data: &Vec<u8>,
    value: U256,
) -> (r: Result<(), BridgeError>)
    requires
        old(state).wf(),
        caller.wf(),
    ensures
        final(state).wf(),
        r is Err ==> *final(state) == *old(state),
        r is Err ==> (if old(gas).remaining < DB_READ_GAS_COST {
            r->Err_0 == BridgeError::OutOfGas
        } else if old(state).strict_id_narrowing && id_out_of_range(blueprint_id) {
            r->Err_0 == BridgeError::Revert(RevertReason::IdOutOfRange)
        } else if spec_decode_bytes(preferences_data@, 0) is None {
            r->Err_0 == BridgeError::Revert(RevertReason::InvalidPreferencesData)
        } else if registration_args_data@.len() != 0 && spec_decode_fields(
            registration_args_data@,
            0,
        ) is None {
            r->Err_0 == BridgeError::Revert(RevertReason::InvalidRegistrationArgs)
        } else if value.hi != 0 {
            r->Err_0 == BridgeError::Revert(RevertReason::ValueNotABalance)
        } else {
            r->Err_0 matches BridgeError::Revert(RevertReason::Dispatch(e2)) && exists|
                prefs: Preferences,
                args: Vec<crate::types::Field>,
                id: u64,
            |
                {
                    &&& spec_decode_bytes(preferences_data@, 0) matches Some((pv, _)) && prefs@
                        == pv
                    &&& (if registration_args_data@.len() == 0 {
                        args@.len() == 0
                    } else {
                        spec_decode_fields(registration_args_data@, 0) matches Some((av, _))
                            && fields_view(args@) == av
                    })
                    &&& id as int == u256_value(blueprint_id) % 0x10000000000000000
                    &&& #[trigger] crate::registry::register_refused(
                        *old(state),
                        account_of_address(caller@),
                        id,
                        prefs,
                        args@,
                        value.lo,
                        e2,
                    )
                }
        }),
        r == Err::<(), BridgeError>(BridgeError::OutOfGas) ==> *final(gas) == *old(gas),
        !(r == Err::<(), BridgeError>(BridgeError::OutOfGas)) ==> final(gas).remaining == old(
            gas,
        ).remaining - DB_READ_GAS_COST,
        r is Ok ==> exists|prefs: Preferences, args: Vec<crate::types::Field>, id: u64|
            {
                &&& spec_decode_bytes(preferences_data@, 0) matches Some((pv, _)) && prefs@ == pv
                &&& (if registration_args_data@.len() == 0 {
                    args@.len() == 0
                } else {
                    spec_decode_fields(registration_args_data@, 0) matches Some((av, _))
                        && fields_view(args@) == av
                })
                &&& id as int == u256_value(blueprint_id) % 0x10000000000000000
                &&& value.hi == 0
                &&& #[trigger] registered(
                    *old(state),
                    *final(state),
                    account_of_address(caller@),
                    id,
                    prefs,
                    args@,
                    value.lo,
                )
            },
{
    gas.charge(DB_READ_GAS_COST)?;
    let origin = map_caller(caller);
    let id = narrow_id(state, &blueprint_id)?;
    let (prefs, _) = match read_preferences(preferences_data, 0) {
        Some(x) => x,
        None => {
            return Err(BridgeError::Revert(RevertReason::InvalidPreferencesData));
        },
    };
    let args: Vec<crate::types::Field> = if registration_args_data.len() == 0 {
        Vec::new()
    } else {
        match read_fields(registration_args_data, 0) {
            Some((fs, _)) => fs,
            None => {
                return Err(BridgeError::Revert(RevertReason::InvalidRegistrationArgs));
            },
        }
    };
    let balance = value_to_balance(&value)?;
    match state.register(&origin, id, prefs, args, balance) {
        Ok(_) => Ok(()),
        Err(e) => Err(BridgeError::Revert(RevertReason::Dispatch(e))),
    }
}

/// Bridged `unregister`: removes the mapped caller's registration.
pub fn unregister_operator(
    state: &mut State,
    gas: &mut GasMeter,
    caller: &EvmAddress,
    blueprint_id: U256,
) -> (r: Result<(), BridgeError>)
    requires
        old(state).wf(),
        caller.wf(),
    ensures
        final(state).wf(),
        r is Err ==> *final(state) == *old(state),
        r is Err ==> (if old(gas).remaining < DB_READ_GAS_COST {
            r->Err_0 == BridgeError::OutOfGas
        } else if old(state).strict_id_narrowing && id_out_of_range(blueprint_id) {
            r->Err_0 == BridgeError::Revert(RevertReason::IdOutOfRange)
        } else {
            r->Err_0 matches BridgeError::Revert(RevertReason::Dispatch(e2)) && exists|id: u64|
                id as int == u256_value(blueprint_id) % 0x10000000000000000
                    && #[trigger] crate::registry::unregister_refused(
                    *old(state),
                    account_of_address(caller@),
                    id,
                    e2,
                )
        }),
        r == Err::<(), BridgeError>(BridgeError::OutOfGas) ==> *final(gas) == *old(gas),
        !(r == Err::<(), BridgeError>(BridgeError::OutOfGas)) ==> final(gas).remaining == old(
            gas,
        ).remaining - DB_READ_GAS_COST,
        r is Ok ==> exists|id: u64|
            id as int == u256_value(blueprint_id) % 0x10000000000000000
                && #[trigger] unregistered(
                *old(state),
                *final(state),
                account_of_address(caller@),
                id,
            ),
{
    gas.charge(DB_READ_GAS_COST)?;
    let origin = map_caller(caller);
    let id = narrow_id(state, &blueprint_id)?;
    match state.unregister(&origin, id) {
        Ok(_) => Ok(()),
        Err(e) => Err(BridgeError::Revert(RevertReason::Dispatch(e))),
    }
}

/// Bridged `request`: decodes callers, operators and arguments, converts
/// the attached value and asset identifiers, and files the request with
/// the bridge's fixed time-to-live.
pub fn request_service(
    state: &mut State,
    gas: &mut GasMeter,
    caller: &EvmAddress,
    blueprint_id: U256,
    assets: &Vec<U256>,
    permitted_callers_data: &Vec<u8>,
    service_providers_data: &Vec<u8>,
    request_args_data: &Vec<u8>,
    value: U256,
) -> (r: Result<(), BridgeError>)
    requires
        old(state).wf(),
        caller.wf(),
    ensures
        final(state).wf(),
        r is Err ==> *final(state) == *old(state),
        r is Err ==> (if old(gas).remaining < DB_READ_GAS_COST {
            r->Err_0 == BridgeError::OutOfGas
        } else if old(state).strict_id_narrowing && id_out_of_range(blueprint_id) {
            r->Err_0 == BridgeError::Revert(RevertReason::IdOutOfRange)
        } else if spec_decode_accounts(permitted_callers_data@, 0) is None {
            r->Err_0 == BridgeError::Revert(RevertReason::InvalidPermittedCallers)
        } else if spec_decode_accounts(service_providers_data@, 0) is None {
            r->Err_0 == BridgeError::Revert(RevertReason::InvalidServiceProviders)
        } else if spec_decode_fields(request_args_data@, 0) is None {
            r->Err_0 == BridgeError::Revert(RevertReason::InvalidRequestArgs)
        } else if value.hi != 0 {
            r->Err_0 == BridgeError::Revert(RevertReason::ValueNotABalance)
        } else {
            r->Err_0 matches BridgeError::Revert(RevertReason::Dispatch(e2)) && exists|
                callers: Vec<Account>,
                operators: Vec<Account>,
                request_args: Vec<crate::types::Field>,
                asset_ids: Vec<u32>,
                bid: u64,
            |
                {
                    &&& spec_decode_accounts(permitted_callers_data@, 0) matches Some((cv, _))
                        && accounts_view(callers@) == cv
                    &&& spec_decode_accounts(service_providers_data@, 0) matches Some((ov, _))
                        && accounts_view(operators@) == ov
                    &&& spec_decode_fields(request_args_data@, 0) matches Some((av, _))
                        && fields_view(request_args@) == av
                    &&& assets_narrowed(assets@, asset_ids@)
                    &&& bid as int == u256_value(blueprint_id) % 0x10000000000000000
                    &&& #[trigger] crate::requests::request_refused(
                        *old(state),
                        account_of_address(caller@),
                        bid,
                        callers@,
                        operators@,
                        BRIDGE_REQUEST_TTL,
                        asset_ids@,
                        request_args@,
                        value.lo,
                        e2,
                    )
                }
        }),
        r == Err::<(), BridgeError>(BridgeError::OutOfGas) ==> *final(gas) == *old(gas),
        !(r == Err::<(), BridgeError>(BridgeError::OutOfGas)) ==> final(gas).remaining == old(
            gas,
        ).remaining - DB_READ_GAS_COST,
        r is Ok ==> exists|
            callers: Vec<Account>,
            operators: Vec<Account>,
            request_args: Vec<crate::types::Field>,
            asset_ids: Vec<u32>,
            bid: u64,
            id: u64,
        |
            #![trigger requested(
                *old(state),
                *final(state),
                account_of_address(caller@),
                bid,
                callers@,
                operators@,
                BRIDGE_REQUEST_TTL,
                asset_ids@,
                value.lo,
                id,
            ), fields_view(request_args@)]
            {
                &&& spec_decode_accounts(permitted_callers_data@, 0) matches Some((cv, _))
                    && accounts_view(callers@) == cv
                &&& spec_decode_accounts(service_providers_data@, 0) matches Some((ov, _))
                    && accounts_view(operators@) == ov
                &&& spec_decode_fields(request_args_data@, 0) matches Some((av, _))
                    && fields_view(request_args@) == av
                &&& assets_narrowed(assets@, asset_ids@)
                &&& bid as int == u256_value(blueprint_id) % 0x10000000000000000
                &&& value.hi == 0
                &&& requested(
                    *old(state),
                    *final(state),
                    account_of_address(caller@),
                    bid,
                    callers@,
                    operators@,
                    BRIDGE_REQUEST_TTL,
                    asset_ids@,
                    value.lo,
                    id,
                )
            },
{
    gas.charge(DB_READ_GAS_COST)?;
    let origin = map_caller(caller);
    let bid = narrow_id(state, &blueprint_id)?;
    let (callers, _) = match read_accounts(permitted_callers_data, 0) {
        Some(x) => x,
        None => {
            return Err(BridgeError::Revert(RevertReason::InvalidPermittedCallers));
        },
    };
    let (operators, _) = match read_accounts(service_providers_data, 0) {
        Some(x) => x,
        None => {
            return Err(BridgeError::Revert(RevertReason::InvalidServiceProviders));
        },
    };
    let (args, _) = match read_fields(request_args_data, 0) {
        Some(x) => x,
        None => {
            return Err(BridgeError::Revert(RevertReason::InvalidRequestArgs));
        },
    };
    let mut asset_ids: Vec<u32> = Vec::new();
    let n = assets.len();
    let mut i: usize = 0;
    while i < n
        invariant
            i <= n,
            n == assets@.len(),
            asset_ids@.len() == i,
            forall|k: int|
                0 <= k < i ==> (#[trigger] asset_ids@[k]) as int == u256_value(assets@[k])
                    % 0x100000000,
        decreases n - i,
    {
        let rem: u128 = assets[i].lo % 0x100000000u128;
        let a = rem as u32;
        proof {
            assert(a as int == u256_value(assets@[i as int]) % 0x100000000) by (nonlinear_arith)
                requires
                    a as int == (assets@[i as int].lo as int) % 0x100000000,
                    u256_value(assets@[i as int]) == (assets@[i as int].hi as int)
                        * 0x100000000000000000000000000000000 + (assets@[i as int].lo as int),
                    assets@[i as int].hi >= 0,
                    assets@[i as int].lo >= 0,
            ;
        }
        asset_ids.push(a);
        i += 1;
    }
    proof {
        assert(assets_narrowed(assets@, asset_ids@));
    }
    let balance = value_to_balance(&value)?;
    match state.request(&origin, bid, callers, operators, BRIDGE_REQUEST_TTL, asset_ids, args, balance) {
        Ok(_) => Ok(()),
        Err(e) => Err(BridgeError::Revert(RevertReason::Dispatch(e))),
    }
}

/// Bridged `approve`: clamps the restaking percent to at most one hundred,
/// as the ledger's percent type does, and approves as the mapped caller.
pub fn approve(
    state: &mut State,
    gas: &mut GasMeter,
    caller: &EvmAddress,
    request_id: U256,
    restaking_percent: u8,
) -> (r: Result<(), BridgeError>)
    requires
        old(state).wf(),
        caller.wf(),
    ensures
        final(state).wf(),
        r is Err ==> *final(state) == *old(state),
        r is Err ==> (if old(gas).remaining < DB_READ_GAS_COST {
            r->Err_0 == BridgeError::OutOfGas
        } else if old(state).strict_id_narrowing && id_out_of_range(request_id) {
            r->Err_0 == BridgeError::Revert(RevertReason::IdOutOfRange)
        } else {
            r->Err_0 matches BridgeError::Revert(RevertReason::Dispatch(e2)) && exists|id: u64|
                id as int == u256_value(request_id) % 0x10000000000000000
                    && #[trigger] crate::requests::approve_refused(
                    *old(state),
                    account_of_address(caller@),
                    id,
                    e2,
                )
        }),
        r == Err::<(), BridgeError>(BridgeError::OutOfGas) ==> *final(gas) == *old(gas),
        !(r == Err::<(), BridgeError>(BridgeError::OutOfGas)) ==> final(gas).remaining == old(
            gas,
        ).remaining - DB_READ_GAS_COST,
        r is Ok ==> exists|id: u64|
            id as int == u256_value(request_id) % 0x10000000000000000 && #[trigger] approved(
                *old(state),
                *final(state),
                account_of_address(caller@),
                id,
                crate::types::spec_clamp_percent(restaking_percent),
            ),
{
    gas.charge(DB_READ_GAS_COST)?;
    let origin = map_caller(caller);
    let id = narrow_id(state, &request_id)?;
    let percent = crate::types::from_percent(restaking_percent);
    match state.approve(&origin, id, percent) {
        Ok(_) => {
            proof {
                assert(approved(*old(state), *state, account_of_address(caller@), id, percent));
            }
            Ok(())
        },
        Err(e) => Err(BridgeError::Revert(RevertReason::Dispatch(e))),
    }
}

/// Bridged `reject`: rejects as the mapped caller.
pub fn reject(state: &mut State, gas: &mut GasMeter, caller: &EvmAddress, request_id: U256) -> (r:
    Result<(), BridgeError>)
    requires
        old(state).wf(),
        caller.wf(),
    ensures
        final(state).wf(),
        r is Err ==> *final(state) == *old(state),
        r is Err ==> (if old(gas).remaining < DB_READ_GAS_COST {
            r->Err_0 == BridgeError::OutOfGas
        } else if old(state).strict_id_narrowing && id_out_of_range(request_id) {
            r->Err_0 == BridgeError::Revert(RevertReason::IdOutOfRange)
        } else {
            r->Err_0 matches BridgeError::Revert(RevertReason::Dispatch(e2)) && exists|id: u64|
                id as int == u256_value(request_id) % 0x10000000000000000
                    && #[trigger] crate::requests::reject_refused(
                    *old(state),
                    account_of_address(caller@),
                    id,
                    e2,
                )
        }),
        r == Err::<(), BridgeError>(BridgeError::OutOfGas) ==> *final(gas) == *old(gas),
        !(r == Err::<(), BridgeError>(BridgeError::OutOfGas)) ==> final(gas).remaining == old(
            gas,
        ).remaining - DB_READ_GAS_COST,
        r is Ok ==> exists|id: u64|
            id as int == u256_value(request_id) % 0x10000000000000000 && #[trigger] rejected(
                *old(state),
                *final(state),
                account_of_address(caller@),
                id,
            ),
{
    gas.charge(DB_READ_GAS_COST)?;
    let origin = map_caller(caller);
    let id = narrow_id(state, &request_id)?;
    match state.reject(&origin, id) {
        Ok(_) => Ok(()),
        Err(e) => Err(BridgeError::Revert(RevertReason::Dispatch(e))),
    }
}

/// Bridged `terminate`: the mapped caller must own the service. The two
/// externally distinct entry names resolve to this one operation.
pub fn terminate(state: &mut State, gas: &mut GasMeter, caller: &EvmAddress, service_id: U256) -> (
    r: Result<(), BridgeError>)
    requires
        old(state).wf(),
        caller.wf(),
    ensures
        final(state).wf(),
        r is Err ==> *final(state) == *old(state),
        r is Err ==> (if old(gas).remaining < DB_READ_GAS_COST {
            r->Err_0 == BridgeError::OutOfGas
        } else if old(state).strict_id_narrowing && id_out_of_range(service_id) {
            r->Err_0 == BridgeError::Revert(RevertReason::IdOutOfRange)
        } else {
            r->Err_0 matches BridgeError::Revert(RevertReason::Dispatch(e2)) && exists|
                id: u64,
                who: Account,
            |
                who@ == account_of_address(caller@) && id as int == u256_value(service_id)
                    % 0x10000000000000000 && #[trigger] crate::services::terminate_refused(
                    *old(state),
                    Origin::Signed(who),
                    id,
                    e2,
                )
        }),
        r == Err::<(), BridgeError>(BridgeError::OutOfGas) ==> *final(gas) == *old(gas),
        !(r == Err::<(), BridgeError>(BridgeError::OutOfGas)) ==> final(gas).remaining == old(
            gas,
        ).remaining - DB_READ_GAS_COST,
        r is Ok ==> exists|id: u64, who: Account|
            who@ == account_of_address(caller@) && id as int == u256_value(service_id)
                % 0x10000000000000000 && #[trigger] terminated(
                *old(state),
                *final(state),
                Origin::Signed(who),
                id,
            ),
{
    gas.charge(DB_READ_GAS_COST)?;
    let origin = map_caller(caller);
    let id = narrow_id(state, &service_id)?;
    match state.terminate(&Origin::Signed(origin), id) {
        Ok(_) => Ok(()),
        Err(e) => Err(BridgeError::Revert(RevertReason::Dispatch(e))),
    }
}

/// Bridged `terminate` under its second exposed entry name; behaviourally
/// identical to `terminate`.
pub fn terminate_service(
    state: &mut State,
    gas: &mut GasMeter,
    caller: &EvmAddress,
    service_id: U256,
) -> (r: Result<(), BridgeError>)
    requires
        old(state).wf(),
        caller.wf(),
    ensures
        final(state).wf(),
        r is Err ==> *final(state) == *old(state),
        r is Err ==> (if old(gas).remaining < DB_READ_GAS_COST {
            r->Err_0 == BridgeError::OutOfGas
        } else if old(state).strict_id_narrowing && id_out_of_range(service_id) {
            r->Err_0 == BridgeError::Revert(RevertReason::IdOutOfRange)
        } else {
            r->Err_0 matches BridgeError::Revert(RevertReason::Dispatch(e2)) && exists|
                id: u64,
                who: Account,
            |
                who@ == account_of_address(caller@) && id as int == u256_value(service_id)
                    % 0x10000000000000000 && #[trigger] crate::services::terminate_refused(
                    *old(state),
                    Origin::Signed(who),
                    id,
                    e2,
                )
        }),
        r == Err::<(), BridgeError>(BridgeError::OutOfGas) ==> *final(gas) == *old(gas),
        !(r == Err::<(), BridgeError>(BridgeError::OutOfGas)) ==> final(gas).remaining == old(
            gas,
        ).remaining - DB_READ_GAS_COST,
        r is Ok ==> exists|id: u64, who: Account|
            who@ == account_of_address(caller@) && id as int == u256_value(service_id)
                % 0x10000000000000000 && #[trigger] terminated(
                *old(state),
                *final(state),
                Origin::Signed(who),
                id,
            ),
{
    gas.charge(DB_READ_GAS_COST)?;
    let origin = map_caller(caller);
    let id = narrow_id(state, &service_id)?;
    match state.terminate(&Origin::Signed(origin), id) {
        Ok(_) => Ok(()),
        Err(e) => Err(BridgeError::Revert(RevertReason::Dispatch(e))),
    }
}

/// Bridged `call`: decodes the job arguments and records the job call as
/// the mapped caller.
pub fn call_job(
    state: &mut State,
    gas: &mut GasMeter,
    caller: &EvmAddress,
    service_id: U256,
    job: u8,
    args_data: &Vec<u8>,
) -> (r: Result<(), BridgeError>)
    requires
        old(state).wf(),
        caller.wf(),
    ensures
        final(state).wf(),
        r is Err ==> *final(state) == *old(state),
        r is Err ==> (if old(gas).remaining < DB_READ_GAS_COST {
            r->Err_0 == BridgeError::OutOfGas
        } else if old(state).strict_id_narrowing && id_out_of_range(service_id) {
            r->Err_0 == BridgeError::Revert(RevertReason::IdOutOfRange)
        } else if spec_decode_fields(args_data@, 0) is None {
            r->Err_0 == BridgeError::Revert(RevertReason::InvalidJobCallArgs)
        } else {
            r->Err_0 matches BridgeError::Revert(RevertReason::Dispatch(e2)) && exists|
                args: Vec<crate::types::Field>,
                id: u64,
            |
                {
                    &&& spec_decode_fields(args_data@, 0) matches Some((av, _)) && fields_view(
                        args@,
                    ) == av
                    &&& id as int == u256_value(service_id) % 0x10000000000000000
                    &&& #[trigger] crate::services::call_refused(
                        *old(state),
                        account_of_address(caller@),
                        id,
                        job,
                        args@,
                        e2,
                    )
                }
        }),
        r == Err::<(), BridgeError>(BridgeError::OutOfGas) ==> *final(gas) == *old(gas),
        !(r == Err::<(), BridgeError>(BridgeError::OutOfGas)) ==> final(gas).remaining == old(
            gas,
        ).remaining - DB_READ_GAS_COST,
        r is Ok ==> exists|args: Vec<crate::types::Field>, id: u64, call_id: u64|
            {
                &&& spec_decode_fields(args_data@, 0) matches Some((av, _)) && fields_view(args@)
                    == av
                &&& id as int == u256_value(service_id) % 0x10000000000000000
                &&& #[trigger] job_called(
                    *old(state),
                    *final(state),
                    account_of_address(caller@),
                    id,
                    job,
                    args@,
                    call_id,
                )
            },
{
    gas.charge(DB_READ_GAS_COST)?;
    let origin = map_caller(caller);
    let id = narrow_id(state, &service_id)?;
    let (args, _) = match read_fields(args_data, 0) {
        Some(x) => x,
        None => {
            return Err(BridgeError::Revert(RevertReason::InvalidJobCallArgs));
        },
    };
    match state.call(&origin, id, job, args) {
        Ok(_) => Ok(()),
        Err(e) => Err(BridgeError::Revert(RevertReason::Dispatch(e))),
    }
}

/// Bridged `submit_result`: decodes the result payload and records it as
/// the mapped caller.
pub fn submit_result(
    state: &mut State,
    gas: &mut GasMeter,
    caller: &EvmAddress,
    service_id: U256,
    call_id: U256,
    result_data: &Vec<u8>,
) -> (r: Result<(), BridgeError>)
    requires
        old(state).wf(),
        caller.wf(),
    ensures
        final(state).wf(),
        r is Err ==> *final(state) == *old(state),
        r is Err ==> (if old(gas).remaining < DB_READ_GAS_COST {
            r->Err_0 == BridgeError::OutOfGas
        } else if old(state).strict_id_narrowing && id_out_of_range(service_id) {
            r->Err_0 == BridgeError::Revert(RevertReason::IdOutOfRange)
        } else if old(state).strict_id_narrowing && id_out_of_range(call_id) {
            r->Err_0 == BridgeError::Revert(RevertReason::IdOutOfRange)
        } else if spec_decode_fields(result_data@, 0) is None {
            r->Err_0 == BridgeError::Revert(RevertReason::InvalidJobResult)
        } else {
            r->Err_0 matches BridgeError::Revert(RevertReason::Dispatch(e2)) && exists|
                sid: u64,
                cid: u64,
            |
                {
                    &&& sid as int == u256_value(service_id) % 0x10000000000000000
                    &&& cid as int == u256_value(call_id) % 0x10000000000000000
                    &&& #[trigger] crate::services::submit_result_refused(
                        *old(state),
                        account_of_address(caller@),
                        sid,
                        cid,
                        e2,
                    )
                }
        }),
        r == Err::<(), BridgeError>(BridgeError::OutOfGas) ==> *final(gas) == *old(gas),
        !(r == Err::<(), BridgeError>(BridgeError::OutOfGas)) ==> final(gas).remaining == old(
            gas,
        ).remaining - DB_READ_GAS_COST,
        r is Ok ==> exists|outputs: Vec<crate::types::Field>, sid: u64, cid: u64|
            {
                &&& spec_decode_fields(result_data@, 0) matches Some((ov, _)) && fields_view(
                    outputs@,
                ) == ov
                &&& sid as int == u256_value(service_id) % 0x10000000000000000
                &&& cid as int == u256_value(call_id) % 0x10000000000000000
                &&& #[trigger] result_submitted(
                    *old(state),
                    *final(state),
                    account_of_address(caller@),
                    sid,
                    cid,
                    outputs@,
                )
            },
{
    gas.charge(DB_READ_GAS_COST)?;
    let origin = map_caller(caller);
    let sid = narrow_id(state, &service_id)?;
    let cid = narrow_id(state, &call_id)?;
    let (outputs, _) = match read_fields(result_data, 0) {
        Some(x) => x,
        None => {
            return Err(BridgeError::Revert(RevertReason::InvalidJobResult));
        },
    };
    match state.submit_result(&origin, sid, cid, outputs) {
        Ok(_) => Ok(()),
        Err(e) => Err(BridgeError::Revert(RevertReason::Dispatch(e))),
    }
}

/// Bridged `slash`: decodes the offender's 32-byte account, clamps the
/// percent, and schedules the deferred slash as the mapped caller, who
/// must satisfy the per-service slash authorization.
pub fn slash(
    state: &mut State,
    gas: &mut GasMeter,
    caller: &EvmAddress,
    offender_data: &Vec<u8>,
    service_id: U256,
    percent: u8,
) -> (r: Result<(), BridgeError>)
    requires
        old(state).wf(),
        caller.wf(),
    ensures
        final(state).wf(),
        r is Err ==> *final(state) == *old(state),
        r is Err ==> (if old(gas).remaining < DB_READ_GAS_COST {
            r->Err_0 == BridgeError::OutOfGas
        } else if old(state).strict_id_narrowing && id_out_of_range(service_id) {
            r->Err_0 == BridgeError::Revert(RevertReason::IdOutOfRange)
        } else if crate::codec::spec_decode_account(offender_data@, 0) is None {
            r->Err_0 == BridgeError::Revert(RevertReason::InvalidOffender)
        } else {
            r->Err_0 matches BridgeError::Revert(RevertReason::Dispatch(e2)) && exists|
                who: Account,
                offender: Account,
                id: u64,
            |
                {
                    &&& who@ == account_of_address(caller@)
                    &&& crate::codec::spec_decode_account(offender_data@, 0) matches Some((ov, _))
                        && offender@ == ov
                    &&& id as int == u256_value(service_id) % 0x10000000000000000
                    &&& #[trigger] crate::slashing::slash_refused(
                        *old(state),
                        Origin::Signed(who),
                        offender@,
                        id,
                        e2,
                    )
                }
        }),
        r == Err::<(), BridgeError>(BridgeError::OutOfGas) ==> *final(gas) == *old(gas),
        !(r == Err::<(), BridgeError>(BridgeError::OutOfGas)) ==> final(gas).remaining == old(
            gas,
        ).remaining - DB_READ_GAS_COST,
        r is Ok ==> exists|who: Account, offender: Account, id: u64, index: u32|
            {
                &&& who@ == account_of_address(caller@)
                &&& crate::codec::spec_decode_account(offender_data@, 0) matches Some((ov, _))
                    && offender@ == ov
                &&& id as int == u256_value(service_id) % 0x10000000000000000
                &&& #[trigger] slash_scheduled(
                    *old(state),
                    *final(state),
                    Origin::Signed(who),
                    offender@,
                    id,
                    crate::types::spec_clamp_percent(percent),
                    index,
                )
            },
{
    gas.charge(DB_READ_GAS_COST)?;
    let origin = map_caller(caller);
    let id = narrow_id(state, &service_id)?;
    let (offender, _) = match crate::codec::read_account(offender_data, 0) {
        Some(x) => x,
        None => {
            return Err(BridgeError::Revert(RevertReason::InvalidOffender));
        },
    };
    let pct = crate::types::from_percent(percent);
    let signed = Origin::Signed(origin);
    match state.slash(&signed, &offender, id, pct) {
        Ok(index) => {
            proof {
                assert(slash_scheduled(
                    *old(state),
                    *state,
                    signed,
                    offender@,
                    id,
                    pct,
                    index,
                ));
            }
            Ok(())
        },
        Err(e) => Err(BridgeError::Revert(RevertReason::Dispatch(e))),
    }
}

/// Bridged `dispute`: cancels a pending slash as the mapped caller, who
/// must satisfy the per-service dispute authorization.
pub fn dispute(state: &mut State, gas: &mut GasMeter, caller: &EvmAddress, era: u32, index: u32) -> (
    r: Result<(), BridgeError>)
    requires
        old(state).wf(),
        caller.wf(),
    ensures
        final(state).wf(),
        r is Err ==> *final(state) == *old(state),
        r is Err ==> (if old(gas).remaining < DB_READ_GAS_COST {
            r->Err_0 == BridgeError::OutOfGas
        } else {
            r->Err_0 matches BridgeError::Revert(RevertReason::Dispatch(e2)) && exists|
                who: Account,
            |
                who@ == account_of_address(caller@)
                    && #[trigger] crate::slashing::dispute_refused(
                    *old(state),
                    Origin::Signed(who),
                    era,
                    index,
                    e2,
                )
        }),
        r == Err::<(), BridgeError>(BridgeError::OutOfGas) ==> *final(gas) == *old(gas),
        !(r == Err::<(), BridgeError>(BridgeError::OutOfGas)) ==> final(gas).remaining == old(
            gas,
        ).remaining - DB_READ_GAS_COST,
        r is Ok ==> exists|who: Account|
            who@ == account_of_address(caller@) && #[trigger] slash_disputed(
                *old(state),
                *final(state),
                Origin::Signed(who),
                era,
                index,
            ),
{
    gas.charge(DB_READ_GAS_COST)?;
    let origin = map_caller(caller);
    match state.dispute(&Origin::Signed(origin), era, index) {
        Ok(_) => Ok(()),
        Err(e) => Err(BridgeError::Revert(RevertReason::Dispatch(e))),
    }
}

} // verus!
