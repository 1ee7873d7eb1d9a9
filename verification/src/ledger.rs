//! Balance and stake primitives. Balances model the external ledger's free
//! balances; stakes mirror the delegation provider's per-operator exposure.
use vstd::prelude::*;
use crate::state::{AccountBalance, OperatorStake, balance_of, stake_of};
use crate::types::{Account, Balance, Error, account_eq, clone_account};

verus! {

/// Balance tables key each account at most once.
pub open spec fn distinct_balance_accts(s: Seq<AccountBalance>) -> bool {
    forall|i: int, j: int| 0 <= i < j < s.len() ==> s[i].account@ != s[j].account@
}

/// Stake tables key each operator at most once.
pub open spec fn distinct_stake_accts(s: Seq<OperatorStake>) -> bool {
    forall|i: int, j: int| 0 <= i < j < s.len() ==> s[i].operator@ != s[j].operator@
}

/// Finds the balance entry of `who`.
fn find_balance(balances: &Vec<AccountBalance>, who: &Account) -> (r: Option<usize>)
    ensures
        match r {
            Some(i) => i < balances@.len() && balances@[i as int].account@ == who@,
            None => forall|j: int| 0 <= j < balances@.len() ==> balances@[j].account@ != who@,
        },
{
    let n = balances.len();
    let mut i: usize = 0;
    while i < n
        invariant
            n == balances@.len(),
            i <= n,
            forall|j: int| 0 <= j < i ==> balances@[j].account@ != who@,
        decreases n - i,
    {
        if account_eq(&balances[i].account, who) {
            return Some(i);
        }
        i += 1;
    }
    None
}

/// Finds the stake entry of `who`.
fn find_stake(stakes: &Vec<OperatorStake>, who: &Account) -> (r: Option<usize>)
    ensures
        match r {
            Some(i) => i < stakes@.len() && stakes@[i as int].operator@ == who@,
            None => forall|j: int| 0 <= j < stakes@.len() ==> stakes@[j].operator@ != who@,
        },
{
    let n = stakes.len();
    let mut i: usize = 0;
    while i < n
        invariant
            n == stakes@.len(),
            i <= n,
            forall|j: int| 0 <= j < i ==> stakes@[j].operator@ != who@,
        decreases n - i,
    {
        if account_eq(&stakes[i].operator, who) {
            return Some(i);
        }
        i += 1;
    }
    None
}

/// Reads the free balance of `who`, zero when unknown.
pub fn get_balance(balances: &Vec<AccountBalance>, who: &Account) -> (r: Balance)
    requires
        distinct_balance_accts(balances@),
    ensures
        r as int == balance_of(balances@, who@),
{
    match find_balance(balances, who) {
        Some(i) => balances[i].amount,
        None => 0,
    }
}

/// Reads the stake of `who`, zero when unknown.
pub fn get_stake(stakes: &Vec<OperatorStake>, who: &Account) -> (r: Balance)
    requires
        distinct_stake_accts(stakes@),
    ensures
        r as int == stake_of(stakes@, who@),
{
    match find_stake(stakes, who) {
        Some(i) => stakes[i].stake,
        None => 0,
    }
}

/// Takes `amount` out of the free balance of `who`; fails without any change
/// when the balance cannot cover it.
pub fn debit(balances: &mut Vec<AccountBalance>, who: &Account, amount: Balance) -> (r: Result<
    (),
    Error,
>)
    requires
        distinct_balance_accts(old(balances)@),
    ensures
        distinct_balance_accts(final(balances)@),
        r is Err ==> *final(balances) == *old(balances) && r == Err::<(), Error>(
            Error::InsufficientBalance,
        ) && balance_of(old(balances)@, who@) < amount,
        r is Ok ==> {
            &&& final(balances)@.len() == old(balances)@.len()
            &&& balance_of(old(balances)@, who@) >= amount
            &&& balance_of(final(balances)@, who@) == balance_of(old(balances)@, who@) - amount
            &&& forall|w: Seq<u8>|
                w != who@ ==> #[trigger] balance_of(final(balances)@, w) == balance_of(
                    old(balances)@,
                    w,
                )
        },
{
    match find_balance(balances, who) {
        Some(i) => {
            let current = balances[i].amount;
            proof {
                let j = choose|j: int|
                    0 <= j < balances@.len() && balances@[j].account@ == who@;
                assert(j == i);
            }
            if current < amount {
                return Err(Error::InsufficientBalance);
            }
            let acct = clone_account(&balances[i].account);
            balances[i] = AccountBalance { account: acct, amount: current - amount };
            proof {
                lemma_balance_update(old(balances)@, balances@, i as int, who@);
            }
            Ok(())
        },
        None => {
            if amount == 0 {
                Ok(())
            } else {
                Err(Error::InsufficientBalance)
            }
        },
    }
}

/// Adds `amount` to the free balance of `who`, creating the entry when
/// absent; fails without any change when the balance would leave its range.
pub fn credit(balances: &mut Vec<AccountBalance>, who: &Account, amount: Balance) -> (r: Result<
    (),
    Error,
>)
    requires
        distinct_balance_accts(old(balances)@),
    ensures
        distinct_balance_accts(final(balances)@),
        r is Err ==> *final(balances) == *old(balances) && r == Err::<(), Error>(
            Error::ArithmeticOverflow,
        ) && balance_of(old(balances)@, who@) + amount > u128::MAX,
        r is Ok ==> {
            &&& balance_of(final(balances)@, who@) == balance_of(old(balances)@, who@) + amount
            &&& forall|w: Seq<u8>|
                w != who@ ==> #[trigger] balance_of(final(balances)@, w) == balance_of(
                    old(balances)@,
                    w,
                )
        },
{
    match find_balance(balances, who) {
        Some(i) => {
            let current = balances[i].amount;
            proof {
                let j = choose|j: int|
                    0 <= j < balances@.len() && balances@[j].account@ == who@;
                assert(j == i);
            }
            if current > u128::MAX - amount {
                return Err(Error::ArithmeticOverflow);
            }
            let acct = clone_account(&balances[i].account);
            balances[i] = AccountBalance { account: acct, amount: current + amount };
            proof {
                lemma_balance_update(old(balances)@, balances@, i as int, who@);
            }
            Ok(())
        },
        None => {
            let acct = clone_account(who);
            balances.push(AccountBalance { account: acct, amount });
            proof {
                let oldseq = old(balances)@;
                let newseq = balances@;
                assert(newseq[newseq.len() - 1].account@ == who@);
                assert forall|w: Seq<u8>| w != who@ implies #[trigger] balance_of(newseq, w)
                    == balance_of(oldseq, w) by {
                    if exists|j: int| 0 <= j < oldseq.len() && oldseq[j].account@ == w {
                        let j = choose|j: int|
                            0 <= j < oldseq.len() && oldseq[j].account@ == w;
                        assert(newseq[j].account@ == w);
                        let j2 = choose|k: int|
                            0 <= k < newseq.len() && newseq[k].account@ == w;
                        assert(oldseq[j2].account@ == w || j2 == newseq.len() - 1);
                    } else {
                        assert(forall|k: int|
                            0 <= k < newseq.len() - 1 ==> newseq[k].account@ != w);
                    }
                }
            }
            Ok(())
        },
    }
}

/// Adds `amount` to the free balance of `who`, creating the entry when
/// absent and stopping at the balance type's maximum. The background
/// sweeps use this total form so that one unrefundable entry cannot stall
/// a whole sweep.
pub fn credit_saturating(balances: &mut Vec<AccountBalance>, who: &Account, amount: Balance)
    requires
        distinct_balance_accts(old(balances)@),
    ensures
        distinct_balance_accts(final(balances)@),
        balance_of(final(balances)@, who@) == if balance_of(old(balances)@, who@) + amount
            <= u128::MAX {
            balance_of(old(balances)@, who@) + amount
        } else {
            u128::MAX as int
        },
        forall|w: Seq<u8>|
            w != who@ ==> #[trigger] balance_of(final(balances)@, w) == balance_of(
                old(balances)@,
                w,
            ),
{
    match find_balance(balances, who) {
        Some(i) => {
            let current = balances[i].amount;
            proof {
                let j = choose|j: int|
                    0 <= j < balances@.len() && balances@[j].account@ == who@;
                assert(j == i);
            }
            let updated = if current > u128::MAX - amount {
                u128::MAX
            } else {
                current + amount
            };
            let acct = clone_account(&balances[i].account);
            balances[i] = AccountBalance { account: acct, amount: updated };
            proof {
                lemma_balance_update(old(balances)@, balances@, i as int, who@);
            }
        },
        None => {
            let acct = clone_account(who);
            balances.push(AccountBalance { account: acct, amount });
            proof {
                let oldseq = old(balances)@;
                let newseq = balances@;
                assert(newseq[newseq.len() - 1].account@ == who@);
                assert forall|w: Seq<u8>| w != who@ implies #[trigger] balance_of(newseq, w)
                    == balance_of(oldseq, w) by {
                    if exists|j: int| 0 <= j < oldseq.len() && oldseq[j].account@ == w {
                        let j = choose|j: int|
                            0 <= j < oldseq.len() && oldseq[j].account@ == w;
                        assert(newseq[j].account@ == w);
                        let j2 = choose|k: int|
                            0 <= k < newseq.len() && newseq[k].account@ == w;
                        assert(oldseq[j2].account@ == w || j2 == newseq.len() - 1);
                    } else {
                        assert(forall|k: int|
                            0 <= k < newseq.len() - 1 ==> newseq[k].account@ != w);
                    }
                }
            }
        },
    }
}

/// Reduces the stake of `who` by `amount`, stopping at zero, as the external
/// staking interface does when a slash exceeds remaining exposure. A missing
/// entry stays missing: slashing an unknown operator moves nothing.
pub fn slash_stake(stakes: &mut Vec<OperatorStake>, who: &Account, amount: Balance)
    requires
        distinct_stake_accts(old(stakes)@),
    ensures
        distinct_stake_accts(final(stakes)@),
        final(stakes)@.len() == old(stakes)@.len(),
        forall|k: int|
            0 <= k < old(stakes)@.len() ==> (#[trigger] final(stakes)@[k]).operator@
                == old(stakes)@[k].operator@ && final(stakes)@[k].active
                == old(stakes)@[k].active,
        stake_of(final(stakes)@, who@) == if stake_of(old(stakes)@, who@) >= amount {
            stake_of(old(stakes)@, who@) - amount
        } else {
            0
        },
        forall|w: Seq<u8>|
            w != who@ ==> #[trigger] stake_of(final(stakes)@, w) == stake_of(old(stakes)@, w),
{
    match find_stake(stakes, who) {
        Some(i) => {
            let current = stakes[i].stake;
            let active = stakes[i].active;
            proof {
                let j = choose|j: int| 0 <= j < stakes@.len() && stakes@[j].operator@ == who@;
                assert(j == i);
            }
            let remaining = if current >= amount {
                current - amount
            } else {
                0
            };
            let acct = clone_account(&stakes[i].operator);
            stakes[i] = OperatorStake { operator: acct, stake: remaining, active };
            proof {
                lemma_stake_update(old(stakes)@, stakes@, i as int, who@);
            }
        },
        None => {
        },
    }
}

/// After an update that keeps every account identity in place and touches
/// only the entry of `w`, every other balance reads unchanged.
proof fn lemma_balance_update(
    oldseq: Seq<AccountBalance>,
    newseq: Seq<AccountBalance>,
    i: int,
    w: Seq<u8>,
)
    requires
        distinct_balance_accts(oldseq),
        newseq.len() == oldseq.len(),
        0 <= i < oldseq.len(),
        oldseq[i].account@ == w,
        forall|k: int| 0 <= k < newseq.len() ==> newseq[k].account@ == oldseq[k].account@,
        forall|k: int| 0 <= k < newseq.len() && k != i ==> newseq[k].amount == oldseq[k].amount,
    ensures
        distinct_balance_accts(newseq),
        balance_of(newseq, w) == newseq[i].amount as int,
        forall|v: Seq<u8>| v != w ==> #[trigger] balance_of(newseq, v) == balance_of(oldseq, v),
{
    assert(newseq[i].account@ == w);
    let wit = choose|k: int| 0 <= k < newseq.len() && newseq[k].account@ == w;
    assert(wit == i);
    assert forall|v: Seq<u8>| v != w implies #[trigger] balance_of(newseq, v) == balance_of(
        oldseq,
        v,
    ) by {
        if exists|j: int| 0 <= j < oldseq.len() && oldseq[j].account@ == v {
            let j = choose|j: int| 0 <= j < oldseq.len() && oldseq[j].account@ == v;
            assert(newseq[j].account@ == v);
            let j2 = choose|k: int| 0 <= k < newseq.len() && newseq[k].account@ == v;
            assert(oldseq[j2].account@ == v);
            assert(j2 == j);
            assert(j != i);
        } else {
            assert(forall|k: int| 0 <= k < newseq.len() ==> newseq[k].account@ != v);
        }
    }
}

/// The stake-table twin of `lemma_balance_update`.
proof fn lemma_stake_update(
    oldseq: Seq<OperatorStake>,
    newseq: Seq<OperatorStake>,
    i: int,
    w: Seq<u8>,
)
    requires
        distinct_stake_accts(oldseq),
        newseq.len() == oldseq.len(),
        0 <= i < oldseq.len(),
        oldseq[i].operator@ == w,
        forall|k: int| 0 <= k < newseq.len() ==> newseq[k].operator@ == oldseq[k].operator@,
        forall|k: int| 0 <= k < newseq.len() && k != i ==> newseq[k].stake == oldseq[k].stake,
    ensures
        distinct_stake_accts(newseq),
        stake_of(newseq, w) == newseq[i].stake as int,
        forall|v: Seq<u8>| v != w ==> #[trigger] stake_of(newseq, v) == stake_of(oldseq, v),
{
    assert(newseq[i].operator@ == w);
    let wit = choose|k: int| 0 <= k < newseq.len() && newseq[k].operator@ == w;
    assert(wit == i);
    assert forall|v: Seq<u8>| v != w implies #[trigger] stake_of(newseq, v) == stake_of(
        oldseq,
        v,
    ) by {
        if exists|j: int| 0 <= j < oldseq.len() && oldseq[j].operator@ == v {
            let j = choose|j: int| 0 <= j < oldseq.len() && oldseq[j].operator@ == v;
            assert(newseq[j].operator@ == v);
            let j2 = choose|k: int| 0 <= k < newseq.len() && newseq[k].operator@ == v;
            assert(oldseq[j2].operator@ == v);
            assert(j2 == j);
            assert(j != i);
        } else {
            assert(forall|k: int| 0 <= k < newseq.len() ==> newseq[k].operator@ != v);
        }
    }
}

} // verus!
