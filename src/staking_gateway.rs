//! Staking gateway: decides, from the bonds a user holds at the configured
//! staking delegates, where the user may stake, keeping at most one bond
//! active.
use vstd::prelude::*;
use crate::bytes::bytes_eq;
use crate::errors::ContractError;

verus! {

/// Most staking delegates a gateway may be configured with.
pub const MAX_STAKING_CONTRACTS: usize = 5;

/// Stored configuration of the gateway. Addresses are canonical.
#[derive(Clone, Debug)]
pub struct Config {
    pub owner: Vec<u8>,
    pub staking_contracts: Vec<Vec<u8>>,
}

/// The bond a user holds at one delegate, as read by a query.
#[derive(Clone, Debug, PartialEq, Eq)]
pub struct BondStatus {
    pub staking_contract: String,
    pub bond_amount: u128,
}

/// Whether the user may stake at one delegate.
#[derive(Clone, Debug, PartialEq, Eq)]
pub struct CanStakeStatus {
    pub staking_contract: String,
    pub can_stake: bool,
}

/// Answer to `CanUserStake`: one status per delegate, in configured order.
#[derive(Clone, Debug, PartialEq, Eq)]
pub struct CanStakeResponse {
    pub statuses: Vec<CanStakeStatus>,
}

/// Answer to `BondAmount`: the single delegate holding a bond and its
/// amount, or no delegate and zero.
#[derive(Clone, Debug, PartialEq, Eq)]
pub struct BondAmountResponse {
    pub user: String,
    pub contract: Option<String>,
    pub bond_amount: u128,
}

/// Answer to `Addresses`.
#[derive(Clone, Debug, PartialEq, Eq)]
pub struct AddressesResponse {
    pub addresses: Vec<String>,
}

/// Queries the gateway answers.
#[derive(Clone, Debug, PartialEq, Eq)]
pub enum QueryMsg {
    Config,
    CanUserStake { user: String },
    BondAmount { user: String },
    Addresses,
}

/// Migration message; it carries nothing.
#[derive(Clone, Copy, Debug, PartialEq, Eq, Structural)]
pub struct MigrateMsg {}

/// Number of delegates reporting a nonzero bond.
pub open spec fn count_bonded(s: Seq<BondStatus>) -> nat
    decreases s.len(),
{
    if s.len() == 0 {
        0
    } else {
        count_bonded(s.drop_last()) + if s.last().bond_amount != 0 {
            1nat
        } else {
            0nat
        }
    }
}

/// If no delegate holds a bond, none of them is bonded; one bonded index
/// keeps the count positive.
pub proof fn lemma_count_bonded(s: Seq<BondStatus>)
    ensures
        count_bonded(s) == 0 <==> forall|i: int| 0 <= i < s.len() ==> (#[trigger] s[i]).bond_amount == 0,
        count_bonded(s) <= s.len(),
    decreases s.len(),
{
    if s.len() > 0 {
        let p = s.drop_last();
        lemma_count_bonded(p);
        if forall|i: int| 0 <= i < s.len() ==> (#[trigger] s[i]).bond_amount == 0 {
            assert forall|i: int| 0 <= i < p.len() implies (#[trigger] p[i]).bond_amount == 0 by {
                assert(p[i] == s[i]);
            }
            assert(s[s.len() - 1].bond_amount == 0);
        }
        if count_bonded(s) == 0 {
            assert forall|i: int| 0 <= i < s.len() implies (#[trigger] s[i]).bond_amount == 0 by {
                if i < s.len() - 1 {
                    assert(p[i] == s[i]);
                }
            }
        }
    }
}

/// If exactly one delegate is bonded, it is the only one.
pub proof fn lemma_count_one(s: Seq<BondStatus>, k: int)
    requires
        0 <= k < s.len(),
        s[k].bond_amount != 0,
        count_bonded(s) == 1,
    ensures
        forall|i: int| 0 <= i < s.len() && i != k ==> (#[trigger] s[i]).bond_amount == 0,
    decreases s.len(),
{
    let p = s.drop_last();
    if k == s.len() - 1 {
        lemma_count_bonded(p);
        assert forall|i: int| 0 <= i < s.len() && i != k implies (#[trigger] s[i]).bond_amount == 0 by {
            assert(p[i] == s[i]);
        }
    } else {
        assert(p[k] == s[k]);
        if s.last().bond_amount != 0 {
            lemma_count_bonded(p);
            assert(false);
        }
        lemma_count_one(p, k);
        assert forall|i: int| 0 <= i < s.len() && i != k implies (#[trigger] s[i]).bond_amount == 0 by {
            if i < s.len() - 1 {
                assert(p[i] == s[i]);
            }
        }
    }
}

/// Whether the user may stake at delegate `i`: anywhere while unbonded,
/// else only where the bond is.
pub open spec fn can_stake_at(s: Seq<BondStatus>, i: int) -> bool {
    count_bonded(s) == 0 || s[i].bond_amount != 0
}

/// A user bonded at exactly one delegate may stake there and nowhere else.
pub proof fn lemma_single_bond_exclusive(s: Seq<BondStatus>, k: int)
    requires
        0 <= k < s.len(),
        s[k].bond_amount != 0,
        count_bonded(s) == 1,
    ensures
        forall|i: int| 0 <= i < s.len() ==> (can_stake_at(s, i) <==> i == k),
{
    lemma_count_one(s, k);
}

/// An unbonded user may stake at every delegate.
pub proof fn lemma_unbonded_free(s: Seq<BondStatus>)
    requires
        forall|i: int| 0 <= i < s.len() ==> (#[trigger] s[i]).bond_amount == 0,
    ensures
        forall|i: int| 0 <= i < s.len() ==> can_stake_at(s, i),
{
    lemma_count_bonded(s);
}

/// Counts the bonded delegates, stopping early once two are found.
fn count_bonded_upto2(statuses: &Vec<BondStatus>) -> (r: usize)
    ensures
        r == if count_bonded(statuses@) >= 2 {
            2
        } else {
            count_bonded(statuses@)
        },
{
    let mut n: usize = 0;
    let mut i: usize = 0;
    while i < statuses.len()
        invariant
            i <= statuses.len(),
            n == count_bonded(statuses@.take(i as int)),
            n <= 1,
        decreases statuses.len() - i,
    {
        proof {
            assert(statuses@.take(i + 1).drop_last() =~= statuses@.take(i as int));
        }
        if statuses[i].bond_amount != 0 {
            if n == 1 {
                proof {
                    lemma_count_prefix_le(statuses@, i + 1);
                }
                return 2;
            }
            n = n + 1;
        }
        i = i + 1;
    }
    proof {
        assert(statuses@.take(i as int) =~= statuses@);
    }
    n
}

/// A prefix holds no more bonded delegates than the whole.
pub proof fn lemma_count_prefix_le(s: Seq<BondStatus>, k: int)
    requires
        0 <= k <= s.len(),
    ensures
        count_bonded(s.take(k)) <= count_bonded(s),
    decreases s.len() - k,
{
    if k < s.len() {
        lemma_count_prefix_le(s, k + 1);
        assert(s.take(k + 1).drop_last() =~= s.take(k));
    } else {
        assert(s.take(k) =~= s);
    }
}

/// Whether some delegate reports a nonzero bond.
pub fn is_user_staking(statuses: &Vec<BondStatus>) -> (r: bool)
    ensures
        r == (count_bonded(statuses@) > 0),
{
    count_bonded_upto2(statuses) > 0
}

/// Where the user may stake. Unbonded users may stake anywhere; a user
/// bonded at one delegate only there; a user bonded at two or more is in a
/// state that should not arise and is refused.
pub fn query_can_stake(statuses: &Vec<BondStatus>) -> (r: Result<CanStakeResponse, ContractError>)
    ensures
        r is Err <==> count_bonded(statuses@) >= 2,
        r is Err ==> r == Err::<CanStakeResponse, ContractError>(ContractError::CannotStakeInMoreThanOneContract),
        r matches Ok(resp) ==> resp.statuses@.len() == statuses@.len() && forall|i: int|
            0 <= i < statuses@.len() ==> (#[trigger] resp.statuses@[i]).staking_contract
                == statuses@[i].staking_contract && resp.statuses@[i].can_stake == can_stake_at(
                statuses@,
                i,
            ),
{
    let n = count_bonded_upto2(statuses);
    if n >= 2 {
        return Err(ContractError::CannotStakeInMoreThanOneContract);
    }
    let mut out: Vec<CanStakeStatus> = Vec::new();
    let mut i: usize = 0;
    while i < statuses.len()
        invariant
            i <= statuses.len(),
            n == count_bonded(statuses@),
            out@.len() == i,
            forall|j: int|
                0 <= j < i ==> (#[trigger] out@[j]).staking_contract == statuses@[j].staking_contract
                    && out@[j].can_stake == can_stake_at(statuses@, j),
        decreases statuses.len() - i,
    {
        let can = n == 0 || statuses[i].bond_amount != 0;
        out.push(CanStakeStatus { staking_contract: statuses[i].staking_contract.clone(), can_stake: can });
        i = i + 1;
    }
    Ok(CanStakeResponse { statuses: out })
}

/// The single bond of the user: its delegate and amount, or `(None, 0)`
/// when the user holds none; two or more bonds are refused.
pub fn get_staking_amount(statuses: &Vec<BondStatus>) -> (r: Result<(Option<String>, u128), ContractError>)
    ensures
        r is Err <==> count_bonded(statuses@) >= 2,
        r is Err ==> r == Err::<(Option<String>, u128), ContractError>(
            ContractError::CannotStakeInMoreThanOneContract,
        ),
        count_bonded(statuses@) == 0 ==> r == Ok::<(Option<String>, u128), ContractError>((None, 0)),
        count_bonded(statuses@) == 1 ==> exists|k: int|
            0 <= k < statuses@.len() && (#[trigger] statuses@[k]).bond_amount != 0 && r == Ok::<
                (Option<String>, u128),
                ContractError,
            >((Some(statuses@[k].staking_contract), statuses@[k].bond_amount)),
{
    let n = count_bonded_upto2(statuses);
    if n >= 2 {
        return Err(ContractError::CannotStakeInMoreThanOneContract);
    }
    if n == 0 {
        return Ok((None, 0));
    }
    let mut i: usize = 0;
    while i < statuses.len()
        invariant
            i <= statuses.len(),
            count_bonded(statuses@) == 1,
            count_bonded(statuses@.take(i as int)) == 0,
        decreases statuses.len() - i,
    {
        proof {
            assert(statuses@.take(i + 1).drop_last() =~= statuses@.take(i as int));
        }
        if statuses[i].bond_amount != 0 {
            let r = (Some(statuses[i].staking_contract.clone()), statuses[i].bond_amount);
            assert(statuses@[i as int].bond_amount != 0);
            return Ok(r);
        }
        i = i + 1;
    }
    proof {
        assert(statuses@.take(i as int) =~= statuses@);
    }
    Ok((None, 0))
}

/// The `BondAmount` answer for `user`.
pub fn query_bond_amount(user: String, statuses: &Vec<BondStatus>) -> (r: Result<BondAmountResponse, ContractError>)
    ensures
        r is Err <==> count_bonded(statuses@) >= 2,
        r is Err ==> r == Err::<BondAmountResponse, ContractError>(ContractError::CannotStakeInMoreThanOneContract),
        r matches Ok(resp) ==> resp.user == user && get_staking_amount_ok(statuses@, resp.contract, resp.bond_amount),
{
    match get_staking_amount(statuses) {
        Err(e) => Err(e),
        Ok((contract, bond_amount)) => Ok(BondAmountResponse { user, contract, bond_amount }),
    }
}

/// The pair that `get_staking_amount` returns on success.
pub open spec fn get_staking_amount_ok(s: Seq<BondStatus>, contract: Option<String>, amount: u128) -> bool {
    &&& count_bonded(s) == 0 ==> contract is None && amount == 0
    &&& count_bonded(s) == 1 ==> exists|k: int|
        0 <= k < s.len() && (#[trigger] s[k]).bond_amount != 0 && contract == Some(s[k].staking_contract)
            && amount == s[k].bond_amount
}

/// Refuses a delegate list longer than the gateway accepts.
pub fn assert_staking_contracts_len(staking_contracts: &Vec<String>) -> (r: Result<(), ContractError>)
    ensures
        r is Ok <==> staking_contracts@.len() <= MAX_STAKING_CONTRACTS,
        r is Err ==> r == Err::<(), ContractError>(ContractError::TooManyDelegates),
{
    if staking_contracts.len() > MAX_STAKING_CONTRACTS {
        return Err(ContractError::TooManyDelegates);
    }
    Ok(())
}

/// A fresh configuration, refused when the list is too long.
pub fn instantiate(owner: Vec<u8>, staking_contracts: Vec<Vec<u8>>) -> (r: Result<Config, ContractError>)
    ensures
        r is Ok <==> staking_contracts@.len() <= MAX_STAKING_CONTRACTS,
        r is Err ==> r == Err::<Config, ContractError>(ContractError::TooManyDelegates),
        r matches Ok(c) ==> c.owner == owner && c.staking_contracts == staking_contracts,
{
    if staking_contracts.len() > MAX_STAKING_CONTRACTS {
        return Err(ContractError::TooManyDelegates);
    }
    Ok(Config { owner, staking_contracts })
}

/// A replacement delegate list longer than the gateway accepts.
pub open spec fn list_too_long(l: Option<Vec<Vec<u8>>>) -> bool {
    match l {
        Some(v) => v@.len() > MAX_STAKING_CONTRACTS,
        None => false,
    }
}

/// The owner updates the configuration: a given `owner` becomes the
/// proposed owner, a given list (of at most five) replaces the delegates.
pub fn update_config(
    config: &mut Config,
    pending_owner: &mut Option<Vec<u8>>,
    caller: &[u8],
    owner: Option<Vec<u8>>,
    staking_contracts: Option<Vec<Vec<u8>>>,
) -> (r: Result<(), ContractError>)
    ensures
        caller@ != old(config).owner@ ==> r == Err::<(), ContractError>(ContractError::Unauthorized),
        caller@ == old(config).owner@ && list_too_long(staking_contracts) ==> r == Err::<
            (),
            ContractError,
        >(ContractError::TooManyDelegates),
        r is Err ==> *final(config) == *old(config) && *final(pending_owner) == *old(pending_owner),
        caller@ == old(config).owner@ && !list_too_long(staking_contracts) ==> r is Ok,
        r is Ok ==> final(config).owner == old(config).owner && final(config).staking_contracts == (
        match staking_contracts {
            Some(l) => l,
            None => old(config).staking_contracts,
        }) && *final(pending_owner) == (match owner {
            Some(o) => Some(o),
            None => *old(pending_owner),
        }),
{
    if !bytes_eq(config.owner.as_slice(), caller) {
        return Err(ContractError::Unauthorized);
    }
    match staking_contracts {
        Some(l) => {
            if l.len() > MAX_STAKING_CONTRACTS {
                return Err(ContractError::TooManyDelegates);
            }
            config.staking_contracts = l;
        },
        None => {},
    }
    match owner {
        Some(o) => {
            *pending_owner = Some(o);
        },
        None => {},
    }
    Ok(())
}

} // verus!
