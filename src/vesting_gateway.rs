//! Vesting gateway: a short list of vesting contracts, and the search for
//! the one a user is registered at.
use vstd::prelude::*;
use crate::bytes::{bytes_eq, compare_bytes, KeyOrder};
use crate::errors::ContractError;

verus! {

/// Most vesting contracts the gateway holds.
pub const MAX_VESTING_ADDRESSES: u64 = 6;

/// Stored configuration of the gateway. Addresses are canonical.
#[derive(Clone, Debug)]
pub struct Config {
    pub owner: Vec<u8>,
}

/// Answer to `VestingAddresses`.
#[derive(Clone, Debug, PartialEq, Eq)]
pub struct VestingAddressesResponse {
    pub vesting_addresses: Vec<String>,
}

/// Answer to `FindVestingByUser`.
#[derive(Clone, Debug, PartialEq, Eq)]
pub struct VestingByUserResponse {
    pub vesting_address: Option<String>,
}

/// A vesting contract's answer on whether a user is registered there.
#[derive(Clone, Copy, Debug, PartialEq, Eq, Structural)]
pub struct UserVestingResponse {
    pub is_in_vesting: bool,
}

/// Queries the gateway answers.
#[derive(Clone, Debug, PartialEq, Eq)]
pub enum QueryMsg {
    Config,
    VestingAddresses,
    FindVestingByUser { user_address: String },
}

/// Migration message; it carries nothing.
#[derive(Clone, Copy, Debug, PartialEq, Eq, Structural)]
pub struct MigrateMsg {}

/// The addresses that converted, in order.
pub open spec fn converted(s: Seq<Option<Vec<u8>>>) -> Seq<Seq<u8>>
    decreases s.len(),
{
    if s.len() == 0 {
        Seq::empty()
    } else {
        match s.last() {
            Some(v) => converted(s.drop_last()).push(v@),
            None => converted(s.drop_last()),
        }
    }
}

/// The readable addresses that converted, in order.
pub open spec fn converted_readable(s: Seq<Option<String>>) -> Seq<String>
    decreases s.len(),
{
    if s.len() == 0 {
        Seq::empty()
    } else {
        match s.last() {
            Some(v) => converted_readable(s.drop_last()).push(v),
            None => converted_readable(s.drop_last()),
        }
    }
}

/// The owner replaces the list. Each entry is the canonical form of a given
/// address, `None` where it did not convert; those are left out. A list of
/// more than six addresses is refused.
pub fn update_vesting_addresses(config: &Config, caller: &[u8], addresses: &Vec<Option<Vec<u8>>>) -> (r:
    Result<Vec<Vec<u8>>, ContractError>)
    ensures
        caller@ != config.owner@ ==> r == Err::<Vec<Vec<u8>>, ContractError>(ContractError::Unauthorized),
        caller@ == config.owner@ && addresses@.len() > MAX_VESTING_ADDRESSES ==> r == Err::<
            Vec<Vec<u8>>,
            ContractError,
        >(ContractError::CannotHaveMoreVestingAddresses { max: MAX_VESTING_ADDRESSES }),
        caller@ == config.owner@ && addresses@.len() <= MAX_VESTING_ADDRESSES ==> (r matches Ok(v)
            && v@.map_values(|a: Vec<u8>| a@) == converted(addresses@)),
{
    if !bytes_eq(config.owner.as_slice(), caller) {
        return Err(ContractError::Unauthorized);
    }
    if addresses.len() as u64 > MAX_VESTING_ADDRESSES {
        return Err(ContractError::CannotHaveMoreVestingAddresses { max: MAX_VESTING_ADDRESSES });
    }
    let mut out: Vec<Vec<u8>> = Vec::new();
    let mut i: usize = 0;
    while i < addresses.len()
        invariant
            i <= addresses@.len(),
            out@.map_values(|a: Vec<u8>| a@) == converted(addresses@.take(i as int)),
        decreases addresses@.len() - i,
    {
        proof {
            assert(addresses@.take(i + 1).drop_last() =~= addresses@.take(i as int));
            assert(addresses@.take(i + 1).last() == addresses@[i as int]);
        }
        let ghost prev = out@;
        match &addresses[i] {
            Some(a) => {
                let c = a.clone();
                out.push(c);
                assert(out@.map_values(|a: Vec<u8>| a@) =~= prev.map_values(|a: Vec<u8>| a@).push(a@));
            },
            None => {},
        }
        i = i + 1;
    }
    proof {
        assert(addresses@.take(addresses@.len() as int) =~= addresses@);
    }
    Ok(out)
}

/// Whether `a` is on the list.
pub open spec fn listed(list: Seq<Vec<u8>>, a: Seq<u8>) -> bool {
    exists|i: int| 0 <= i < list.len() && (#[trigger] list[i])@ == a
}

/// Index of the first entry equal to `a`.
fn position(list: &Vec<Vec<u8>>, a: &[u8]) -> (r: Option<usize>)
    ensures
        r is None <==> !listed(list@, a@),
        r matches Some(i) ==> i < list@.len() && list@[i as int]@ == a@ && forall|j: int|
            0 <= j < i ==> (#[trigger] list@[j])@ != a@,
{
    let mut i: usize = 0;
    while i < list.len()
        invariant
            i <= list@.len(),
            forall|j: int| 0 <= j < i ==> (#[trigger] list@[j])@ != a@,
        decreases list@.len() - i,
    {
        if compare_bytes(list[i].as_slice(), a) == KeyOrder::Equal {
            return Some(i);
        }
        i = i + 1;
    }
    None
}

/// The owner appends one address. A full list (six entries) and an address
/// already listed are refused.
pub fn add_vesting_address(config: &Config, caller: &[u8], list: &Vec<Vec<u8>>, address: Vec<u8>) -> (r:
    Result<Vec<Vec<u8>>, ContractError>)
    ensures
        caller@ != config.owner@ ==> r == Err::<Vec<Vec<u8>>, ContractError>(ContractError::Unauthorized),
        caller@ == config.owner@ && list@.len() >= MAX_VESTING_ADDRESSES ==> r == Err::<
            Vec<Vec<u8>>,
            ContractError,
        >(ContractError::CannotAddMoreVestingAddresses { max: MAX_VESTING_ADDRESSES }),
        caller@ == config.owner@ && list@.len() < MAX_VESTING_ADDRESSES && listed(list@, address@) ==> r
            == Err::<Vec<Vec<u8>>, ContractError>(ContractError::AddressAlreadyRegistered),
        caller@ == config.owner@ && list@.len() < MAX_VESTING_ADDRESSES && !listed(list@, address@) ==> (r matches Ok(
            v,
        ) && v@.map_values(|a: Vec<u8>| a@) == list@.map_values(|a: Vec<u8>| a@).push(address@)),
{
    if !bytes_eq(config.owner.as_slice(), caller) {
        return Err(ContractError::Unauthorized);
    }
    if list.len() as u64 >= MAX_VESTING_ADDRESSES {
        return Err(ContractError::CannotAddMoreVestingAddresses { max: MAX_VESTING_ADDRESSES });
    }
    if position(list, address.as_slice()).is_some() {
        return Err(ContractError::AddressAlreadyRegistered);
    }
    let mut out = list.clone();
    let ghost a = address@;
    out.push(address);
    proof {
        assert(out@.map_values(|a: Vec<u8>| a@) =~= list@.map_values(|a: Vec<u8>| a@).push(a));
    }
    Ok(out)
}

/// The owner removes the first entry equal to `address`; an address not on
/// the list is refused.
pub fn remove_vesting_address(config: &Config, caller: &[u8], list: &Vec<Vec<u8>>, address: &[u8]) -> (r:
    Result<Vec<Vec<u8>>, ContractError>)
    ensures
        caller@ != config.owner@ ==> r == Err::<Vec<Vec<u8>>, ContractError>(ContractError::Unauthorized),
        caller@ == config.owner@ && !listed(list@, address@) ==> r == Err::<Vec<Vec<u8>>, ContractError>(
            ContractError::AddressNotRegistered,
        ),
        caller@ == config.owner@ && listed(list@, address@) ==> (r matches Ok(v) && exists|i: int|
            0 <= i < list@.len() && (#[trigger] list@[i])@ == address@ && (forall|j: int|
                0 <= j < i ==> (#[trigger] list@[j])@ != address@) && v@.map_values(|a: Vec<u8>| a@)
                == list@.map_values(|a: Vec<u8>| a@).remove(i)),
{
    if !bytes_eq(config.owner.as_slice(), caller) {
        return Err(ContractError::Unauthorized);
    }
    match position(list, address) {
        None => Err(ContractError::AddressNotRegistered),
        Some(i) => {
            let mut out = list.clone();
            out.remove(i);
            proof {
                assert(out@.map_values(|a: Vec<u8>| a@) =~= list@.map_values(|a: Vec<u8>| a@).remove(
                    i as int,
                ));
                assert(list@[i as int]@ == address@);
            }
            Ok(out)
        },
    }
}

/// The readable addresses that converted, in order; the others are left
/// out of the `VestingAddresses` answer.
pub fn query_vesting_addresses(readable: &Vec<Option<String>>) -> (r: VestingAddressesResponse)
    ensures
        r.vesting_addresses@ == converted_readable(readable@),
{
    let mut out: Vec<String> = Vec::new();
    let mut i: usize = 0;
    while i < readable.len()
        invariant
            i <= readable@.len(),
            out@ == converted_readable(readable@.take(i as int)),
        decreases readable@.len() - i,
    {
        proof {
            assert(readable@.take(i + 1).drop_last() =~= readable@.take(i as int));
            assert(readable@.take(i + 1).last() == readable@[i as int]);
        }
        match &readable[i] {
            Some(s) => {
                out.push(s.clone());
            },
            None => {},
        }
        i = i + 1;
    }
    proof {
        assert(readable@.take(readable@.len() as int) =~= readable@);
    }
    VestingAddressesResponse { vesting_addresses: out }
}

/// Where the search for a user's vesting contract stands.
#[derive(Clone, Copy, Debug, PartialEq, Eq, Structural)]
pub enum VestingSearch {
    /// The contract at this index reports the user.
    Found(usize),
    /// The contract at this index must be asked next.
    NeedAnswer(usize),
    /// No contract reports the user.
    NotFound,
}

/// The next step of the search, given the answers of the first contracts
/// in list order: the first one that reports the user wins, and contracts
/// are asked one at a time, in order, until then.
pub fn find_vesting_by_user(answers: &Vec<UserVestingResponse>, n_contracts: usize) -> (r: VestingSearch)
    requires
        answers@.len() <= n_contracts,
    ensures
        r matches VestingSearch::Found(i) ==> i < answers@.len() && answers@[i as int].is_in_vesting && forall|
            j: int,
        | 0 <= j < i ==> !(#[trigger] answers@[j]).is_in_vesting,
        r matches VestingSearch::NeedAnswer(i) ==> i == answers@.len() && i < n_contracts && forall|j: int|
            0 <= j < answers@.len() ==> !(#[trigger] answers@[j]).is_in_vesting,
        r is NotFound ==> answers@.len() == n_contracts && forall|j: int|
            0 <= j < answers@.len() ==> !(#[trigger] answers@[j]).is_in_vesting,
{
    let mut i: usize = 0;
    while i < answers.len()
        invariant
            i <= answers@.len(),
            forall|j: int| 0 <= j < i ==> !(#[trigger] answers@[j]).is_in_vesting,
        decreases answers@.len() - i,
    {
        if answers[i].is_in_vesting {
            return VestingSearch::Found(i);
        }
        i = i + 1;
    }
    if answers.len() < n_contracts {
        VestingSearch::NeedAnswer(answers.len())
    } else {
        VestingSearch::NotFound
    }
}

} // verus!
