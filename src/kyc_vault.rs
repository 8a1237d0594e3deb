//! KYC / terms-of-use vault: a provider marks addresses as verified, users
//! accept the terms of use themselves.
use vstd::prelude::*;
use crate::bytes::bytes_eq;
use crate::errors::ContractError;
use vstd::string::*;

verus! {

/// Stored configuration of the vault. Addresses are canonical.
#[derive(Clone, Debug)]
pub struct Config {
    pub owner: Vec<u8>,
    pub kyc_provider_address: Vec<u8>,
}

/// Answer to `IsVerified`.
#[derive(Clone, Debug, PartialEq, Eq)]
pub struct IsVerifiedResponse {
    pub address: String,
    pub is_verified: bool,
}

/// Answer to `IsAccepted`.
#[derive(Clone, Debug, PartialEq, Eq)]
pub struct IsAcceptedResponse {
    pub address: String,
    pub is_accepted: bool,
}

/// Answer to `IsAcceptedVerified`.
#[derive(Clone, Debug, PartialEq, Eq)]
pub struct IsAcceptedVerifiedResponse {
    pub address: String,
    pub is_accepted: bool,
    pub is_verified: bool,
}

/// Queries the vault answers.
#[derive(Clone, Debug, PartialEq, Eq)]
pub enum QueryMsg {
    IsVerified { address: String },
    IsAccepted { address: String },
    IsAcceptedVerified { address: String },
    Config,
}

/// Migration message; it carries nothing.
#[derive(Clone, Copy, Debug, PartialEq, Eq, Structural)]
pub struct MigrateMsg {}

/// Succeeds exactly when `caller` is the KYC provider.
pub fn assert_kyc_provider_privilege(config: &Config, caller: &[u8]) -> (r: Result<(), ContractError>)
    ensures
        r is Ok <==> caller@ == config.kyc_provider_address@,
        r is Err ==> r == Err::<(), ContractError>(ContractError::Unauthorized),
{
    if bytes_eq(config.kyc_provider_address.as_slice(), caller) {
        Ok(())
    } else {
        Err(ContractError::Unauthorized)
    }
}

/// The provider sets the verification flag of each address (true to
/// register, false to unregister); the writes are returned in order.
pub fn register_kyc_accounts(
    config: &Config,
    caller: &[u8],
    addresses: &Vec<Vec<u8>>,
    is_registering: bool,
) -> (r: Result<Vec<(Vec<u8>, bool)>, ContractError>)
    ensures
        r is Ok <==> caller@ == config.kyc_provider_address@,
        r is Err ==> r == Err::<Vec<(Vec<u8>, bool)>, ContractError>(ContractError::Unauthorized),
        r matches Ok(w) ==> w@.len() == addresses@.len() && forall|i: int|
            0 <= i < addresses@.len() ==> (#[trigger] w@[i]).0@ == addresses@[i]@ && w@[i].1 == is_registering,
{
    if !bytes_eq(config.kyc_provider_address.as_slice(), caller) {
        return Err(ContractError::Unauthorized);
    }
    let mut out: Vec<(Vec<u8>, bool)> = Vec::new();
    let mut i: usize = 0;
    while i < addresses.len()
        invariant
            i <= addresses@.len(),
            out@.len() == i,
            forall|j: int| 0 <= j < i ==> (#[trigger] out@[j]).0@ == addresses@[j]@ && out@[j].1 == is_registering,
        decreases addresses@.len() - i,
    {
        let a = addresses[i].clone();
        out.push((a, is_registering));
        i = i + 1;
    }
    Ok(out)
}

/// The provider sets the verification flag of one address; the write is
/// returned.
pub fn register_kyc_account(config: &Config, caller: &[u8], address: Vec<u8>, is_registering: bool) -> (r:
    Result<(Vec<u8>, bool), ContractError>)
    ensures
        r is Ok <==> caller@ == config.kyc_provider_address@,
        r is Err ==> r == Err::<(Vec<u8>, bool), ContractError>(ContractError::Unauthorized),
        r matches Ok(w) ==> w.0 == address && w.1 == is_registering,
{
    if !bytes_eq(config.kyc_provider_address.as_slice(), caller) {
        return Err(ContractError::Unauthorized);
    }
    Ok((address, is_registering))
}

/// The action name and the logged field name of a registration
/// (`is_registering`) or unregistration, of one address or of several
/// (`many`).
pub fn register_log_names(is_registering: bool, many: bool) -> (r: (String, String))
    ensures
        is_registering && !many ==> r.0@ == "register_kyc_address"@ && r.1@ == "registered_kyc_address"@,
        !is_registering && !many ==> r.0@ == "unregister_kyc_address"@ && r.1@ == "unregistered_kyc_address"@,
        is_registering && many ==> r.0@ == "register_kyc_addresses"@ && r.1@ == "registered_kyc_addresses"@,
        !is_registering && many ==> r.0@ == "unregister_kyc_addresses"@ && r.1@
            == "unregistered_kyc_addresses"@,
{
    if is_registering {
        if many {
            (String::from_str("register_kyc_addresses"), String::from_str("registered_kyc_addresses"))
        } else {
            (String::from_str("register_kyc_address"), String::from_str("registered_kyc_address"))
        }
    } else {
        if many {
            (String::from_str("unregister_kyc_addresses"), String::from_str("unregistered_kyc_addresses"))
        } else {
            (String::from_str("unregister_kyc_address"), String::from_str("unregistered_kyc_address"))
        }
    }
}

/// A user accepts the terms of use; accepting twice is refused. Returns the
/// flag to store.
pub fn accept_terms_of_use(already_accepted: bool) -> (r: Result<bool, ContractError>)
    ensures
        already_accepted ==> r == Err::<bool, ContractError>(ContractError::TouAlreadyAccepted),
        !already_accepted ==> r == Ok::<bool, ContractError>(true),
{
    if already_accepted {
        return Err(ContractError::TouAlreadyAccepted);
    }
    Ok(true)
}

/// The owner updates the configuration; a given `owner` becomes the
/// proposed owner.
pub fn update_config(
    config: &mut Config,
    pending_owner: &mut Option<Vec<u8>>,
    caller: &[u8],
    owner: Option<Vec<u8>>,
    kyc_provider_address: Option<Vec<u8>>,
) -> (r: Result<(), ContractError>)
    ensures
        r is Ok <==> caller@ == old(config).owner@,
        r is Err ==> r == Err::<(), ContractError>(ContractError::Unauthorized) && *final(config) == *old(
            config,
        ) && *final(pending_owner) == *old(pending_owner),
        r is Ok ==> final(config).owner == old(config).owner && final(config).kyc_provider_address == (
        match kyc_provider_address {
            Some(a) => a,
            None => old(config).kyc_provider_address,
        }) && *final(pending_owner) == (match owner {
            Some(o) => Some(o),
            None => *old(pending_owner),
        }),
{
    if !bytes_eq(config.owner.as_slice(), caller) {
        return Err(ContractError::Unauthorized);
    }
    match owner {
        Some(o) => {
            *pending_owner = Some(o);
        },
        None => {},
    }
    match kyc_provider_address {
        Some(a) => {
            config.kyc_provider_address = a;
        },
        None => {},
    }
    Ok(())
}

/// A stored flag; an absent one reads as false.
pub open spec fn flag_or_false(stored: Option<bool>) -> bool {
    stored matches Some(b) && b
}

/// The `IsVerified` answer for `address`.
pub fn query_verified(address: String, stored: Option<bool>) -> (r: IsVerifiedResponse)
    ensures
        r.address == address,
        r.is_verified == flag_or_false(stored),
{
    IsVerifiedResponse { address, is_verified: stored == Some(true) }
}

/// The `IsAccepted` answer for `address`.
pub fn query_accepted(address: String, stored: Option<bool>) -> (r: IsAcceptedResponse)
    ensures
        r.address == address,
        r.is_accepted == flag_or_false(stored),
{
    IsAcceptedResponse { address, is_accepted: stored == Some(true) }
}

/// The `IsAcceptedVerified` answer for `address`.
pub fn query_accepted_verified(address: String, accepted: Option<bool>, verified: Option<bool>) -> (r:
    IsAcceptedVerifiedResponse)
    ensures
        r.address == address,
        r.is_accepted == flag_or_false(accepted),
        r.is_verified == flag_or_false(verified),
{
    IsAcceptedVerifiedResponse {
        address,
        is_accepted: accepted == Some(true),
        is_verified: verified == Some(true),
    }
}

} // verus!
