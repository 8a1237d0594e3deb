use starterra::kyc_vault;
use starterra::errors::ContractError;
use starterra::kyc_vault::{
    assert_kyc_provider_privilege, query_accepted, query_accepted_verified, query_verified,
    register_kyc_account, register_kyc_accounts, register_log_names, update_config, Config,
};
use std::collections::HashMap;

fn config() -> Config {
    Config { owner: b"owner".to_vec(), kyc_provider_address: b"kyc_provider".to_vec() }
}

/// Verification flags as the vault stores them.
type Flags = HashMap<Vec<u8>, bool>;

fn is_verified(flags: &Flags, address: &str) -> (String, bool) {
    let r = query_verified(String::from(address), flags.get(address.as_bytes()).copied());
    (r.address, r.is_verified)
}

#[test]
fn register_kyc_address() {
    let c = config();
    let mut flags = Flags::new();
    assert_eq!(
        register_kyc_account(&c, b"wrong_kyc_provider", b"KYC_ADDRESS1".to_vec(), true),
        Err(ContractError::Unauthorized)
    );
    let (key, flag) = register_kyc_account(&c, b"kyc_provider", b"KYC_ADDRESS1".to_vec(), true).unwrap();
    flags.insert(key, flag);
    assert_eq!(
        register_log_names(true, false),
        (String::from("register_kyc_address"), String::from("registered_kyc_address"))
    );
    assert_eq!(is_verified(&flags, "KYC_ADDRESS1"), (String::from("KYC_ADDRESS1"), true));
    assert_eq!(is_verified(&flags, "KYC_ADDRESS2"), (String::from("KYC_ADDRESS2"), false));
}

#[test]
fn unregister_kyc_address() {
    let c = config();
    let mut flags = Flags::new();
    assert_eq!(
        register_kyc_account(&c, b"wrong_kyc_provider", b"KYC_ADDRESS1".to_vec(), true),
        Err(ContractError::Unauthorized)
    );
    let (key, flag) = register_kyc_account(&c, b"kyc_provider", b"KYC_ADDRESS1".to_vec(), true).unwrap();
    flags.insert(key, flag);
    assert_eq!(is_verified(&flags, "KYC_ADDRESS1"), (String::from("KYC_ADDRESS1"), true));
    let (key, flag) = register_kyc_account(&c, b"kyc_provider", b"KYC_ADDRESS1".to_vec(), false).unwrap();
    flags.insert(key, flag);
    assert_eq!(
        register_log_names(false, false),
        (String::from("unregister_kyc_address"), String::from("unregistered_kyc_address"))
    );
    assert_eq!(is_verified(&flags, "KYC_ADDRESS1"), (String::from("KYC_ADDRESS1"), false));
}

#[test]
fn unregister_kyc_addresses() {
    let c = config();
    let mut flags = Flags::new();
    let addrs = vec![b"KYC_ADDRESS1".to_vec(), b"KYC_ADDRESS2".to_vec()];
    assert_eq!(register_kyc_accounts(&c, b"wrong_kyc_provider", &addrs, true), Err(ContractError::Unauthorized));
    for (key, flag) in register_kyc_accounts(&c, b"kyc_provider", &addrs, true).unwrap() {
        flags.insert(key, flag);
    }
    assert_eq!(is_verified(&flags, "KYC_ADDRESS2"), (String::from("KYC_ADDRESS2"), true));
    for (key, flag) in register_kyc_accounts(&c, b"kyc_provider", &addrs, false).unwrap() {
        flags.insert(key, flag);
    }
    assert_eq!(
        register_log_names(false, true),
        (String::from("unregister_kyc_addresses"), String::from("unregistered_kyc_addresses"))
    );
    assert_eq!(is_verified(&flags, "KYC_ADDRESS1"), (String::from("KYC_ADDRESS1"), false));
    assert_eq!(is_verified(&flags, "KYC_ADDRESS2"), (String::from("KYC_ADDRESS2"), false));
}

#[test]
fn register_kyc_addresses() {
    let c = config();
    let addrs = vec![b"KYC_ADDRESS1".to_vec(), b"KYC_ADDRESS2".to_vec()];
    assert_eq!(register_kyc_accounts(&c, b"wrong_kyc_provider", &addrs, true), Err(ContractError::Unauthorized));
    let w = register_kyc_accounts(&c, b"kyc_provider", &addrs, true).unwrap();
    assert_eq!(w, vec![(b"KYC_ADDRESS1".to_vec(), true), (b"KYC_ADDRESS2".to_vec(), true)]);
    assert_eq!(
        register_log_names(true, true),
        (String::from("register_kyc_addresses"), String::from("registered_kyc_addresses"))
    );
    let w = register_kyc_accounts(&c, b"kyc_provider", &addrs, false).unwrap();
    assert_eq!(w[1], (b"KYC_ADDRESS2".to_vec(), false));
    assert!(assert_kyc_provider_privilege(&c, b"owner").is_err());
}

#[test]
fn accept_terms_of_use() {
    assert_eq!(starterra::kyc_vault::accept_terms_of_use(false), Ok(true));
    assert_eq!(kyc_vault::accept_terms_of_use(true), Err(ContractError::TouAlreadyAccepted));
}

#[test]
fn is_accepted_and_verified_query() {
    let r = query_accepted_verified(String::from("user1"), Some(true), None);
    assert!(r.is_accepted && !r.is_verified);
    assert_eq!(r.address, "user1");
    assert!(!query_verified(String::from("user2"), None).is_verified);
    assert!(query_verified(String::from("user2"), Some(true)).is_verified);
    assert!(!query_accepted(String::from("user2"), Some(false)).is_accepted);
}

#[test]
fn kyc_update_config() {
    let mut c = config();
    let mut pending = None;
    assert_eq!(
        update_config(&mut c, &mut pending, b"addr0000", Some(b"owner2".to_vec()), None),
        Err(ContractError::Unauthorized)
    );
    update_config(&mut c, &mut pending, b"owner", Some(b"owner2".to_vec()), Some(b"kyc_provider2".to_vec())).unwrap();
    assert_eq!(c.owner, b"owner".to_vec());
    assert_eq!(c.kyc_provider_address, b"kyc_provider2".to_vec());
    assert_eq!(pending, Some(b"owner2".to_vec()));
}
