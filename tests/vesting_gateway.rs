use starterra::vesting_gateway;
use starterra::errors::ContractError;
use starterra::vesting_gateway::{
    find_vesting_by_user, query_vesting_addresses, update_vesting_addresses, Config, UserVestingResponse, VestingSearch,
};

fn config() -> Config {
    Config { owner: b"owner".to_vec() }
}

fn addrs(n: usize) -> Vec<Vec<u8>> {
    (1..=n).map(|i| format!("vestingAddr{}", i).into_bytes()).collect()
}

#[test]
fn register_vesting_addresses() {
    let c = config();
    let given: Vec<Option<Vec<u8>>> = vec![Some(b"vestingAddr1".to_vec()), None, Some(b"vestingAddr2".to_vec())];
    assert_eq!(update_vesting_addresses(&c, b"wrong_owner", &given), Err(ContractError::Unauthorized));
    assert_eq!(update_vesting_addresses(&c, b"owner", &given).unwrap(), addrs(2));
}

#[test]
fn try_register_too_many_vesting_addresses() {
    let c = config();
    let given: Vec<Option<Vec<u8>>> = addrs(7).into_iter().map(Some).collect();
    assert_eq!(
        update_vesting_addresses(&c, b"owner", &given),
        Err(ContractError::CannotHaveMoreVestingAddresses { max: 6 })
    );
}

#[test]
fn add_vesting_address() {
    let c = config();
    assert_eq!(vesting_gateway::add_vesting_address(&c, b"wrong_owner", &addrs(2), b"x".to_vec()), Err(ContractError::Unauthorized));
    assert_eq!(vesting_gateway::add_vesting_address(&c, b"owner", &addrs(2), b"vestingAddr3".to_vec()).unwrap(), addrs(3));
}

#[test]
fn add_duplicated_vesting_address() {
    assert_eq!(
        vesting_gateway::add_vesting_address(&config(), b"owner", &addrs(2), b"vestingAddr2".to_vec()),
        Err(ContractError::AddressAlreadyRegistered)
    );
}

#[test]
fn try_add_seventh_vesting_address() {
    assert_eq!(
        vesting_gateway::add_vesting_address(&config(), b"owner", &addrs(6), b"vestingAddr7".to_vec()),
        Err(ContractError::CannotAddMoreVestingAddresses { max: 6 })
    );
}

#[test]
fn remove_vesting_address() {
    let c = config();
    assert_eq!(vesting_gateway::remove_vesting_address(&c, b"wrong_owner", &addrs(2), b"vestingAddr1"), Err(ContractError::Unauthorized));
    assert_eq!(vesting_gateway::remove_vesting_address(&c, b"owner", &addrs(2), b"vestingAddr1").unwrap(), vec![b"vestingAddr2".to_vec()]);
}

#[test]
fn remove_not_existing_vesting_address() {
    assert_eq!(
        vesting_gateway::remove_vesting_address(&config(), b"owner", &addrs(2), b"vestingAddr3"),
        Err(ContractError::AddressNotRegistered)
    );
}

#[test]
fn vesting_search_in_order() {
    let no = UserVestingResponse { is_in_vesting: false };
    let yes = UserVestingResponse { is_in_vesting: true };
    assert_eq!(find_vesting_by_user(&vec![], 3), VestingSearch::NeedAnswer(0));
    assert_eq!(find_vesting_by_user(&vec![no], 3), VestingSearch::NeedAnswer(1));
    assert_eq!(find_vesting_by_user(&vec![no, yes], 3), VestingSearch::Found(1));
    assert_eq!(find_vesting_by_user(&vec![no, no, no], 3), VestingSearch::NotFound);
    assert_eq!(find_vesting_by_user(&vec![], 0), VestingSearch::NotFound);
    let r = query_vesting_addresses(&vec![Some(String::from("a")), None, Some(String::from("b"))]);
    assert_eq!(r.vesting_addresses, vec![String::from("a"), String::from("b")]);
}
