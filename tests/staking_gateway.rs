use starterra::delegate_table::data_to_map;
use starterra::errors::ContractError;
use starterra::staking_gateway::{
    assert_staking_contracts_len, get_staking_amount, instantiate, is_user_staking, query_bond_amount,
    query_can_stake, update_config, BondStatus, CanStakeResponse, CanStakeStatus, Config,
};

fn statuses(contracts: &[&str], bonds: Vec<(String, Vec<(String, u128)>)>, user: &str) -> Vec<BondStatus> {
    let table = data_to_map(bonds);
    contracts
        .iter()
        .map(|c| BondStatus {
            staking_contract: c.to_string(),
            bond_amount: *table.get(&c.to_string(), &user.to_string()).unwrap_or(&0),
        })
        .collect()
}

fn status(contract: &str, can_stake: bool) -> CanStakeStatus {
    CanStakeStatus { staking_contract: String::from(contract), can_stake }
}

#[test]
fn test_querier() {
    let contracts = ["staking0000", "staking0001", "staking0002"];
    let s = statuses(&contracts, vec![], "user0000");
    assert_eq!(
        query_can_stake(&s).unwrap(),
        CanStakeResponse {
            statuses: vec![status("staking0000", true), status("staking0001", true), status("staking0002", true)],
        }
    );
    let b = query_bond_amount(String::from("user0000"), &s).unwrap();
    assert_eq!(b.contract, None);
    assert_eq!(b.bond_amount, 0);

    let one = vec![(String::from("staking0001"), vec![(String::from("user0000"), 100u128)])];
    let s = statuses(&contracts, one, "user0000");
    assert_eq!(
        query_can_stake(&s).unwrap(),
        CanStakeResponse {
            statuses: vec![status("staking0000", false), status("staking0001", true), status("staking0002", false)],
        }
    );
    let b = query_bond_amount(String::from("user0000"), &s).unwrap();
    assert_eq!(b.user, "user0000");
    assert_eq!(b.contract, Some(String::from("staking0001")));
    assert_eq!(b.bond_amount, 100);

    let two = vec![
        (String::from("staking0001"), vec![(String::from("user0000"), 100u128)]),
        (String::from("staking0002"), vec![(String::from("user0000"), 125u128)]),
    ];
    let s = statuses(&contracts, two, "user0000");
    assert_eq!(query_can_stake(&s), Err(ContractError::CannotStakeInMoreThanOneContract));
    assert_eq!(
        query_bond_amount(String::from("user0000"), &s),
        Err(ContractError::CannotStakeInMoreThanOneContract)
    );
}

#[test]
fn exclusivity_edge_cases() {
    assert!(query_can_stake(&vec![]).unwrap().statuses.is_empty());
    assert_eq!(get_staking_amount(&vec![]), Ok((None, 0)));
    let s = vec![
        BondStatus { staking_contract: String::from("A"), bond_amount: 0 },
        BondStatus { staking_contract: String::from("B"), bond_amount: 7 },
    ];
    assert!(is_user_staking(&s));
    assert_eq!(get_staking_amount(&s), Ok((Some(String::from("B")), 7)));
}

#[test]
fn too_many_delegates_rejected() {
    let five: Vec<String> = (0..5).map(|i| format!("s{}", i)).collect();
    let six: Vec<String> = (0..6).map(|i| format!("s{}", i)).collect();
    assert!(assert_staking_contracts_len(&five).is_ok());
    assert_eq!(assert_staking_contracts_len(&six), Err(ContractError::TooManyDelegates));
    let raw6: Vec<Vec<u8>> = (0..6u8).map(|i| vec![i]).collect();
    assert!(instantiate(b"o".to_vec(), raw6.clone()).is_err());
    let mut c = instantiate(b"o".to_vec(), vec![vec![1]]).unwrap();
    let mut pending = None;
    assert_eq!(
        update_config(&mut c, &mut pending, b"o", Some(b"n".to_vec()), Some(raw6)),
        Err(ContractError::TooManyDelegates)
    );
    assert_eq!(pending, None);
    assert_eq!(
        update_config(&mut c, &mut pending, b"x", None, None),
        Err(ContractError::Unauthorized)
    );
    update_config(&mut c, &mut pending, b"o", Some(b"n".to_vec()), Some(vec![vec![2], vec![3]])).unwrap();
    assert_eq!(
        (c.owner.clone(), c.staking_contracts.clone(), pending),
        (b"o".to_vec(), vec![vec![2], vec![3]], Some(b"n".to_vec()))
    );
    let _ = Config { owner: vec![], staking_contracts: vec![] };
}
