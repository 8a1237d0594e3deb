use starterra::airdrop;
use starterra::airdrop::{
    fetch_user_possible_claim, passed_missions,
    query_user_info, register_airdrop_accounts, tier_count, update_config, user_ido_check,
    user_stake_check, AirdropAccount, AirdropInfo, Config, PassedMissions, ust_withdraw,
};
use starterra::common::{Coin, Outbound};
use starterra::delegate_table::{data_to_map, DelegateTable};
use starterra::errors::ContractError;
use starterra::math::unlocked_amount;

fn owner() -> Vec<u8> {
    b"owner".to_vec()
}

fn config(fee: u128) -> Config {
    Config {
        owner: owner(),
        starterra_token: b"starterra".to_vec(),
        lp_staking_addresses: vec![],
        stt_staking_addresses: vec![],
        ido_addresses: vec![],
        claim_fee: fee,
    }
}

fn fee(amount: u128) -> Vec<Coin> {
    vec![Coin { denom: String::from("uusd"), amount }]
}

const NONE: PassedMissions = PassedMissions { is_in_lp_staking: false, is_in_stt_staking: false, is_in_ido: false };

#[test]
fn unlocked_formula_values() {
    assert_eq!(unlocked_amount(1_000_000, 1), 250_000);
    assert_eq!(unlocked_amount(1_000_000, 2), 500_000);
    assert_eq!(unlocked_amount(1_000_000, 3), 750_000);
    assert_eq!(unlocked_amount(1_000_000, 4), 1_000_000);
    assert_eq!(unlocked_amount(7, 1), 1);
    assert_eq!(unlocked_amount(7, 3), 5);
    assert_eq!(unlocked_amount(u128::MAX, 4), u128::MAX);
    assert_eq!(unlocked_amount(u128::MAX, 2), u128::MAX / 2);
}

#[test]
fn tier_count_counts_categories() {
    assert_eq!(tier_count(&NONE), 1);
    let all = PassedMissions { is_in_lp_staking: true, is_in_stt_staking: true, is_in_ido: true };
    assert_eq!(tier_count(&all), 4);
    let two = PassedMissions { is_in_lp_staking: false, is_in_stt_staking: true, is_in_ido: true };
    assert_eq!(tier_count(&two), 3);
    assert_eq!(fetch_user_possible_claim(1_000_000, &two), 750_000);
}

#[test]
fn category_checks_fail_open() {
    assert!(!user_stake_check(&vec![]));
    assert!(!user_stake_check(&vec![None, Some(0), None]));
    assert!(user_stake_check(&vec![None, Some(0), Some(100)]));
    assert!(!user_ido_check(&vec![]));
    assert!(!user_ido_check(&vec![None, Some(false)]));
    assert!(user_ido_check(&vec![Some(false), Some(true)]));
    let m = passed_missions(&vec![Some(5)], &vec![None], &vec![Some(true)]);
    assert_eq!(m, PassedMissions { is_in_lp_staking: true, is_in_stt_staking: false, is_in_ido: true });
}

#[test]
fn claim() {
    let c = config(1_000_000);
    let rec = AirdropInfo { amount: 1_000_000, already_claimed: 0 };
    let out = starterra::airdrop::claim(&c, &rec, &fee(1_000_000), &NONE).unwrap();
    assert_eq!(out.transfer_amount, 250_000);
    assert_eq!(out.record, AirdropInfo { amount: 1_000_000, already_claimed: 250_000 });
    let info = query_user_info(&out.record, &NONE);
    assert_eq!(info.claimed_amount, 250_000);
    assert_eq!(info.initial_claim_amount, 1_000_000);

    let rec2 = AirdropInfo { amount: 2_000_000, already_claimed: 0 };
    let out2 = starterra::airdrop::claim(&c, &rec2, &fee(1_000_000), &NONE).unwrap();
    assert_eq!(out2.transfer_amount, 500_000);
}

#[test]
fn double_claim_should_reject() {
    let c = config(1_000_000);
    let rec = AirdropInfo { amount: 1_000_000, already_claimed: 0 };
    let out = airdrop::claim(&c, &rec, &fee(1_000_000), &NONE).unwrap();
    let again = airdrop::claim(&c, &out.record, &fee(1_000_000), &NONE);
    assert_eq!(again, Err(ContractError::DoMoreTasks));
}

/// The answers of each delegate category about `user`; an unknown user
/// reads as a failed query.
fn missions_from(
    lp: &[&str],
    stt: &[&str],
    ido: &[&str],
    bonds: &DelegateTable<u128>,
    joins: &DelegateTable<bool>,
    user: &str,
) -> PassedMissions {
    let u = user.to_string();
    let bond = |c: &&str| bonds.get(&c.to_string(), &u).copied();
    let lp_bonds: Vec<Option<u128>> = lp.iter().map(bond).collect();
    let stt_bonds: Vec<Option<u128>> = stt.iter().map(bond).collect();
    let ido_answers: Vec<Option<bool>> = ido.iter().map(|c| joins.get(&c.to_string(), &u).copied()).collect();
    passed_missions(&lp_bonds, &stt_bonds, &ido_answers)
}

#[test]
fn double_claim_after_staking_should_not_reject() {
    let lp = ["staking1", "staking2", "staking3"];
    let stt = ["stakingstt1", "stakingstt2", "stakingstt3"];
    let ido = ["ido1", "ido2"];
    let user1 = "terra1qfqa2eu9wp272ha93lj4yhcenrc6ymng079nu8";
    let user2 = "terra1csnmlw0v0pyy36tk7scfwvh8ujpnydu5dtfj58";
    let c = config(1_000_000);
    let accounts = vec![
        AirdropAccount { address: String::from(user1), already_claimed: 0, amount: 1_000_000 },
        AirdropAccount { address: String::from(user2), already_claimed: 0, amount: 1_000_000 },
    ];
    let recs = register_airdrop_accounts(&c, &owner(), &accounts).unwrap();

    let no_bonds = data_to_map::<u128>(vec![]);
    let no_joins = data_to_map::<bool>(vec![]);
    let m = missions_from(&lp, &stt, &ido, &no_bonds, &no_joins, user1);
    let info = query_user_info(&recs[0], &m);
    assert_eq!(info.claimed_amount, 0);
    assert_eq!(info.initial_claim_amount, 1_000_000);
    assert_eq!(info.current_passed_missions, NONE);

    let first = airdrop::claim(&c, &recs[0], &fee(1_000_000), &m).unwrap();
    let info = query_user_info(&first.record, &m);
    assert_eq!(info.claimed_amount, 250_000);
    assert_eq!(info.initial_claim_amount, 1_000_000);
    assert_eq!(info.current_passed_missions, NONE);

    let bonds = data_to_map(vec![
        (String::from("staking2"), vec![(String::from(user1), 100u128)]),
        (String::from("stakingstt2"), vec![(String::from(user1), 100u128), (String::from(user2), 100u128)]),
    ]);
    let joins = data_to_map(vec![
        (String::from("ido1"), vec![(String::from(user1), true)]),
        (String::from("ido2"), vec![(String::from(user2), true)]),
    ]);
    let m = missions_from(&lp, &stt, &ido, &bonds, &joins, user1);
    let second = airdrop::claim(&c, &first.record, &fee(1_000_000), &m).unwrap();
    assert_eq!(second.transfer_amount, 750_000);
    let info = query_user_info(&second.record, &m);
    assert_eq!(info.claimed_amount, 1_000_000);
    assert_eq!(info.initial_claim_amount, 1_000_000);
    assert_eq!(
        info.current_passed_missions,
        PassedMissions { is_in_lp_staking: true, is_in_stt_staking: true, is_in_ido: true }
    );

    let m2 = missions_from(&lp, &stt, &ido, &bonds, &joins, user2);
    assert_eq!(
        query_user_info(&recs[1], &m2).current_passed_missions,
        PassedMissions { is_in_lp_staking: false, is_in_stt_staking: true, is_in_ido: true }
    );
}

#[test]
fn claim_without_fee_should_reject() {
    let c = config(1_000_000);
    let rec = AirdropInfo { amount: 1_000_000, already_claimed: 0 };
    assert_eq!(airdrop::claim(&c, &rec, &vec![], &NONE), Err(ContractError::InsufficientFee));
    assert_eq!(airdrop::claim(&c, &rec, &fee(999_999), &NONE), Err(ContractError::InsufficientFee));
    let other = vec![Coin { denom: String::from("uluna"), amount: 5_000_000 }];
    assert_eq!(airdrop::claim(&c, &rec, &other, &NONE), Err(ContractError::InsufficientFee));
    let zero_fee = config(0);
    assert!(airdrop::claim(&zero_fee, &rec, &vec![], &NONE).is_ok());
}

#[test]
fn claim_after_full_allocation_is_already_claimed() {
    let c = config(0);
    let all = PassedMissions { is_in_lp_staking: true, is_in_stt_staking: true, is_in_ido: true };
    let rec = AirdropInfo { amount: 1_000_000, already_claimed: 0 };
    let out = airdrop::claim(&c, &rec, &vec![], &all).unwrap();
    assert_eq!(out.transfer_amount, 1_000_000);
    assert_eq!(airdrop::claim(&c, &out.record, &vec![], &all), Err(ContractError::AlreadyClaimed));
    let empty = AirdropInfo { amount: 0, already_claimed: 0 };
    assert_eq!(airdrop::claim(&c, &empty, &vec![], &NONE), Err(ContractError::AlreadyClaimed));
}

#[test]
fn claimed_never_decreases_over_calls() {
    let c = config(0);
    let steps = [
        NONE,
        NONE,
        PassedMissions { is_in_lp_staking: true, is_in_stt_staking: false, is_in_ido: false },
        NONE,
        PassedMissions { is_in_lp_staking: true, is_in_stt_staking: true, is_in_ido: true },
    ];
    let mut rec = AirdropInfo { amount: 999, already_claimed: 0 };
    let mut last = 0u128;
    for m in steps.iter() {
        if let Ok(o) = airdrop::claim(&c, &rec, &vec![], m) {
            rec = o.record;
        }
        assert!(rec.already_claimed >= last);
        last = rec.already_claimed;
    }
    assert_eq!(rec.already_claimed, 999);
}

#[test]
fn claim_with_second_register() {
    let c = config(1_000_000);
    let accounts = vec![AirdropAccount {
        address: String::from("terra1qfqa2eu9wp272ha93lj4yhcenrc6ymng079nu8"),
        already_claimed: 0,
        amount: 1_000_000,
    }];
    let recs = register_airdrop_accounts(&c, &owner(), &accounts).unwrap();
    let out = airdrop::claim(&c, &recs[0], &fee(1_000_000), &NONE).unwrap();
    assert_eq!(out.transfer_amount, 250_000);
    let top_up = vec![AirdropAccount {
        address: String::from("terra1qfqa2eu9wp272ha93lj4yhcenrc6ymng079nu8"),
        already_claimed: out.record.already_claimed,
        amount: 2_000_000,
    }];
    let recs = register_airdrop_accounts(&c, &owner(), &top_up).unwrap();
    let out2 = airdrop::claim(&c, &recs[0], &fee(1_000_000), &NONE).unwrap();
    assert_eq!(out2.transfer_amount, 250_000);
    assert_eq!(out2.record.already_claimed, 500_000);
}

#[test]
fn claim_with_second_register_over_limit() {
    let c = config(1_000_000);
    let rec = AirdropInfo { amount: 1_000_000, already_claimed: 0 };
    let out = airdrop::claim(&c, &rec, &fee(1_000_000), &NONE).unwrap();
    assert_eq!(out.transfer_amount, 250_000);
    let lowered = AirdropInfo { amount: 500_000, already_claimed: out.record.already_claimed };
    assert_eq!(airdrop::claim(&c, &lowered, &fee(1_000_000), &NONE), Err(ContractError::DoMoreTasks));
}

#[test]
fn register_requires_owner() {
    let c = config(0);
    let accounts = vec![AirdropAccount { address: String::from("a"), already_claimed: 3, amount: 9 }];
    assert_eq!(register_airdrop_accounts(&c, b"other", &accounts), Err(ContractError::Unauthorized));
    assert_eq!(
        register_airdrop_accounts(&c, &owner(), &accounts).unwrap(),
        vec![AirdropInfo { amount: 9, already_claimed: 3 }]
    );
}

#[test]
fn airdrop_update_config() {
    let mut c = config(5);
    let mut pending: Option<Vec<u8>> = None;
    let r = update_config(&mut c, &mut pending, b"owner2", Some(b"x".to_vec()), None, None, None, Some(1));
    assert_eq!(r, Err(ContractError::Unauthorized));
    assert_eq!(c.claim_fee, 5);
    assert_eq!(pending, None);
    update_config(
        &mut c,
        &mut pending,
        &owner(),
        Some(b"owner2".to_vec()),
        Some(vec![b"staking1".to_vec(), b"staking2".to_vec()]),
        None,
        Some(vec![b"ido1".to_vec()]),
        Some(7),
    )
    .unwrap();
    assert_eq!(c.owner, owner());
    assert_eq!(pending, Some(b"owner2".to_vec()));
    assert_eq!(c.lp_staking_addresses.len(), 2);
    assert!(c.stt_staking_addresses.is_empty());
    assert_eq!(c.ido_addresses, vec![b"ido1".to_vec()]);
    assert_eq!(c.claim_fee, 7);
}

#[test]
fn end_airdrop_genesis() {
    let c = config(0);
    assert_eq!(
        starterra::airdrop::end_airdrop_genesis(&c, b"owner2", String::from("owner"), 100, 1_000_000),
        Err(ContractError::Unauthorized)
    );
    let msgs = airdrop::end_airdrop_genesis(&c, &owner(), String::from("owner"), 100, 1_000_000).unwrap();
    assert_eq!(
        msgs,
        vec![
            Outbound::NativeSend { to: String::from("owner"), amount: 100 },
            Outbound::TokenBurn { amount: 1_000_000 },
        ]
    );
    assert!(airdrop::end_airdrop_genesis(&c, &owner(), String::from("owner"), 0, 0).unwrap().is_empty());
}

#[test]
fn emergency_withdraw() {
    let c = config(0);
    let msgs = starterra::airdrop::emergency_withdraw(&c, &owner(), 1000, String::from("otherAddr"), 100).unwrap();
    assert_eq!(
        msgs,
        vec![
            Outbound::TokenTransfer { recipient: String::from("otherAddr"), amount: 1000 },
            Outbound::NativeSend { to: String::from("otherAddr"), amount: 100 },
        ]
    );
    let msgs = airdrop::emergency_withdraw(&c, &owner(), 1000, String::from("otherAddr"), 0).unwrap();
    assert_eq!(msgs.len(), 1);
    assert_eq!(airdrop::emergency_withdraw(&c, b"x", 1, String::from("y"), 0), Err(ContractError::Unauthorized));
}

#[test]
fn ust_withdraw_empty_balance() {
    let c = config(0);
    assert_eq!(ust_withdraw(&c, &owner(), String::from("to"), 0), Err(ContractError::BalanceIsEmpty));
    assert_eq!(
        ust_withdraw(&c, &owner(), String::from("to"), 42).unwrap(),
        vec![Outbound::NativeSend { to: String::from("to"), amount: 42 }]
    );
}
