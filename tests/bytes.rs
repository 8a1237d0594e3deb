use starterra::bytes::{bytes_eq, compare_bytes, token_balance_key, KeyOrder};
use starterra::common::{assert_sent_native_token_balance, get_sent_native_token_amount, Coin, TransferBurn};
use starterra::delegate_table::{account_info_to_terms_map, data_to_map};
use starterra::errors::ContractError;

#[test]
fn byte_order() {
    assert_eq!(compare_bytes(b"abc", b"abd"), KeyOrder::Less);
    assert_eq!(compare_bytes(b"ab", b"abc"), KeyOrder::Less);
    assert_eq!(compare_bytes(b"abc", b"ab"), KeyOrder::Greater);
    assert_eq!(compare_bytes(b"", b""), KeyOrder::Equal);
    assert!(bytes_eq(b"x1", b"x1"));
    assert!(!bytes_eq(b"x1", b"x2"));
}

#[test]
fn concat_and_balance_key() {
    assert_eq!(starterra::bytes::concat(b"ns", b"key"), b"nskey".to_vec());
    assert_eq!(starterra::bytes::concat(b"", b""), Vec::<u8>::new());
    let mut expected = vec![0u8, 7];
    expected.extend_from_slice(b"balance");
    expected.extend_from_slice(&[1, 2, 3]);
    assert_eq!(token_balance_key(&[1, 2, 3]), expected);
}

#[test]
fn native_fee_checks() {
    let funds = vec![
        Coin { denom: String::from("uluna"), amount: 9 },
        Coin { denom: String::from("uusd"), amount: 5 },
        Coin { denom: String::from("uusd"), amount: 50 },
    ];
    assert_eq!(get_sent_native_token_amount(&funds), 5);
    assert_eq!(get_sent_native_token_amount(&vec![]), 0);
    assert!(assert_sent_native_token_balance(&funds, 5).is_ok());
    assert_eq!(assert_sent_native_token_balance(&funds, 6), Err(ContractError::InsufficientFee));
    assert!(assert_sent_native_token_balance(&vec![], 0).is_ok());
    let mut tb = TransferBurn { transfer: 1, burn: 2 };
    tb.sum_assign(TransferBurn { transfer: 10, burn: 20 });
    assert_eq!(tb, TransferBurn { transfer: 11, burn: 22 });
}

#[test]
fn delegate_tables_later_rows_win() {
    let t = data_to_map(vec![
        (String::from("c1"), vec![(String::from("u"), 1u32), (String::from("u"), 2u32)]),
        (String::from("c2"), vec![(String::from("u"), 3u32)]),
        (String::from("c1"), vec![(String::from("v"), 4u32)]),
    ]);
    assert_eq!(t.get(&String::from("c1"), &String::from("v")), Some(&4));
    assert_eq!(t.get(&String::from("c1"), &String::from("u")), None);
    assert_eq!(t.get(&String::from("c2"), &String::from("u")), Some(&3));
    assert_eq!(t.get(&String::from("c3"), &String::from("u")), None);
    let k = account_info_to_terms_map(&vec![(String::from("kyc"), vec![(String::from("user1"), (true, false))])]);
    let a = k.get(&String::from("kyc"), &String::from("user1")).unwrap();
    assert_eq!(a.address, "user1");
    assert!(a.is_accepted && !a.is_verified);
}
