use blockchain::crypto::{gen, key_to_string, serialize_key, verify, CryptoError};
use blockchain::frontend::{
    empty_transaction, execute, parse_command, parse_u64, run_command, signed_transfer, Action,
    Command,
};
use blockchain::network::TRANSACTION;
use blockchain::structures::serialize_transaction;

fn words(line: &str) -> Vec<String> {
    line.split(' ').map(|s| s.to_string()).collect()
}

#[test]
fn parse_u64_like_std() {
    for s in ["0", "42", "+7", "007", "18446744073709551615"] {
        assert_eq!(parse_u64(s), s.parse::<u64>().ok(), "{}", s);
    }
    for s in ["", "+", "-1", "-0", "1a", " 1", "18446744073709551616", "99999999999999999999", "++1"] {
        assert_eq!(parse_u64(s), None, "{}", s);
        assert_eq!(s.parse::<u64>().ok(), None, "{}", s);
    }
    assert_eq!(parse_u64("42"), Some(42));
}

#[test]
fn parse_commands() {
    assert!(matches!(parse_command(&words("gen")), Command::Gen));
    assert!(matches!(parse_command(&words("flood")), Command::Flood));
    assert!(matches!(parse_command(&words("-1")), Command::Idle));
    assert!(matches!(parse_command(&words("generate")), Command::Idle));
    match parse_command(&words("transfer 25 abcd")) {
        Command::Transfer { amount, receiver } => {
            assert_eq!(amount, 25);
            assert_eq!(receiver, "abcd");
        }
        _ => panic!("expected a transfer"),
    }
}

#[test]
fn empty_transaction_is_empty() {
    let e = empty_transaction();
    assert!(e.transaction.from.is_empty() && e.transaction.to.is_empty());
    assert_eq!(e.transaction.amount, 0);
    assert!(e.signature.is_empty());
}

#[test]
fn commands_without_keys_work() {
    let (mut pk, mut sk) = gen();
    let before = pk.clone();
    assert!(matches!(execute(&Command::Idle, &mut pk, &mut sk), Ok(Action::Nothing)));
    match execute(&Command::Flood, &mut pk, &mut sk) {
        Ok(Action::Flood(m)) => {
            assert_eq!(m.typ, TRANSACTION);
            assert_eq!(m.transaction, Some(empty_transaction()));
            assert_eq!(m.block, None);
        }
        _ => panic!("expected a flood"),
    }
    let bad = Command::Transfer { amount: 1, receiver: "not hex".to_string() };
    assert_eq!(run_command(&bad, &mut pk, &mut sk).err(), Some(CryptoError::InvalidHex));
    let not_a_key = Command::Transfer { amount: 1, receiver: "00ff".to_string() };
    assert_eq!(run_command(&not_a_key, &mut pk, &mut sk).err(), Some(CryptoError::InvalidKey));
    assert!(matches!(run_command(&Command::Idle, &mut pk, &mut sk), Ok(Action::Nothing)));
    assert_eq!(pk, before);
}

#[test]
fn transfer_is_signed_and_flooded() {
    let (mut pk, mut sk) = gen();
    let (receiver, _) = gen();
    let cmd = Command::Transfer { amount: 30, receiver: key_to_string(&receiver) };
    match execute(&cmd, &mut pk, &mut sk) {
        Ok(Action::Flood(m)) => {
            assert_eq!(m.typ, TRANSACTION);
            let st = m.transaction.unwrap();
            assert_eq!(st.transaction.amount, 30);
            assert_eq!(st.transaction.from, serialize_key(&pk));
            assert_eq!(st.transaction.to, serialize_key(&receiver));
            assert!(verify(&serialize_transaction(&st.transaction), &st.signature, &pk));
            let expected = bincode::serialize(&(st.transaction.from.clone(), st.transaction.to.clone(), 30u64)).unwrap();
            assert!(verify(&expected, &st.signature, &pk));
        }
        _ => panic!("expected a flood"),
    }
}

#[test]
fn gen_command_replaces_keys() {
    let (mut pk, mut sk) = gen();
    let before = pk.clone();
    match execute(&Command::Gen, &mut pk, &mut sk) {
        Ok(Action::Announce(s)) => assert_eq!(s, key_to_string(&pk)),
        _ => panic!("expected an announcement"),
    }
    assert_ne!(pk, before);
}

#[test]
fn signed_transfer_signs_its_encoding() {
    let (pk, sk) = gen();
    let st = signed_transfer(vec![1, 2], vec![3], 9, &sk).unwrap();
    assert_eq!((st.transaction.from.clone(), st.transaction.to.clone(), st.transaction.amount), (vec![1, 2], vec![3], 9));
    assert!(verify(&serialize_transaction(&st.transaction), &st.signature, &pk));
}
