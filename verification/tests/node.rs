use blockchain::network2::{decode_text, greet_bytes, greeting_due, GREETING_PERIOD};
use blockchain::blockchain::{handle, new, signature_valid, transaction_valid, Outcome};
use blockchain::network::{
    block_message, greeting, new_block_message, new_transaction_message, transaction_message,
    MessageLog, BLOCK, GREETING, TRANSACTION,
};
use blockchain::structures::{Block, Message, SignedTransaction, Transaction};

fn transfer(from: u8, to: u8, amount: u64) -> SignedTransaction {
    SignedTransaction {
        transaction: Transaction { from: vec![from], to: vec![to], amount },
        signature: vec![],
    }
}

#[test]
fn validity_checks_accept_everything() {
    let st = transfer(1, 2, 3);
    assert!(signature_valid(&st));
    assert!(transaction_valid(&st.transaction));
}

#[test]
fn new_node_is_empty() {
    let node = new();
    assert!(node.incoming_transactions.is_empty());
    assert_eq!(node.ledger.len(), 0);
}

#[test]
fn register_transaction_appends() {
    let mut node = new();
    let t = Transaction { from: vec![1], to: vec![2], amount: 5 };
    node.register_transaction(&t);
    node.register_transaction(&t);
    assert_eq!(node.incoming_transactions, vec![t.clone(), t]);
    assert_eq!(node.ledger.len(), 0);
}

#[test]
fn handle_each_kind_of_message() {
    let mut node = new();
    assert_eq!(handle(&mut node, &greeting()), Outcome::Greeting);
    let no_tx = Message { id: 4, typ: 1, transaction: None, block: None };
    assert_eq!(handle(&mut node, &no_tx), Outcome::NoSignature);
    let data = Message { id: 5, typ: 7, transaction: None, block: None };
    assert_eq!(handle(&mut node, &data), Outcome::Data);
    assert_eq!(node.ledger.len(), 0);

    // Both accounts are new: each opens at 100, the amount is not applied.
    let m = transaction_message(6, &transfer(1, 2, 30));
    assert_eq!(handle(&mut node, &m), Outcome::Transferred);
    assert_eq!(node.ledger.balance(&[1]), Some(100));
    assert_eq!(node.ledger.balance(&[2]), Some(100));

    // Now both exist: the amount moves and the total stays 200.
    assert_eq!(handle(&mut node, &m), Outcome::Transferred);
    assert_eq!(node.ledger.balance(&[1]), Some(70));
    assert_eq!(node.ledger.balance(&[2]), Some(130));

    // A transfer to oneself leaves the balance as it was.
    let own = transaction_message(7, &transfer(2, 2, 30));
    assert_eq!(handle(&mut node, &own), Outcome::Transferred);
    assert_eq!(node.ledger.balance(&[2]), Some(130));
    assert_eq!(node.ledger.balance(&[1]), Some(70));
}

#[test]
fn message_constructors() {
    let g = greeting();
    assert_eq!((g.id, g.typ, g.transaction, g.block), (0, GREETING, None, None));
    let st = transfer(1, 2, 3);
    let m = transaction_message(42, &st);
    assert_eq!(m, Message { id: 42, typ: TRANSACTION, transaction: Some(st.clone()), block: None });
    let r = new_transaction_message(&st);
    assert_eq!(r.typ, TRANSACTION);
    assert_eq!(r.transaction, Some(st.clone()));
    assert_eq!(r.block, None);
    let b = Block { transactions: vec![st.transaction.clone()], previous_signature: vec![1], signature: vec![2] };
    let bm = block_message(9, &b);
    assert_eq!(bm, Message { id: 9, typ: BLOCK, transaction: None, block: Some(b.clone()) });
    let rb = new_block_message(&b);
    assert_eq!((rb.typ, rb.transaction, rb.block), (BLOCK, None, Some(b)));
}

#[test]
fn a_message_is_handled_once() {
    let mut node = new();
    let mut log = MessageLog::new();
    let m = transaction_message(11, &transfer(1, 2, 10));
    assert!(!log.has_seen(11));
    assert_eq!(log.receive(&mut node, m.clone()), Some(Outcome::Transferred));
    assert!(log.has_seen(11));
    assert_eq!(node.ledger.balance(&[1]), Some(100));
    // The same id again, even with other contents, is ignored.
    assert_eq!(log.receive(&mut node, m.clone()), None);
    let other = transaction_message(11, &transfer(3, 4, 10));
    assert_eq!(log.receive(&mut node, other), None);
    assert_eq!(node.ledger.len(), 2);
    assert_eq!(log.msg_received.get(&11), Some(&m));
    // A new id is handled.
    let next = transaction_message(12, &transfer(1, 2, 10));
    assert_eq!(log.receive(&mut node, next), Some(Outcome::Transferred));
    assert_eq!(node.ledger.balance(&[1]), Some(90));
    assert_eq!(node.ledger.balance(&[2]), Some(110));
}

#[test]
fn greeting_turns_and_bytes() {
    assert!(greeting_due(0));
    assert!(!greeting_due(1));
    assert!(greeting_due(GREETING_PERIOD));
    assert!(greeting_due(3 * 10000000));
    assert!(!greeting_due(10000001));
    assert_eq!(greet_bytes(), bincode::serialize(&"greet").unwrap());
    assert_eq!(greet_bytes(), vec![5, 0, 0, 0, 0, 0, 0, 0, b'g', b'r', b'e', b'e', b't']);
    let mut chunk = greet_bytes();
    chunk.extend_from_slice(&[0u8; 20]);
    assert_eq!(decode_text(&chunk), Some("greet".to_string()));
    assert_eq!(decode_text(&[9, 0, 0]), None);
    assert_eq!(decode_text(&[2, 0, 0, 0, 0, 0, 0, 0, 0xff, 0xfe]), None);
}
