//! The state of a node (its pending transactions, its ledger and its key
//! pair) and what the node does with a message from a peer.

use vstd::prelude::*;
use rsa::{RSAPrivateKey, RSAPublicKey};
use crate::crypto::{gen, modulus_bits, passes_validation, public_key_checks, public_key_of, KEY_BITS};
use crate::structures::{
    bytes_equal, signed_of, update_in_range, updated_balance, Ledger, Message, SignedTransaction, Transaction,
    TransactionView,
};

verus! {

/// Whether the signature of a transaction is acceptable. Every signature is
/// accepted for now.
pub fn signature_valid(t: &SignedTransaction) -> (r: bool)
    ensures
        r,
{
    true
}

/// Whether a transaction is acceptable. Every transaction is accepted for now.
pub fn transaction_valid(t: &Transaction) -> (r: bool)
    ensures
        r,
{
    true
}

/// A node: the transactions it has been handed, the ledger it keeps, and its key pair.
pub struct BlockChain {
    pub incoming_transactions: Vec<Transaction>,
    pub ledger: Ledger,
    pub public_key: RSAPublicKey,
    pub private_key: RSAPrivateKey,
}

/// A node with a fresh key pair, no transactions and an empty ledger.
pub fn new() -> (r: BlockChain)
    ensures
        r.incoming_transactions@.len() == 0,
        r.ledger@ == Map::<Seq<u8>, u64>::empty(),
        r.public_key == public_key_of(r.private_key),
        modulus_bits(r.private_key) == KEY_BITS,
        passes_validation(r.private_key),
        public_key_checks(r.public_key),
{
    let (pk, sk) = gen();
    BlockChain {
        incoming_transactions: Vec::new(),
        ledger: Ledger::new(),
        public_key: pk,
        private_key: sk,
    }
}

impl BlockChain {
    /// Appends a copy of `t` to the incoming transactions.
    pub fn register_transaction(&mut self, t: &Transaction)
        ensures
            final(self).incoming_transactions@.len() == old(self).incoming_transactions@.len() + 1,
            forall|i: int|
                0 <= i < old(self).incoming_transactions@.len() ==> #[trigger] final(self).incoming_transactions@[i]
                    == old(self).incoming_transactions@[i],
            final(self).incoming_transactions@.last()@ == t@,
            final(self).ledger@ == old(self).ledger@,
            final(self).public_key == old(self).public_key,
            final(self).private_key == old(self).private_key,
    {
        self.incoming_transactions.push(t.duplicate());
    }
}

/// What handling a message came to.
#[derive(Debug, Clone, Copy, PartialEq, Eq)]
pub enum Outcome {
    /// A greeting (type 0).
    Greeting,
    /// A transaction message whose signature was refused; nothing changed.
    InvalidSignature,
    /// A transaction message without a transaction; nothing changed.
    NoSignature,
    /// A transaction that was refused; nothing changed.
    IllegalTransaction,
    /// A transaction that was applied to the ledger.
    Transferred,
    /// Any other message, which is only shown.
    Data,
}

/// The ledger after `t` has been applied: `amount` (read as a signed 64-bit
/// number) is taken from `from`, then given to `to`, each by `update_account`.
pub open spec fn apply_transfer(m: Map<Seq<u8>, u64>, t: TransactionView) -> Map<Seq<u8>, u64> {
    let a = signed_of(t.amount);
    let m1 = m.insert(t.from, updated_balance(m, t.from, -a));
    m1.insert(t.to, updated_balance(m1, t.to, a))
}

/// Applying `t` stays within the range of `i64`: the amount can be negated,
/// and neither balance update overflows.
pub open spec fn transfer_in_range(m: Map<Seq<u8>, u64>, t: TransactionView) -> bool {
    let a = signed_of(t.amount);
    let m1 = m.insert(t.from, updated_balance(m, t.from, -a));
    &&& a != i64::MIN
    &&& update_in_range(m, t.from, -a)
    &&& update_in_range(m1, t.to, a)
}

/// Whether `msg` carries a transaction to apply.
pub open spec fn carries_transaction(msg: Message) -> bool {
    msg.typ == 1 && msg.transaction is Some
}

/// Handling `msg` stays within the range of `i64`.
pub open spec fn handle_in_range(m: Map<Seq<u8>, u64>, msg: Message) -> bool {
    carries_transaction(msg) ==> transfer_in_range(m, msg.transaction.unwrap().transaction@)
}

/// What handling `msg` comes to.
pub open spec fn outcome_of(msg: Message) -> Outcome {
    if msg.typ == 0 {
        Outcome::Greeting
    } else if msg.typ == 1 {
        if msg.transaction is Some {
            Outcome::Transferred
        } else {
            Outcome::NoSignature
        }
    } else {
        Outcome::Data
    }
}

/// Whether `update_account(pk, amount)` stays within the range of `i64` on `ledger`.
fn update_fits(ledger: &Ledger, pk: &Vec<u8>, amount: i128) -> (r: bool)
    requires
        i64::MIN <= amount <= i64::MAX + 1,
    ensures
        r == update_in_range(ledger@, pk@, amount as int),
{
    match ledger.balance(pk.as_slice()) {
        Some(b) => {
            let s: i128 = crate::structures::reinterpret_signed(b) as i128;
            let sum: i128 = s + amount;
            i64::MIN as i128 <= sum && sum <= i64::MAX as i128
        },
        None => true,
    }
}

/// Whether handling `msg` stays within the range of `i64` on `ledger`, so
/// that `handle` may be called.
pub fn handle_fits(ledger: &Ledger, msg: &Message) -> (r: bool)
    ensures
        r == handle_in_range(ledger@, *msg),
{
    if msg.typ != 1 {
        return true;
    }
    match &msg.transaction {
        None => true,
        Some(st) => {
            let t = &st.transaction;
            let a: i64 = crate::structures::reinterpret_signed(t.amount);
            if a == i64::MIN {
                return false;
            }
            if !update_fits(ledger, &t.from, -(a as i128)) {
                return false;
            }
            let from_balance: u64 = match ledger.balance(t.from.as_slice()) {
                Some(b) => crate::structures::reinterpret_unsigned(crate::structures::reinterpret_signed(b) - a),
                None => crate::structures::INITIAL_BALANCE,
            };
            if bytes_equal(t.to.as_slice(), t.from.as_slice()) {
                let s: i128 = crate::structures::reinterpret_signed(from_balance) as i128 + a as i128;
                i64::MIN as i128 <= s && s <= i64::MAX as i128
            } else {
                update_fits(ledger, &t.to, a as i128)
            }
        },
    }
}

/// What a transfer `t` between two distinct parties does to the balances,
/// going from the ledger `before` to the ledger `after`: the sender pays the
/// amount if it had an account with enough in it, the receiver gets the
/// amount if it had an account with room for it, a party without an account
/// gets one with the initial balance, and every other account is left alone.
pub open spec fn transfer_moves_money(before: Map<Seq<u8>, u64>, after: Map<Seq<u8>, u64>, t: TransactionView) -> bool {
    t.from != t.to ==> {
        &&& after.contains_key(t.from)
        &&& after.contains_key(t.to)
        &&& (before.contains_key(t.from) && t.amount <= before[t.from] && before[t.from] <= i64::MAX ==> after[t.from]
            == before[t.from] - t.amount)
        &&& (!before.contains_key(t.from) ==> after[t.from] == crate::structures::INITIAL_BALANCE)
        &&& (before.contains_key(t.to) && t.amount <= i64::MAX && before[t.to] + t.amount <= i64::MAX ==> after[t.to]
            == before[t.to] + t.amount)
        &&& (!before.contains_key(t.to) ==> after[t.to] == crate::structures::INITIAL_BALANCE)
        &&& forall|k: Seq<u8>| k != t.from && k != t.to ==> (#[trigger] after.contains_key(k) == before.contains_key(k)
            && (before.contains_key(k) ==> after[k] == before[k]))
    }
}

/// Applying a transfer moves the money as `transfer_moves_money` says: in
/// particular the sender pays whether or not the receiver had an account.
pub proof fn lemma_transfer_moves_money(m: Map<Seq<u8>, u64>, t: TransactionView)
    ensures
        transfer_moves_money(m, apply_transfer(m, t), t),
{
}

/// A sender with an account pays the amount, whatever the receiver's state:
/// a payment to an account that does not exist yet is still debited.
pub proof fn lemma_sender_pays(m: Map<Seq<u8>, u64>, t: TransactionView)
    requires
        m.contains_key(t.from),
        t.from != t.to,
        t.amount <= m[t.from],
        m[t.from] <= i64::MAX,
    ensures
        apply_transfer(m, t)[t.from] == m[t.from] - t.amount,
        !m.contains_key(t.to) ==> apply_transfer(m, t)[t.to] == crate::structures::INITIAL_BALANCE,
{
}

/// Handles a message from a peer: a transaction message has its transaction
/// checked and applied to the ledger; every other message leaves the node as
/// it was. The result says which case it was, for the caller to report.
pub fn handle(blockchain: &mut BlockChain, msg: &Message) -> (r: Outcome)
    requires
        handle_in_range(old(blockchain).ledger@, *msg),
    ensures
        r == outcome_of(*msg),
        final(blockchain).ledger@ == (if carries_transaction(*msg) {
            apply_transfer(old(blockchain).ledger@, msg.transaction.unwrap().transaction@)
        } else {
            old(blockchain).ledger@
        }),
        final(blockchain).incoming_transactions == old(blockchain).incoming_transactions,
        final(blockchain).public_key == old(blockchain).public_key,
        final(blockchain).private_key == old(blockchain).private_key,
        carries_transaction(*msg) ==> transfer_moves_money(
            old(blockchain).ledger@,
            final(blockchain).ledger@,
            msg.transaction.unwrap().transaction@,
        ),
{
    proof {
        if carries_transaction(*msg) {
            lemma_transfer_moves_money(old(blockchain).ledger@, msg.transaction.unwrap().transaction@);
        }
    }
    if msg.typ == 0 {
        Outcome::Greeting
    } else if msg.typ == 1 {
        let transaction = match &msg.transaction {
            Some(t) => {
                if !signature_valid(t) {
                    return Outcome::InvalidSignature;
                }
                &t.transaction
            },
            None => {
                return Outcome::NoSignature;
            },
        };
        if !transaction_valid(transaction) {
            return Outcome::IllegalTransaction;
        }
        let amount: i64 = crate::structures::reinterpret_signed(transaction.amount);
        blockchain.ledger.update_account(&transaction.from, -amount);
        blockchain.ledger.update_account(&transaction.to, amount);
        Outcome::Transferred
    } else {
        Outcome::Data
    }
}

/// A transfer between two existing, distinct accounts moves the amount from
/// one to the other: the sum of their balances stays what it was, as long
/// as both balances stay between zero and `i64::MAX`.
pub proof fn lemma_transfer_conserves_total(m: Map<Seq<u8>, u64>, t: TransactionView)
    requires
        m.contains_key(t.from),
        m.contains_key(t.to),
        t.from != t.to,
        t.amount <= m[t.from],
        m[t.from] <= i64::MAX,
        m[t.to] + t.amount <= i64::MAX,
    ensures
        transfer_in_range(m, t),
        apply_transfer(m, t)[t.from] == m[t.from] - t.amount,
        apply_transfer(m, t)[t.to] == m[t.to] + t.amount,
        apply_transfer(m, t)[t.from] + apply_transfer(m, t)[t.to] == m[t.from] + m[t.to],
{
}

/// A transfer touches no account but its two parties.
pub proof fn lemma_transfer_is_local(m: Map<Seq<u8>, u64>, t: TransactionView, k: Seq<u8>)
    requires
        k != t.from,
        k != t.to,
    ensures
        apply_transfer(m, t).contains_key(k) == m.contains_key(k),
        m.contains_key(k) ==> apply_transfer(m, t)[k] == m[k],
{
}

/// After a transfer both parties have an account.
pub proof fn lemma_transfer_opens_accounts(m: Map<Seq<u8>, u64>, t: TransactionView)
    ensures
        apply_transfer(m, t).contains_key(t.from),
        apply_transfer(m, t).contains_key(t.to),
{
}

/// A transfer to oneself from an existing account leaves its balance as it was.
pub proof fn lemma_self_transfer_keeps_balance(m: Map<Seq<u8>, u64>, t: TransactionView)
    requires
        t.from == t.to,
        m.contains_key(t.from),
        transfer_in_range(m, t),
    ensures
        apply_transfer(m, t) == m,
{
    let a = signed_of(t.amount);
    let b = m[t.from];
    lemma_unsigned_of_signed(b);
    assert(apply_transfer(m, t) =~= m);
}

/// Reading a `u64` as signed and back gives it again.
proof fn lemma_unsigned_of_signed(x: u64)
    ensures
        crate::structures::unsigned_of(signed_of(x)) == x,
{
}

/// Applying a fresh account: a transfer from an account that does not exist
/// opens it with the initial balance, without taking the amount.
pub proof fn lemma_transfer_from_new_account(m: Map<Seq<u8>, u64>, t: TransactionView)
    requires
        !m.contains_key(t.from),
        t.from != t.to,
    ensures
        apply_transfer(m, t)[t.from] == crate::structures::INITIAL_BALANCE,
{
}

/// The sum of the balances of the accounts in `keys`.
pub open spec fn balance_sum(m: Map<Seq<u8>, u64>, keys: Set<Seq<u8>>) -> int
    decreases keys.len(),
    when keys.finite()
{
    if keys.len() == 0 {
        0
    } else {
        let k = keys.choose();
        m[k] + balance_sum(m, keys.remove(k))
    }
}

/// The sum of all balances.
pub open spec fn total(m: Map<Seq<u8>, u64>) -> int {
    balance_sum(m, m.dom())
}

proof fn lemma_balance_sum_remove(m: Map<Seq<u8>, u64>, keys: Set<Seq<u8>>, k: Seq<u8>)
    requires
        keys.finite(),
        keys.contains(k),
    ensures
        balance_sum(m, keys) == m[k] + balance_sum(m, keys.remove(k)),
    decreases keys.len(),
{
    let c = keys.choose();
    if c != k {
        lemma_balance_sum_remove(m, keys.remove(c), k);
        lemma_balance_sum_remove(m, keys.remove(k), c);
        assert(keys.remove(c).remove(k) =~= keys.remove(k).remove(c));
    }
}

proof fn lemma_balance_sum_agree(m1: Map<Seq<u8>, u64>, m2: Map<Seq<u8>, u64>, keys: Set<Seq<u8>>)
    requires
        keys.finite(),
        forall|k: Seq<u8>| #[trigger] keys.contains(k) ==> m1[k] == m2[k],
    ensures
        balance_sum(m1, keys) == balance_sum(m2, keys),
    decreases keys.len(),
{
    if keys.len() > 0 {
        let c = keys.choose();
        lemma_balance_sum_agree(m1, m2, keys.remove(c));
    }
}

proof fn lemma_balance_sum_insert(m: Map<Seq<u8>, u64>, keys: Set<Seq<u8>>, k: Seq<u8>, v: u64)
    requires
        keys.finite(),
        keys.contains(k),
    ensures
        balance_sum(m.insert(k, v), keys) == balance_sum(m, keys) - m[k] + v,
{
    lemma_balance_sum_remove(m, keys, k);
    lemma_balance_sum_remove(m.insert(k, v), keys, k);
    lemma_balance_sum_agree(m.insert(k, v), m, keys.remove(k));
}

/// A transfer between two existing, distinct accounts creates or destroys no
/// money: the sum of all balances stays what it was, as long as both
/// parties' balances stay between zero and `i64::MAX`.
pub proof fn lemma_transfer_conserves_money(m: Map<Seq<u8>, u64>, t: TransactionView)
    requires
        m.dom().finite(),
        m.contains_key(t.from),
        m.contains_key(t.to),
        t.from != t.to,
        t.amount <= m[t.from],
        m[t.from] <= i64::MAX,
        m[t.to] + t.amount <= i64::MAX,
    ensures
        apply_transfer(m, t).dom() == m.dom(),
        total(apply_transfer(m, t)) == total(m),
{
    lemma_transfer_conserves_total(m, t);
    let a = signed_of(t.amount);
    let m1 = m.insert(t.from, updated_balance(m, t.from, -a));
    let m2 = m1.insert(t.to, updated_balance(m1, t.to, a));
    assert(m1.dom() =~= m.dom());
    assert(m2.dom() =~= m.dom());
    lemma_balance_sum_insert(m, m.dom(), t.from, m1[t.from]);
    lemma_balance_sum_insert(m1, m.dom(), t.to, m2[t.to]);
    assert(m2 == apply_transfer(m, t));
}

} // verus!
