//! The values that peers exchange, the account ledger, and the byte layout
//! under which a transaction is signed.

use vstd::prelude::*;

verus! {

#[verifier::external_type_specification]
#[verifier::external_body]
pub struct ExBincodeErrorKind(bincode::ErrorKind);

/// A transfer of `amount` from the account keyed by `from` to the account keyed by `to`.
/// Accounts are keyed by the PKCS#8 encoding of their public key.
#[derive(Debug, Clone, PartialEq, Eq)]
pub struct Transaction {
    pub from: Vec<u8>,
    pub to: Vec<u8>,
    pub amount: u64,
}

/// A transaction together with the signature of its encoding.
#[derive(Debug, Clone, PartialEq, Eq)]
pub struct SignedTransaction {
    pub transaction: Transaction,
    pub signature: Vec<u8>,
}

/// A batch of transactions chained to its predecessor by signature.
#[derive(Debug, Clone, PartialEq, Eq)]
pub struct Block {
    pub transactions: Vec<Transaction>,
    pub previous_signature: Vec<u8>,
    pub signature: Vec<u8>,
}

/// What peers send each other. `typ` is 0 for a greeting, 1 for a transaction
/// and 2 for a block; any other value is plain data.
#[derive(Debug, Clone, PartialEq, Eq)]
pub struct Message {
    pub id: usize,
    pub typ: usize,
    pub transaction: Option<SignedTransaction>,
    pub block: Option<Block>,
}

/// The mathematical value of a transaction.
pub struct TransactionView {
    pub from: Seq<u8>,
    pub to: Seq<u8>,
    pub amount: u64,
}

impl View for Transaction {
    type V = TransactionView;

    open spec fn view(&self) -> TransactionView {
        TransactionView { from: self.from@, to: self.to@, amount: self.amount }
    }
}

/// The mathematical value of a signed transaction.
pub struct SignedTransactionView {
    pub transaction: TransactionView,
    pub signature: Seq<u8>,
}

impl View for SignedTransaction {
    type V = SignedTransactionView;

    open spec fn view(&self) -> SignedTransactionView {
        SignedTransactionView { transaction: self.transaction@, signature: self.signature@ }
    }
}

/// The mathematical value of a block.
pub struct BlockView {
    pub transactions: Seq<TransactionView>,
    pub previous_signature: Seq<u8>,
    pub signature: Seq<u8>,
}

impl View for Block {
    type V = BlockView;

    open spec fn view(&self) -> BlockView {
        BlockView {
            transactions: self.transactions@.map_values(|t: Transaction| t@),
            previous_signature: self.previous_signature@,
            signature: self.signature@,
        }
    }
}

/// Copies a byte vector.
pub fn copy_bytes(v: &Vec<u8>) -> (r: Vec<u8>)
    ensures
        r@ == v@,
{
    let mut r: Vec<u8> = Vec::new();
    let mut i: usize = 0;
    while i < v.len()
        invariant
            i <= v.len(),
            r@ == v@.subrange(0, i as int),
        decreases v.len() - i,
    {
        r.push(v[i]);
        i = i + 1;
        assert(r@ =~= v@.subrange(0, i as int));
    }
    assert(r@ =~= v@);
    r
}

/// Whether two byte strings are equal.
pub fn bytes_equal(a: &[u8], b: &[u8]) -> (r: bool)
    ensures
        r == (a@ == b@),
{
    if a.len() != b.len() {
        return false;
    }
    let mut i: usize = 0;
    while i < a.len()
        invariant
            i <= a.len(),
            a@.len() == b@.len(),
            forall|j: int| 0 <= j < i ==> a@[j] == b@[j],
        decreases a.len() - i,
    {
        if a[i] != b[i] {
            return false;
        }
        i = i + 1;
    }
    assert(a@ =~= b@);
    true
}

impl Transaction {
    /// A field-by-field copy of the transaction.
    pub fn duplicate(&self) -> (r: Transaction)
        ensures
            r@ == self@,
    {
        Transaction { from: copy_bytes(&self.from), to: copy_bytes(&self.to), amount: self.amount }
    }
}

impl SignedTransaction {
    /// A field-by-field copy of the signed transaction.
    pub fn duplicate(&self) -> (r: SignedTransaction)
        ensures
            r@ == self@,
    {
        SignedTransaction { transaction: self.transaction.duplicate(), signature: copy_bytes(&self.signature) }
    }
}

impl Block {
    /// A field-by-field copy of the block.
    pub fn duplicate(&self) -> (r: Block)
        ensures
            r@ == self@,
    {
        let mut transactions: Vec<Transaction> = Vec::new();
        let mut i: usize = 0;
        while i < self.transactions.len()
            invariant
                i <= self.transactions.len(),
                transactions@.len() == i,
                forall|j: int| 0 <= j < i ==> (#[trigger] transactions@[j])@ == self.transactions@[j]@,
            decreases self.transactions.len() - i,
        {
            transactions.push(self.transactions[i].duplicate());
            i = i + 1;
        }
        let r = Block {
            transactions,
            previous_signature: copy_bytes(&self.previous_signature),
            signature: copy_bytes(&self.signature),
        };
        assert(r@.transactions =~= self@.transactions);
        r
    }
}

/// The value of a `u64` read as a two's-complement `i64`.
pub open spec fn signed_of(x: u64) -> int {
    if x <= i64::MAX {
        x as int
    } else {
        x - 0x1_0000_0000_0000_0000
    }
}

/// The `u64` whose two's-complement reading is the `i64` value `x`.
pub open spec fn unsigned_of(x: int) -> u64 {
    if x >= 0 {
        x as u64
    } else {
        (x + 0x1_0000_0000_0000_0000) as u64
    }
}

/// Reinterprets the bits of a `u64` as an `i64`.
pub fn reinterpret_signed(x: u64) -> (r: i64)
    ensures
        r == signed_of(x),
{
    if x <= 0x7fff_ffff_ffff_ffffu64 {
        x as i64
    } else {
        let d: u64 = 0xffff_ffff_ffff_ffffu64 - x;
        -(d as i64) - 1
    }
}

/// Reinterprets the bits of an `i64` as a `u64`.
pub fn reinterpret_unsigned(x: i64) -> (r: u64)
    ensures
        r == unsigned_of(x as int),
{
    if x >= 0 {
        x as u64
    } else {
        let d: u64 = (-(x + 1)) as u64;
        0xffff_ffff_ffff_ffffu64 - d
    }
}

/// The balance that a fresh account starts with.
pub const INITIAL_BALANCE: u64 = 100;

/// The balances of all accounts, keyed by public key.
pub struct Ledger {
    accounts: Vec<(Vec<u8>, u64)>,
}

/// Whether `key` occurs among the keys of `accts`.
pub open spec fn holds_key(accts: Seq<(Vec<u8>, u64)>, key: Seq<u8>) -> bool {
    exists|i: int| 0 <= i < accts.len() && #[trigger] accts[i].0@ == key
}

/// The position of `key` among the keys of `accts`, where it occurs.
pub open spec fn position_of(accts: Seq<(Vec<u8>, u64)>, key: Seq<u8>) -> int {
    choose|i: int| 0 <= i < accts.len() && #[trigger] accts[i].0@ == key
}

/// No key occurs twice.
pub open spec fn keys_distinct(accts: Seq<(Vec<u8>, u64)>) -> bool {
    forall|i: int, j: int|
        0 <= i < accts.len() && 0 <= j < accts.len() && i != j ==> #[trigger] accts[i].0@ != #[trigger] accts[j].0@
}

/// The balance of each account in `accts`, by key.
pub open spec fn accounts_map(accts: Seq<(Vec<u8>, u64)>) -> Map<Seq<u8>, u64> {
    Map::new(
        |k: Seq<u8>| holds_key(accts, k),
        |k: Seq<u8>| accts[position_of(accts, k)].1,
    )
}

impl Ledger {
    #[verifier::type_invariant]
    spec fn well_formed(self) -> bool {
        keys_distinct(self.accounts@)
    }

    /// The balance of each account, by key.
    pub closed spec fn accounts(&self) -> Map<Seq<u8>, u64> {
        accounts_map(self.accounts@)
    }
}

impl View for Ledger {
    type V = Map<Seq<u8>, u64>;

    open spec fn view(&self) -> Map<Seq<u8>, u64> {
        self.accounts()
    }
}

/// The balance of the account `pk` after `update_account(pk, amount)` on a
/// ledger whose accounts are `m`: a fresh account starts at
/// `INITIAL_BALANCE` (the amount is not applied), an existing one has
/// `amount` added to its balance read as a signed 64-bit number.
pub open spec fn updated_balance(m: Map<Seq<u8>, u64>, pk: Seq<u8>, amount: int) -> u64 {
    if m.contains_key(pk) {
        unsigned_of(signed_of(m[pk]) + amount)
    } else {
        INITIAL_BALANCE
    }
}

/// `update_account(pk, amount)` stays within the range of `i64`.
pub open spec fn update_in_range(m: Map<Seq<u8>, u64>, pk: Seq<u8>, amount: int) -> bool {
    m.contains_key(pk) ==> i64::MIN <= signed_of(m[pk]) + amount <= i64::MAX
}

/// The position of `pk` among the keys of `accts`, if it is there.
fn find_account(accts: &Vec<(Vec<u8>, u64)>, pk: &[u8]) -> (r: Option<usize>)
    ensures
        match r {
            Some(i) => i < accts.len() && accts@[i as int].0@ == pk@,
            None => !holds_key(accts@, pk@),
        },
{
    let mut i: usize = 0;
    while i < accts.len()
        invariant
            i <= accts.len(),
            forall|j: int| 0 <= j < i ==> accts@[j].0@ != pk@,
        decreases accts.len() - i,
    {
        if bytes_equal(accts[i].0.as_slice(), pk) {
            return Some(i);
        }
        i = i + 1;
    }
    None
}

proof fn lemma_position(accts: Seq<(Vec<u8>, u64)>, i: int)
    requires
        keys_distinct(accts),
        0 <= i < accts.len(),
    ensures
        holds_key(accts, accts[i].0@),
        position_of(accts, accts[i].0@) == i,
{
    let k = accts[i].0@;
    assert(holds_key(accts, k));
    let p = position_of(accts, k);
    assert(accts[p].0@ == k);
}

proof fn lemma_domain_len(accts: Seq<(Vec<u8>, u64)>)
    requires
        keys_distinct(accts),
    ensures
        accounts_map(accts).dom().finite(),
        accounts_map(accts).dom().len() == accts.len(),
{
    let ks = accts.map_values(|a: (Vec<u8>, u64)| a.0@);
    assert forall|k: Seq<u8>| accounts_map(accts).dom().contains(k) <==> ks.to_set().contains(k) by {
        if holds_key(accts, k) {
            let p = position_of(accts, k);
            assert(ks[p] == k);
        }
        if ks.to_set().contains(k) {
            let p = choose|p: int| 0 <= p < ks.len() && ks[p] == k;
            assert(accts[p].0@ == k);
        }
    }
    assert(accounts_map(accts).dom() =~= ks.to_set());
    assert forall|i: int, j: int| 0 <= i < ks.len() && 0 <= j < ks.len() && i != j implies ks[i] != ks[j] by {
        assert(ks[i] == accts[i].0@);
        assert(ks[j] == accts[j].0@);
    }
    assert(ks.no_duplicates());
    ks.unique_seq_to_set();
}

impl Ledger {
    /// An empty ledger.
    pub fn new() -> (r: Ledger)
        ensures
            r@ == Map::<Seq<u8>, u64>::empty(),
    {
        let r = Ledger { accounts: Vec::new() };
        assert(r@ =~= Map::<Seq<u8>, u64>::empty());
        r
    }

    /// The number of accounts.
    pub fn len(&self) -> (r: usize)
        ensures
            self@.dom().finite(),
            r == self@.dom().len(),
    {
        proof {
            use_type_invariant(self);
            lemma_domain_len(self.accounts@);
        }
        self.accounts.len()
    }

    /// The balance of the account `pk`, if it exists.
    pub fn balance(&self, pk: &[u8]) -> (r: Option<u64>)
        ensures
            r == (if self@.contains_key(pk@) { Some(self@[pk@]) } else { None::<u64> }),
    {
        proof {
            use_type_invariant(self);
        }
        match find_account(&self.accounts, pk) {
            Some(i) => {
                proof {
                    lemma_position(self.accounts@, i as int);
                }
                Some(self.accounts[i].1)
            },
            None => None,
        }
    }

    /// The accounts as (key, balance) pairs, each once.
    pub fn entries(&self) -> (r: Vec<(Vec<u8>, u64)>)
        ensures
            r.len() == self@.dom().len(),
            forall|i: int| 0 <= i < r.len() ==> self@.contains_key(#[trigger] r@[i].0@) && self@[r@[i].0@] == r@[i].1,
            forall|k: Seq<u8>| #[trigger] self@.contains_key(k) ==> exists|i: int| 0 <= i < r.len() && r@[i].0@ == k,
    {
        proof {
            use_type_invariant(self);
            lemma_domain_len(self.accounts@);
        }
        let mut r: Vec<(Vec<u8>, u64)> = Vec::new();
        let mut i: usize = 0;
        while i < self.accounts.len()
            invariant
                i <= self.accounts.len(),
                r.len() == i,
                forall|j: int| 0 <= j < i ==> (#[trigger] r@[j]).0@ == self.accounts@[j].0@ && r@[j].1 == self.accounts@[j].1,
            decreases self.accounts.len() - i,
        {
            r.push((copy_bytes(&self.accounts[i].0), self.accounts[i].1));
            i = i + 1;
        }
        assert forall|j: int| 0 <= j < r.len() implies self@.contains_key(#[trigger] r@[j].0@) && self@[r@[j].0@] == r@[j].1 by {
            lemma_position(self.accounts@, j);
        }
        assert forall|k: Seq<u8>| #[trigger] self@.contains_key(k) implies exists|i: int| 0 <= i < r.len() && r@[i].0@ == k by {
            let p = position_of(self.accounts@, k);
            assert(r@[p].0@ == k);
        }
        r
    }

    /// Adds `amount` to the balance of the account `pk`, read as a signed
    /// 64-bit number; opens the account with `INITIAL_BALANCE` if it does not
    /// exist yet (then `amount` is not applied). No other account changes.
    pub fn update_account(&mut self, pk: &Vec<u8>, amount: i64)
        requires
            update_in_range(old(self)@, pk@, amount as int),
        ensures
            final(self)@ == old(self)@.insert(pk@, updated_balance(old(self)@, pk@, amount as int)),
    {
        proof {
            use_type_invariant(&*self);
        }
        let ghost old_map = self@;
        let mut accts: Vec<(Vec<u8>, u64)> = Vec::new();
        std::mem::swap(&mut accts, &mut self.accounts);
        let ghost olds = accts@;
        assert(old_map == accounts_map(olds));
        match find_account(&accts, pk.as_slice()) {
            Some(i) => {
                proof {
                    lemma_position(olds, i as int);
                }
                let signed_value: i64 = reinterpret_signed(accts[i].1);
                let new_value: i64 = signed_value + amount;
                let b: u64 = reinterpret_unsigned(new_value);
                let key = copy_bytes(&accts[i].0);
                accts.set(i, (key, b));
                proof {
                    assert forall|x: int, y: int|
                        0 <= x < accts@.len() && 0 <= y < accts@.len() && x != y implies
                        #[trigger] accts@[x].0@ != #[trigger] accts@[y].0@ by {
                        assert(accts@[x].0@ == olds[x].0@);
                        assert(accts@[y].0@ == olds[y].0@);
                    }
                    assert forall|k: Seq<u8>| holds_key(accts@, k) <==> #[trigger] holds_key(olds, k) by {
                        if holds_key(olds, k) {
                            let p = position_of(olds, k);
                            assert(accts@[p].0@ == k);
                        }
                        if holds_key(accts@, k) {
                            let q = position_of(accts@, k);
                            assert(olds[q].0@ == k);
                        }
                    }
                    assert forall|k: Seq<u8>| #[trigger] holds_key(olds, k) implies
                        position_of(accts@, k) == position_of(olds, k) by {
                        let p = position_of(olds, k);
                        assert(olds[p].0@ == k);
                        lemma_position(accts@, p);
                    }
                    assert(accounts_map(accts@) =~= old_map.insert(pk@, updated_balance(old_map, pk@, amount as int)));
                }
            },
            None => {
                accts.push((copy_bytes(pk), INITIAL_BALANCE));
                proof {
                    let n = olds.len() as int;
                    assert(accts@[n].0@ == pk@);
                    assert forall|x: int, y: int|
                        0 <= x < accts@.len() && 0 <= y < accts@.len() && x != y implies
                        #[trigger] accts@[x].0@ != #[trigger] accts@[y].0@ by {
                        if x < n && y < n {
                            assert(accts@[x] == olds[x]);
                            assert(accts@[y] == olds[y]);
                        } else if x == n {
                            assert(accts@[y] == olds[y]);
                        } else {
                            assert(accts@[x] == olds[x]);
                        }
                    }
                    assert forall|k: Seq<u8>| holds_key(accts@, k) <==> (#[trigger] holds_key(olds, k) || k == pk@) by {
                        if holds_key(olds, k) {
                            let p = position_of(olds, k);
                            assert(accts@[p] == olds[p]);
                        }
                        if holds_key(accts@, k) && k != pk@ {
                            let q = position_of(accts@, k);
                            assert(accts@[q] == olds[q]);
                        }
                    }
                    assert forall|k: Seq<u8>| #[trigger] holds_key(accts@, k) implies
                        accts@[position_of(accts@, k)].1 == (if k == pk@ { INITIAL_BALANCE } else { old_map[k] }) by {
                        let q = position_of(accts@, k);
                        assert(accts@[q].0@ == k);
                        if k == pk@ {
                            lemma_position(accts@, n);
                        } else {
                            assert(q < n);
                            assert(olds[q] == accts@[q]);
                            lemma_position(olds, q);
                        }
                    }
                    assert(accounts_map(accts@) =~= old_map.insert(pk@, updated_balance(old_map, pk@, amount as int)));
                }
            },
        }
        self.accounts = accts;
    }
}

/// The `n` low-order bytes of `x`, least significant first.
pub open spec fn le_bytes(x: nat, n: nat) -> Seq<u8>
    decreases n,
{
    if n == 0 {
        Seq::empty()
    } else {
        seq![(x % 256) as u8] + le_bytes(x / 256, (n - 1) as nat)
    }
}

/// The little-endian eight-byte form of a `u64`.
pub open spec fn u64_le(x: u64) -> Seq<u8> {
    le_bytes(x as nat, 8)
}

/// A byte string framed by its length as a little-endian `u64`.
pub open spec fn framed(b: Seq<u8>) -> Seq<u8> {
    le_bytes(b.len(), 8) + b
}

/// The bytes under which a transaction is signed: each key framed by its
/// length, then the amount, all integers little-endian and eight bytes wide.
pub open spec fn transaction_encoding(t: TransactionView) -> Seq<u8> {
    framed(t.from) + framed(t.to) + u64_le(t.amount)
}

/// `bincode::serialize` of the tuple `(from, to, amount)` under bincode's
/// default configuration: each byte string as its length (a little-endian
/// `u64`) followed by its bytes, then the amount as a little-endian `u64`.
/// This configuration sets no size limit, and byte strings and integers have
/// no other way to fail, so it always succeeds.
#[verifier::external_body]
fn bincode_transfer_bytes(from: &[u8], to: &[u8], amount: u64) -> (r: Result<Vec<u8>, Box<bincode::ErrorKind>>)
    ensures
        r is Ok,
        r matches Ok(v) ==> v@ == framed(from@) + framed(to@) + u64_le(amount),
{
    bincode::serialize(&(from, to, amount))
}

/// The bytes under which a transaction is signed: its bincode encoding.
pub fn serialize_transaction(t: &Transaction) -> (r: Vec<u8>)
    ensures
        r@ == transaction_encoding(t@),
        r@.len() == 24 + t.from@.len() + t.to@.len(),
{
    match bincode_transfer_bytes(t.from.as_slice(), t.to.as_slice(), t.amount) {
        Ok(v) => {
            proof {
                lemma_le_bytes_len(t.from@.len(), 8);
                lemma_le_bytes_len(t.to@.len(), 8);
                lemma_le_bytes_len(t.amount as nat, 8);
            }
            v
        },
        Err(_) => vstd::pervasive::unreached(),
    }
}

proof fn lemma_le_bytes_len(x: nat, n: nat)
    ensures
        le_bytes(x, n).len() == n,
    decreases n,
{
    if n > 0 {
        lemma_le_bytes_len(x / 256, (n - 1) as nat);
    }
}

} // verus!
