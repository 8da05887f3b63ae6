//! The console commands of a node: `gen` makes a new key pair, `transfer
//! <amount> <receiver>` signs and floods a transfer to the receiver's key,
//! `flood` floods an empty transaction; any other line does nothing.

use vstd::prelude::*;
use vstd::string::StrSliceExecFns;
use rsa::{RSAPrivateKey, RSAPublicKey};
use crate::crypto::{
    gen, hex_encoding, hex_valid, key_of_text, passes_validation, public_key_checks, read_key, key_to_string, modulus_bits, pkcs1v15_signature, pkcs8_encoding,
    public_key_of, serialize_key, sha256_of, sign, string_to_key, CryptoError, KEY_BITS,
};
use crate::network::{new_transaction_message, TRANSACTION};
use crate::structures::{serialize_transaction, transaction_encoding, Message, SignedTransaction, Transaction, TransactionView};

verus! {

/// Whether `c` is a decimal digit.
pub open spec fn is_digit(c: char) -> bool {
    '0' <= c && c <= '9'
}

/// The value of a string of decimal digits, most significant first.
pub open spec fn digits_value(s: Seq<char>) -> nat
    decreases s.len(),
{
    if s.len() == 0 {
        0
    } else {
        digits_value(s.drop_last()) * 10 + (s.last() as nat - 48) as nat
    }
}

/// The digits of an unsigned number, after an optional leading `+`.
pub open spec fn unsigned_digits(s: Seq<char>) -> Seq<char> {
    if s.len() > 0 && s[0] == '+' {
        s.drop_first()
    } else {
        s
    }
}

/// What `str::parse::<u64>` gives: an optional `+`, then one or more
/// decimal digits whose value fits in a `u64`.
pub open spec fn parse_u64_spec(s: Seq<char>) -> Option<u64> {
    let d = unsigned_digits(s);
    if d.len() > 0 && (forall|i: int| 0 <= i < d.len() ==> #[trigger] is_digit(d[i])) && digits_value(d)
        <= u64::MAX {
        Some(digits_value(d) as u64)
    } else {
        None
    }
}

proof fn lemma_digits_value_grows(d: Seq<char>, i: int)
    requires
        0 <= i <= d.len(),
        forall|j: int| 0 <= j < d.len() ==> #[trigger] is_digit(d[j]),
    ensures
        digits_value(d.take(i)) <= digits_value(d),
    decreases d.len() - i,
{
    if i < d.len() {
        lemma_digits_value_grows(d, i + 1);
        assert(d.take(i + 1).drop_last() =~= d.take(i));
        assert(is_digit(d[i]));
    } else {
        assert(d.take(i) =~= d);
    }
}

/// Reads an unsigned decimal number as `str::parse::<u64>` does.
pub fn parse_u64(s: &str) -> (r: Option<u64>)
    ensures
        r == parse_u64_spec(s@),
{
    let n = s.unicode_len();
    let mut i: usize = 0;
    if n > 0 && s.get_char(0) == '+' {
        i = 1;
    }
    let ghost d = unsigned_digits(s@);
    let ghost start = i as int;
    assert(d =~= s@.skip(start));
    assert(d.len() == n - start);
    if i >= n {
        return None;
    }
    let mut value: u64 = 0;
    while i < n
        invariant
            n == s@.len(),
            0 <= start <= i <= n,
            start <= 1,
            d == s@.skip(start),
            d == unsigned_digits(s@),
            d.len() == n - start,
            forall|j: int| 0 <= j < i - start ==> #[trigger] is_digit(d[j]),
            value == digits_value(d.take(i - start)),
        decreases n - i,
    {
        let c = s.get_char(i);
        assert(s@.skip(start)[i - start] == s@[i as int]);
        assert(c == d[i - start]);
        if c < '0' || c > '9' {
            assert(!is_digit(d[i - start]));
            return None;
        }
        let digit: u64 = (c as u32 - 48) as u64;
        assert(d.take(i - start + 1).drop_last() =~= d.take(i - start));
        assert(d.take(i - start + 1).last() == c);
        assert(digits_value(d.take(i - start + 1)) == value * 10 + digit);
        match value.checked_mul(10) {
            Some(v10) => match v10.checked_add(digit) {
                Some(v) => {
                    value = v;
                },
                None => {
                    proof {
                        if forall|k: int| 0 <= k < d.len() ==> #[trigger] is_digit(d[k]) {
                            lemma_digits_value_grows(d, i - start + 1);
                        }
                    }
                    return None;
                },
            },
            None => {
                proof {
                    if forall|k: int| 0 <= k < d.len() ==> #[trigger] is_digit(d[k]) {
                        lemma_digits_value_grows(d, i - start + 1);
                    }
                }
                return None;
            },
        }
        i = i + 1;
    }
    assert(d.take(n - start) =~= d);
    Some(value)
}

/// Whether the text `s` is the word `w`.
fn text_is(s: &str, w: &[char]) -> (r: bool)
    ensures
        r == (s@ == w@),
{
    let n = s.unicode_len();
    if n != w.len() {
        return false;
    }
    let mut i: usize = 0;
    while i < n
        invariant
            n == s@.len(),
            n == w@.len(),
            i <= n,
            forall|j: int| 0 <= j < i ==> s@[j] == w@[j],
        decreases n - i,
    {
        if s.get_char(i) != w[i] {
            return false;
        }
        i = i + 1;
    }
    assert(s@ =~= w@);
    true
}

/// A console command.
pub enum Command {
    /// Make a new key pair for this node.
    Gen,
    /// Send `amount` to the holder of the key written as `receiver`.
    Transfer { amount: u64, receiver: String },
    /// Flood an empty transaction.
    Flood,
    /// Do nothing.
    Idle,
}

/// The word `gen`.
pub open spec fn word_gen() -> Seq<char> {
    seq!['g', 'e', 'n']
}

/// The word `transfer`.
pub open spec fn word_transfer() -> Seq<char> {
    seq!['t', 'r', 'a', 'n', 's', 'f', 'e', 'r']
}

/// The word `flood`.
pub open spec fn word_flood() -> Seq<char> {
    seq!['f', 'l', 'o', 'o', 'd']
}

/// A line of words that the console accepts: a `transfer` names an amount
/// that reads as a `u64` and a receiver.
pub open spec fn well_formed_line(line: Seq<String>) -> bool {
    &&& line.len() >= 1
    &&& line[0]@ == word_transfer() ==> line.len() >= 3 && parse_u64_spec(line[1]@) is Some
}

/// Whether the console accepts a line of words, so that `parse_command`
/// may be called on it.
pub fn line_is_well_formed(line: &Vec<String>) -> (r: bool)
    ensures
        r == well_formed_line(line@),
        r ==> line@.len() >= 1,
        line@.len() >= 1 && line@[0]@ != word_transfer() ==> r,
        line@.len() >= 3 && line@[0]@ == word_transfer() && parse_u64_spec(line@[1]@) is Some ==> r,
        line@.len() >= 1 && line@[0]@ == word_transfer() && line@.len() < 3 ==> !r,
        line@.len() >= 3 && line@[0]@ == word_transfer() && parse_u64_spec(line@[1]@) is None ==> !r,
{
    if line.len() < 1 {
        return false;
    }
    if !text_is(line[0].as_str(), &['t', 'r', 'a', 'n', 's', 'f', 'e', 'r']) {
        return true;
    }
    line.len() >= 3 && parse_u64(line[1].as_str()).is_some()
}

/// Every line whose first word is not `transfer` is accepted (`gen`,
/// `flood` and any other word alike), and so is a `transfer` with an amount
/// that reads as a `u64` and a receiver; no other line is.
pub proof fn lemma_well_formed_lines(line: Seq<String>)
    ensures
        line.len() >= 1 && line[0]@ != word_transfer() ==> well_formed_line(line),
        line.len() >= 1 && line[0]@ == word_gen() ==> well_formed_line(line),
        line.len() >= 1 && line[0]@ == word_flood() ==> well_formed_line(line),
        line.len() >= 3 && line[0]@ == word_transfer() && parse_u64_spec(line[1]@) is Some ==> well_formed_line(line),
        well_formed_line(line) ==> line.len() >= 1,
        line.len() >= 1 && line[0]@ == word_transfer() && (line.len() < 3 || parse_u64_spec(line[1]@) is None)
            ==> !well_formed_line(line),
{
    assert(word_gen() != word_transfer()) by {
        assert(word_gen().len() != word_transfer().len());
    }
    assert(word_flood() != word_transfer()) by {
        assert(word_flood().len() != word_transfer().len());
    }
}

/// Reads the command that a line of words stands for.
pub fn parse_command(line: &Vec<String>) -> (r: Command)
    requires
        well_formed_line(line@),
    ensures
        line@[0]@ == word_gen() ==> r is Gen,
        line@[0]@ == word_transfer() ==> (r matches Command::Transfer { amount, receiver } && amount
            == parse_u64_spec(line@[1]@).unwrap() && receiver@ == line@[2]@),
        line@[0]@ == word_flood() ==> r is Flood,
        line@[0]@ != word_gen() && line@[0]@ != word_transfer() && line@[0]@ != word_flood() ==> r is Idle,
{
    let first = line[0].as_str();
    if text_is(first, &['g', 'e', 'n']) {
        Command::Gen
    } else if text_is(first, &['t', 'r', 'a', 'n', 's', 'f', 'e', 'r']) {
        let amount = match parse_u64(line[1].as_str()) {
            Some(a) => a,
            None => vstd::pervasive::unreached(),
        };
        Command::Transfer { amount, receiver: line[2].clone() }
    } else if text_is(first, &['f', 'l', 'o', 'o', 'd']) {
        Command::Flood
    } else {
        Command::Idle
    }
}

/// What the node does after a command.
pub enum Action {
    /// Show the new public key, written as text.
    Announce(String),
    /// Send the message to every peer.
    Flood(Message),
    /// Nothing.
    Nothing,
}

/// The signature that `sk` makes of a transaction: PKCS#1 v1.5 over the
/// SHA-256 digest of its encoding, or `None` where the key refuses to sign.
pub open spec fn transfer_signature(sk: RSAPrivateKey, t: TransactionView) -> Option<Seq<u8>> {
    pkcs1v15_signature(sk, sha256_of(transaction_encoding(t)))
}

/// A transfer of `amount` from the key encoded as `from` to the key encoded
/// as `to`, signed with `sk` over its encoding.
pub fn signed_transfer(from: Vec<u8>, to: Vec<u8>, amount: u64, sk: &RSAPrivateKey) -> (r: Result<
    SignedTransaction,
    CryptoError,
>)
    ensures
        r is Ok <==> transfer_signature(*sk, TransactionView { from: from@, to: to@, amount }) is Some,
        r matches Ok(st) ==> st.transaction@ == (TransactionView { from: from@, to: to@, amount })
            && transfer_signature(*sk, st.transaction@) == Some(st.signature@),
        r matches Err(e) ==> e == CryptoError::SigningFailed,
        modulus_bits(*sk) < 489 ==> r is Err,
{
    let t = Transaction { from, to, amount };
    let bytes = serialize_transaction(&t);
    match sign(bytes.as_slice(), sk) {
        Ok(signature) => Ok(SignedTransaction { transaction: t, signature }),
        Err(e) => Err(e),
    }
}

/// The empty transaction that `flood` sends: no keys, no amount, no signature.
pub fn empty_transaction() -> (r: SignedTransaction)
    ensures
        r.transaction@.from.len() == 0,
        r.transaction@.to.len() == 0,
        r.transaction.amount == 0,
        r.signature@.len() == 0,
{
    SignedTransaction {
        transaction: Transaction { from: Vec::new(), to: Vec::new(), amount: 0 },
        signature: Vec::new(),
    }
}

/// The transaction that sends `amount` from the holder of `sender` to the
/// holder of `receiver`, each named by its PKCS#8 encoding.
pub open spec fn transfer_to(sender: RSAPublicKey, receiver: RSAPublicKey, amount: u64) -> TransactionView {
    TransactionView { from: pkcs8_encoding(sender), to: pkcs8_encoding(receiver), amount }
}

/// The transaction that a result floods, if it floods a transaction message.
pub open spec fn flooded_transaction(r: Result<Action, CryptoError>) -> Option<SignedTransaction> {
    match r {
        Ok(Action::Flood(m)) => if m.typ == TRANSACTION && m.block is None {
            m.transaction
        } else {
            None
        },
        _ => None,
    }
}

/// A command that `execute` can carry out: a transfer names a receiver
/// whose text is the hexadecimal form of a key.
pub open spec fn receiver_is_key(cmd: Command) -> bool {
    match cmd {
        Command::Transfer { receiver, .. } => key_of_text(receiver@) is Some,
        _ => true,
    }
}

/// What carrying out `cmd` with the key pair `(pk, sk)` comes to, where it
/// leaves the key pair `(new_pk, new_sk)` and gives `r`.
pub open spec fn carried_out(
    cmd: Command,
    pk: RSAPublicKey,
    sk: RSAPrivateKey,
    new_pk: RSAPublicKey,
    new_sk: RSAPrivateKey,
    r: Result<Action, CryptoError>,
) -> bool {
    &&& !(cmd is Gen) ==> new_pk == pk && new_sk == sk
    &&& cmd is Gen ==> {
        &&& r matches Ok(Action::Announce(text)) && text@ == hex_encoding(pkcs8_encoding(new_pk))
        &&& new_pk == public_key_of(new_sk)
        &&& modulus_bits(new_sk) == KEY_BITS
        &&& passes_validation(new_sk)
        &&& public_key_checks(new_pk)
    }
    &&& cmd is Flood ==> (flooded_transaction(r) matches Some(t) && t.transaction@.from.len() == 0
        && t.transaction@.to.len() == 0 && t.transaction.amount == 0 && t.signature@.len() == 0)
    &&& cmd is Idle ==> (r matches Ok(Action::Nothing))
    &&& match cmd {
        Command::Transfer { amount, receiver } => transfer_carried_out(
            transfer_to(pk, key_of_text(receiver@).unwrap(), amount),
            sk,
            r,
        ),
        _ => true,
    }
}

/// What carrying out the transfer `t` with the private key `sk` comes to:
/// the signed transfer is flooded, or the key cannot sign it.
pub open spec fn transfer_carried_out(t: TransactionView, sk: RSAPrivateKey, r: Result<Action, CryptoError>) -> bool {
    match r {
        Ok(_) => flooded_transaction(r) matches Some(st) && st.transaction@ == t && transfer_signature(sk, t) == Some(
            st.signature@,
        ),
        Err(e) => e == CryptoError::SigningFailed && transfer_signature(sk, t) is None,
    }
}

/// Carries out a command with the node's key pair: `gen` replaces the key
/// pair and announces the new public key; `transfer` signs a transfer from
/// this node's key to the receiver's and floods it; `flood` floods the
/// empty transaction. A signature that cannot be made gives the error
/// instead. The receiver of a transfer must be a key written as hexadecimal
/// text.
pub fn execute(cmd: &Command, public_key: &mut RSAPublicKey, private_key: &mut RSAPrivateKey) -> (r: Result<
    Action,
    CryptoError,
>)
    requires
        receiver_is_key(*cmd),
    ensures
        carried_out(*cmd, *old(public_key), *old(private_key), *final(public_key), *final(private_key), r),
{
    match cmd {
        Command::Gen => {
            let (pk, sk) = gen();
            *private_key = sk;
            *public_key = pk;
            Ok(Action::Announce(key_to_string(public_key)))
        },
        Command::Transfer { amount, receiver } => {
            let receiver_pk = string_to_key(receiver);
            let from = serialize_key(public_key);
            let to = serialize_key(&receiver_pk);
            match signed_transfer(from, to, *amount, private_key) {
                Ok(st) => Ok(Action::Flood(new_transaction_message(&st))),
                Err(e) => Err(e),
            }
        },
        Command::Flood => Ok(Action::Flood(new_transaction_message(&empty_transaction()))),
        Command::Idle => Ok(Action::Nothing),
    }
}

/// Carries out a command as `execute` does, after checking the receiver of
/// a transfer: a receiver that is not hexadecimal text, or whose bytes are
/// no key, gives that error and leaves the key pair as it was.
pub fn run_command(cmd: &Command, public_key: &mut RSAPublicKey, private_key: &mut RSAPrivateKey) -> (r: Result<
    Action,
    CryptoError,
>)
    ensures
        receiver_is_key(*cmd) ==> carried_out(*cmd, *old(public_key), *old(private_key), *final(public_key), *final(private_key), r),
        !receiver_is_key(*cmd) ==> {
            &&& *final(public_key) == *old(public_key)
            &&& *final(private_key) == *old(private_key)
            &&& cmd matches Command::Transfer { receiver, .. } && (if hex_valid(receiver@) {
                r == Err::<Action, CryptoError>(CryptoError::InvalidKey)
            } else {
                r == Err::<Action, CryptoError>(CryptoError::InvalidHex)
            })
        },
{
    match cmd {
        Command::Transfer { receiver, .. } => {
            match read_key(receiver) {
                Ok(_) => {},
                Err(e) => {
                    return Err(e);
                },
            }
        },
        _ => {},
    }
    execute(cmd, public_key, private_key)
}

} // verus!
