//! What a node decides about the messages it floods and receives: each
//! message is handled and passed on once, however often peers send it.

use vstd::prelude::*;
use std::collections::HashMap;
use crate::blockchain::{handle, handle_in_range, outcome_of, carries_transaction, apply_transfer, BlockChain, Outcome};
use crate::structures::{Block, SignedTransaction};
pub use crate::structures::Message;

verus! {

broadcast use vstd::std_specs::hash::group_hash_axioms;

/// The type of a greeting message.
pub const GREETING: usize = 0;

/// The type of a transaction message.
pub const TRANSACTION: usize = 1;

/// The type of a block message.
pub const BLOCK: usize = 2;

/// A number chosen by chance, from the thread's random generator.
#[verifier::external_body]
fn random_id() -> usize {
    rand::random::<usize>()
}

/// The greeting that a node sends to a peer that has just connected.
pub fn greeting() -> (r: Message)
    ensures
        r.id == 0,
        r.typ == GREETING,
        r.transaction is None,
        r.block is None,
{
    Message { id: 0, typ: GREETING, transaction: None, block: None }
}

/// A transaction message with the given id, carrying a copy of `data`.
pub fn transaction_message(id: usize, data: &SignedTransaction) -> (r: Message)
    ensures
        r.id == id,
        r.typ == TRANSACTION,
        r.transaction matches Some(t) && t@ == data@,
        r.block is None,
{
    Message { id, typ: TRANSACTION, transaction: Some(data.duplicate()), block: None }
}

/// A block message with the given id, carrying a copy of `data`.
pub fn block_message(id: usize, data: &Block) -> (r: Message)
    ensures
        r.id == id,
        r.typ == BLOCK,
        r.transaction is None,
        r.block matches Some(b) && b@ == data@,
{
    Message { id, typ: BLOCK, transaction: None, block: Some(data.duplicate()) }
}

/// A transaction message to flood, under an id chosen by chance.
pub fn new_transaction_message(data: &SignedTransaction) -> (r: Message)
    ensures
        r.typ == TRANSACTION,
        r.transaction matches Some(t) && t@ == data@,
        r.block is None,
{
    transaction_message(random_id(), data)
}

/// A block message to flood, under an id chosen by chance.
pub fn new_block_message(data: &Block) -> (r: Message)
    ensures
        r.typ == BLOCK,
        r.transaction is None,
        r.block matches Some(b) && b@ == data@,
{
    block_message(random_id(), data)
}

/// The messages a node has received, by id.
pub struct MessageLog {
    pub msg_received: HashMap<usize, Message>,
}

/// Whether a message is new to a node whose log is `log`.
pub open spec fn is_new(log: Map<usize, Message>, msg: Message) -> bool {
    !log.contains_key(msg.id)
}

/// The log after `msg` has been received.
pub open spec fn log_after(log: Map<usize, Message>, msg: Message) -> Map<usize, Message> {
    if is_new(log, msg) {
        log.insert(msg.id, msg)
    } else {
        log
    }
}

impl MessageLog {
    /// A log of no messages.
    pub fn new() -> (r: MessageLog)
        ensures
            r.msg_received@ == Map::<usize, Message>::empty(),
    {
        MessageLog { msg_received: HashMap::new() }
    }

    /// Whether a message with this id has been received.
    pub fn has_seen(&self, id: usize) -> (r: bool)
        ensures
            r == self.msg_received@.contains_key(id),
    {
        self.msg_received.contains_key(&id)
    }

    /// Receives a message from a peer. A message whose id is new is handled
    /// by `blockchain` and logged, and the outcome is returned: the caller
    /// then passes the message on to its peers. A message seen before is
    /// ignored (`None`), and the node stays as it was.
    pub fn receive(&mut self, blockchain: &mut BlockChain, msg: Message) -> (r: Option<Outcome>)
        requires
            is_new(old(self).msg_received@, msg) ==> handle_in_range(old(blockchain).ledger@, msg),
        ensures
            final(self).msg_received@ == log_after(old(self).msg_received@, msg),
            is_new(old(self).msg_received@, msg) ==> {
                &&& r == Some(outcome_of(msg))
                &&& final(blockchain).ledger@ == (if carries_transaction(msg) {
                    apply_transfer(old(blockchain).ledger@, msg.transaction.unwrap().transaction@)
                } else {
                    old(blockchain).ledger@
                })
            },
            !is_new(old(self).msg_received@, msg) ==> r is None && final(blockchain).ledger@
                == old(blockchain).ledger@,
            final(blockchain).incoming_transactions == old(blockchain).incoming_transactions,
            final(blockchain).public_key == old(blockchain).public_key,
            final(blockchain).private_key == old(blockchain).private_key,
            !old(self).msg_received@.contains_key(msg.id) ==> r == Some(outcome_of(msg))
                && final(self).msg_received@ == old(self).msg_received@.insert(msg.id, msg),
            old(self).msg_received@.contains_key(msg.id) ==> r is None && final(self).msg_received@
                == old(self).msg_received@,
    {
        if self.msg_received.contains_key(&msg.id) {
            None
        } else {
            let outcome = handle(blockchain, &msg);
            let id = msg.id;
            self.msg_received.insert(id, msg);
            Some(outcome)
        }
    }
}

/// A message is handled at most once: once a message has been received,
/// every later message with the same id is ignored.
pub proof fn lemma_handled_once(log: Map<usize, Message>, first: Message, later: Message)
    requires
        first.id == later.id,
    ensures
        !is_new(log_after(log, first), later),
        log_after(log_after(log, first), later) == log_after(log, first),
{
}

/// A message whose id the log does not hold is new, whatever its id: it is
/// handled and logged under its id.
pub proof fn lemma_unseen_is_new(log: Map<usize, Message>, msg: Message)
    requires
        !log.contains_key(msg.id),
    ensures
        is_new(log, msg),
        log_after(log, msg) == log.insert(msg.id, msg),
        log_after(log, msg).contains_key(msg.id),
{
}

/// A message whose id the log holds is not new: the log stays as it was.
pub proof fn lemma_seen_is_not_new(log: Map<usize, Message>, msg: Message)
    requires
        log.contains_key(msg.id),
    ensures
        !is_new(log, msg),
        log_after(log, msg) == log,
{
}

/// Receiving never forgets a message.
pub proof fn lemma_log_grows(log: Map<usize, Message>, msg: Message, id: usize)
    requires
        log.contains_key(id),
    ensures
        log_after(log, msg).contains_key(id),
        log_after(log, msg)[id] == log[id],
{
}

/// The log after the messages `msgs` have been received in turn.
pub open spec fn log_after_all(log: Map<usize, Message>, msgs: Seq<Message>) -> Map<usize, Message>
    decreases msgs.len(),
{
    if msgs.len() == 0 {
        log
    } else {
        log_after(log_after_all(log, msgs.drop_last()), msgs.last())
    }
}

/// The ids of the messages among `msgs` that were handled, in turn: those
/// that were new when they came.
pub open spec fn handled_ids(log: Map<usize, Message>, msgs: Seq<Message>) -> Seq<usize>
    decreases msgs.len(),
{
    if msgs.len() == 0 {
        Seq::empty()
    } else {
        let before = handled_ids(log, msgs.drop_last());
        if is_new(log_after_all(log, msgs.drop_last()), msgs.last()) {
            before.push(msgs.last().id)
        } else {
            before
        }
    }
}

/// Over any run of received messages, each id is handled at most once and
/// none that the log held before; the log then holds exactly the ids it held
/// and the ids handled, and every message it held stays as it was.
pub proof fn lemma_each_id_handled_once(log: Map<usize, Message>, msgs: Seq<Message>)
    ensures
        handled_ids(log, msgs).no_duplicates(),
        forall|i: int| 0 <= i < handled_ids(log, msgs).len() ==> !log.contains_key(#[trigger] handled_ids(log, msgs)[i]),
        forall|id: usize| #[trigger] log_after_all(log, msgs).contains_key(id) <==> (log.contains_key(id)
            || handled_ids(log, msgs).contains(id)),
        forall|id: usize| #[trigger] log.contains_key(id) ==> log_after_all(log, msgs)[id] == log[id],
    decreases msgs.len(),
{
    if msgs.len() > 0 {
        let prev = msgs.drop_last();
        lemma_each_id_handled_once(log, prev);
        let m = msgs.last();
        let l = log_after_all(log, prev);
        let h = handled_ids(log, prev);
        if is_new(l, m) {
            assert(!h.contains(m.id));
            assert(!log.contains_key(m.id));
            let h2 = h.push(m.id);
            assert(h2 == handled_ids(log, msgs));
            assert forall|i: int, j: int| 0 <= i < h2.len() && 0 <= j < h2.len() && i != j implies h2[i] != h2[j] by {
                if i < h.len() && j < h.len() {
                } else if i == h.len() {
                    assert(h.contains(h2[j]));
                } else {
                    assert(h.contains(h2[i]));
                }
            }
            assert forall|id: usize| #[trigger] log_after_all(log, msgs).contains_key(id) <==> (log.contains_key(id)
                || h2.contains(id)) by {
                if h.contains(id) {
                    let k = choose|k: int| 0 <= k < h.len() && h[k] == id;
                    assert(h2[k] == id);
                }
                if h2.contains(id) && id != m.id {
                    let k = choose|k: int| 0 <= k < h2.len() && h2[k] == id;
                    assert(h[k] == id);
                }
                if id == m.id {
                    assert(h2[h.len() as int] == id);
                }
            }
        }
    }
}

} // verus!
