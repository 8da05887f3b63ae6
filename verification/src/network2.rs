//! The decisions of the single-threaded connection loop: when to greet
//! every peer, what a greeting is on the wire, and how a received chunk
//! reads as text.

use vstd::prelude::*;
use crate::structures::{framed, le_bytes};

verus! {

/// How many turns of the loop pass between two greetings.
pub const GREETING_PERIOD: u64 = 10000000;

/// The text that a string of bincode bytes encodes: a little-endian `u64`
/// length, then that many bytes of UTF-8 (trailing bytes are ignored), or
/// `None` where bincode refuses the bytes.
pub uninterp spec fn bincode_text(data: Seq<u8>) -> Option<Seq<char>>;

/// `bincode::serialize` of a byte string under bincode's default
/// configuration: its length as a little-endian `u64`, then its bytes (a
/// `str` of the same bytes is written the same way). No size limit is set,
/// so it always succeeds.
#[verifier::external_body]
fn bincode_bytes(b: &[u8]) -> (r: Result<Vec<u8>, Box<bincode::ErrorKind>>)
    ensures
        r is Ok,
        r matches Ok(v) ==> v@ == framed(b@),
{
    bincode::serialize(b)
}

/// `bincode::deserialize::<String>`: the text that the bytes encode, if
/// bincode accepts them. Bincode reads an eight-byte little-endian length
/// first and refuses the bytes where fewer follow; whether those bytes are
/// UTF-8, and the text they spell, is left to the name.
#[verifier::external_body]
fn bincode_decode_text(data: &[u8]) -> (r: Result<String, Box<bincode::ErrorKind>>)
    ensures
        r is Ok <==> bincode_text(data@) is Some,
        r matches Ok(s) ==> bincode_text(data@) == Some(s@),
        r is Ok ==> exists|n: nat| data@.len() >= 8 && #[trigger] le_bytes(n, 8) == data@.take(8) && 8 + n
            <= data@.len(),
{
    bincode::deserialize::<String>(data)
}

/// Whether the loop greets its peers on this turn.
pub fn greeting_due(turn: u64) -> (r: bool)
    ensures
        r == (turn % GREETING_PERIOD == 0),
{
    turn % GREETING_PERIOD == 0
}

/// The bytes of the ASCII word `greet`.
pub open spec fn greet_word() -> Seq<u8> {
    seq![103u8, 114u8, 101u8, 101u8, 116u8]
}

/// The greeting on the wire: the text `greet` in bincode.
pub fn greet_bytes() -> (r: Vec<u8>)
    ensures
        r@ == framed(greet_word()),
{
    let word: [u8; 5] = [103u8, 114u8, 101u8, 101u8, 116u8];
    assert(word@ =~= greet_word());
    match bincode_bytes(&word) {
        Ok(v) => v,
        Err(_) => vstd::pervasive::unreached(),
    }
}

/// The text that a received chunk encodes, if bincode accepts it.
pub fn decode_text(data: &[u8]) -> (r: Option<String>)
    ensures
        r is Some <==> bincode_text(data@) is Some,
        r matches Some(s) ==> bincode_text(data@) == Some(s@),
        r is Some ==> exists|n: nat| data@.len() >= 8 && #[trigger] le_bytes(n, 8) == data@.take(8) && 8 + n
            <= data@.len(),
{
    match bincode_decode_text(data) {
        Ok(s) => Some(s),
        Err(_) => None,
    }
}

} // verus!
