//! Keys for a flat store that is addressed by one word: each record of a
//! session gets the Keccak-256 digest of its tag, the session's id and what
//! tells it apart within the session.

use vstd::prelude::*;
use vstd::arithmetic::power::pow;
use crate::address::Address;
use crate::word::U256;

verus! {

/// The tag of a participant's place in the list.
pub const TAG_PARTICIPANT: u8 = 0x70;

/// The tag of a deposit record.
pub const TAG_DEPOSIT: u8 = 0x64;

/// The tag of a vote record.
pub const TAG_VOTE: u8 = 0x76;

/// The tag of a tally of accusations.
pub const TAG_ABSENCE: u8 = 0x61;

/// The Keccak-256 digest of `data`, as `alloy_primitives::keccak256` computes
/// it.
pub uninterp spec fn keccak256_digest(data: Seq<u8>) -> Seq<u8>;

/// The 32 bytes of `n`, most significant first.
pub open spec fn be_bytes(n: nat) -> Seq<u8> {
    Seq::new(32, |i: int| ((n as int / pow(256, (31 - i) as nat)) % 256) as u8)
}

/// The number that `bytes` stand for, most significant first.
pub open spec fn be_value(bytes: Seq<u8>) -> nat
    decreases bytes.len(),
{
    if bytes.len() == 0 {
        0
    } else {
        256 * be_value(bytes.drop_last()) + bytes.last() as nat
    }
}

/// What is hashed for the place `idx` of the list of session `sid`.
pub open spec fn participant_preimage(sid: nat, idx: nat) -> Seq<u8> {
    seq![TAG_PARTICIPANT] + be_bytes(sid) + be_bytes(idx)
}

/// What is hashed for the record of kind `prefix` that session `sid` holds of
/// `addr`.
pub open spec fn addr_preimage(prefix: u8, sid: nat, addr: Address) -> Seq<u8> {
    seq![prefix] + be_bytes(sid) + addr@
}

/// The digest of `data`.
///
/// Calls `alloy_primitives::keccak256`, which returns the Keccak-256 digest
/// of the bytes given, 32 bytes long.
#[verifier::external_body]
fn keccak256(data: &Vec<u8>) -> (r: [u8; 32])
    ensures
        r@ == keccak256_digest(data@),
{
    alloy_primitives::keccak256(data).0
}

/// The bytes of a word, most significant first.
///
/// Calls `to_be_bytes` of `alloy_primitives::U256` at 32 bytes, which writes
/// the value in base 256 with the most significant digit first.
#[verifier::external_body]
fn word_to_be_bytes(a: U256) -> (r: [u8; 32])
    ensures
        r@ == be_bytes(a@),
{
    alloy_primitives::U256::from_limbs(a.limbs).to_be_bytes::<32>()
}

/// The word of 32 bytes, most significant first.
///
/// Calls `from_be_bytes` of `alloy_primitives::U256` at 32 bytes, which reads
/// the bytes as a number in base 256 with the most significant digit first.
#[verifier::external_body]
fn word_from_be_bytes(bytes: [u8; 32]) -> (r: U256)
    ensures
        r@ == be_value(bytes@),
{
    U256 { limbs: alloy_primitives::U256::from_be_bytes::<32>(bytes).into_limbs() }
}

/// Appends the 32 bytes of `bytes` to `buf`.
fn append_word(buf: &mut Vec<u8>, bytes: &[u8; 32])
    ensures
        final(buf)@ == old(buf)@ + bytes@,
{
    let mut i: usize = 0;
    while i < 32
        invariant
            i <= 32,
            buf@ == old(buf)@ + bytes@.take(i as int),
        decreases 32 - i,
    {
        buf.push(bytes[i]);
        proof {
            assert(bytes@.take(i + 1) =~= bytes@.take(i as int).push(bytes@[i as int]));
            assert(buf@ =~= old(buf)@ + bytes@.take(i + 1));
        }
        i += 1;
    }
    proof {
        assert(bytes@.take(32) =~= bytes@);
    }
}

/// The key of the place `idx` in the list of session `sid`.
pub fn participant_key(sid: U256, idx: U256) -> (r: U256)
    ensures
        r@ == be_value(keccak256_digest(participant_preimage(sid@, idx@))),
{
    let mut buf: Vec<u8> = Vec::new();
    buf.push(TAG_PARTICIPANT);
    append_word(&mut buf, &word_to_be_bytes(sid));
    append_word(&mut buf, &word_to_be_bytes(idx));
    proof {
        assert(buf@ =~= participant_preimage(sid@, idx@));
    }
    word_from_be_bytes(keccak256(&buf))
}

/// The key of the record of kind `prefix` that session `sid` holds of `addr`.
pub fn addr_key(prefix: u8, sid: U256, addr: Address) -> (r: U256)
    ensures
        r@ == be_value(keccak256_digest(addr_preimage(prefix, sid@, addr))),
{
    let mut buf: Vec<u8> = Vec::new();
    buf.push(prefix);
    append_word(&mut buf, &word_to_be_bytes(sid));
    let mut i: usize = 0;
    while i < 20
        invariant
            i <= 20,
            buf@ == seq![prefix] + be_bytes(sid@) + addr@.take(i as int),
        decreases 20 - i,
    {
        buf.push(addr.bytes[i]);
        proof {
            assert(addr@.take(i + 1) =~= addr@.take(i as int).push(addr@[i as int]));
            assert(buf@ =~= seq![prefix] + be_bytes(sid@) + addr@.take(i + 1));
        }
        i += 1;
    }
    proof {
        assert(addr@.take(20) =~= addr@);
    }
    word_from_be_bytes(keccak256(&buf))
}

} // verus!
