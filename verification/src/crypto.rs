//! Small deterministic cryptographic streams for persisted generation.
//!
//! Entropy enters through a 256-bit seed. Generation then uses HMAC-SHA-256
//! in counter mode so retries and rejection sampling consume a stable,
//! auditable stream.

use vstd::prelude::*;
use crate::arith::{be_bytes_spec, be_u64_from_prefix, be_u64_prefix, push_be_bytes};

verus! {

/// The HMAC-SHA-256 tag of `data` under `key`.
pub uninterp spec fn hmac_sha256_of(key: Seq<u8>, data: Seq<u8>) -> Seq<u8>;

/// Computes HMAC-SHA-256 with the `hmac` and `sha2` crates
/// (`Hmac<Sha256>::new_from_slice`, `Mac::update`, `Mac::finalize`).
/// Claimed: the 32-byte tag is a function of the key and message alone.
/// `new_from_slice` accepts keys of every length for HMAC, so the `expect`
/// never fires.
#[verifier::external_body]
fn hmac_sha256(key: &[u8], data: &[u8]) -> (tag: [u8; 32])
    ensures
        tag@ == hmac_sha256_of(key@, data@),
{
    let mut mac = <hmac::Hmac<sha2::Sha256> as hmac::Mac>::new_from_slice(key)
        .expect("HMAC accepts keys of every length");
    hmac::Mac::update(&mut mac, data);
    hmac::Mac::finalize(mac).into_bytes().into()
}

/// Failure of a generation stream.  The keyed hash used here cannot fail;
/// the one error returned is a stream exhausted by dice that read it to its
/// end.
#[derive(Debug)]
pub struct CryptoError {
    pub code: i32,
    pub message: String,
}

pub const SEED_STREAM_DOMAIN: [u8; 29] = [
    99, 101, 112, 104, 101, 117, 115, 45, 116, 114, 97, 100, 101, 114, 47, 115, 101, 101, 100, 45,
    115, 116, 114, 101, 97, 109, 47, 118, 49,
];

pub const DERIVED_SEED_DOMAIN: [u8; 30] = [
    99, 101, 112, 104, 101, 117, 115, 45, 116, 114, 97, 100, 101, 114, 47, 100, 101, 114, 105, 118,
    101, 100, 45, 115, 101, 101, 100, 47, 118, 49,
];

/// The message hashed to derive a child seed for `label`.
pub open spec fn derived_seed_message(label: Seq<u8>) -> Seq<u8> {
    DERIVED_SEED_DOMAIN@ + be_bytes_spec(label.len() as u64) + label
}

/// The child seed derived from `key` for `label`.
pub open spec fn derived_seed(key: Seq<u8>, label: Seq<u8>) -> Seq<u8> {
    hmac_sha256_of(key, derived_seed_message(label))
}

/// The message hashed for the block at position `counter` of a stream.
pub open spec fn stream_message(counter: u64) -> Seq<u8> {
    SEED_STREAM_DOMAIN@ + be_bytes_spec(counter)
}

/// The 32-byte block at position `counter` of the stream keyed by `key`.
pub open spec fn stream_block(key: Seq<u8>, counter: u64) -> Seq<u8> {
    hmac_sha256_of(key, stream_message(counter))
}

/// The 64-bit word drawn at position `counter` of the stream keyed by `key`.
pub open spec fn stream_word(key: Seq<u8>, counter: u64) -> u64 {
    be_u64_prefix(stream_block(key, counter))
}

pub fn extend_bytes(out: &mut Vec<u8>, bytes: &[u8])
    ensures
        final(out)@ == old(out)@ + bytes@,
{
    let mut i: usize = 0;
    while i < bytes.len()
        invariant
            i <= bytes@.len(),
            out@ == old(out)@ + bytes@.take(i as int),
        decreases bytes@.len() - i,
    {
        out.push(bytes[i]);
        i = i + 1;
        assert(out@ =~= old(out)@ + bytes@.take(i as int));
    }
    assert(bytes@.take(bytes@.len() as int) =~= bytes@);
}

/// Derive a stable, domain-separated child seed.
///
/// Labels are part of the generation contract and must include their own
/// version. Adding a sibling label never consumes or shifts another stream.
pub fn derive_seed(key: [u8; 32], label: &[u8]) -> (r: Result<[u8; 32], CryptoError>)
    ensures
        r is Ok,
        r matches Ok(seed) ==> seed@ == derived_seed(key@, label@),
{
    let mut input: Vec<u8> = Vec::new();
    let domain: [u8; 30] = DERIVED_SEED_DOMAIN;
    extend_bytes(&mut input, domain.as_slice());
    push_be_bytes(&mut input, label.len() as u64);
    extend_bytes(&mut input, label);
    assert(input@ =~= derived_seed_message(label@));
    Ok(hmac_sha256(key.as_slice(), input.as_slice()))
}

#[derive(Clone, Debug)]
pub struct SeedStream {
    key: [u8; 32],
    counter: u64,
}

impl SeedStream {
    /// The stream's key.
    pub closed spec fn key(&self) -> Seq<u8> {
        self.key@
    }

    /// The position of the next block.
    pub closed spec fn counter(&self) -> u64 {
        self.counter
    }

    pub fn new(key: [u8; 32]) -> (s: Self)
        ensures
            s.key() == key@,
            s.counter() == 0,
    {
        Self { key, counter: 0 }
    }

    /// How many blocks the stream has given.
    pub fn blocks_drawn(&self) -> (n: u64)
        ensures
            n == self.counter(),
    {
        self.counter
    }

    /// The next 32-byte block; the stream is exhausted after 2^64 - 1 blocks.
    pub fn next_seed(&mut self) -> (r: Result<[u8; 32], CryptoError>)
        requires
            old(self).counter() < u64::MAX,
        ensures
            final(self).key() == old(self).key(),
            final(self).counter() == old(self).counter() + 1,
            r is Ok,
            r matches Ok(block) ==> block@ == stream_block(old(self).key(), old(self).counter()),
    {
        let counter = self.counter;
        self.counter = counter + 1;
        let mut input: Vec<u8> = Vec::new();
        let domain: [u8; 29] = SEED_STREAM_DOMAIN;
        extend_bytes(&mut input, domain.as_slice());
        push_be_bytes(&mut input, counter);
        assert(input@ =~= stream_message(counter));
        Ok(hmac_sha256(self.key.as_slice(), input.as_slice()))
    }

    /// The big-endian value of the first eight bytes of the next block.
    pub fn next_u64(&mut self) -> (r: Result<u64, CryptoError>)
        requires
            old(self).counter() < u64::MAX,
        ensures
            final(self).key() == old(self).key(),
            final(self).counter() == old(self).counter() + 1,
            r is Ok,
            r matches Ok(word) ==> word == stream_word(old(self).key(), old(self).counter()),
    {
        let block = match self.next_seed() {
            Ok(block) => block,
            Err(e) => return Err(e),
        };
        Ok(be_u64_from_prefix(&block))
    }
}

} // verus!
