//! Key-material generation: random alphanumeric strings, opaque API keys,
//! and the two-segment candidate keys that seed the pool.

use rand::RngExt;
use vstd::prelude::*;
use vstd::string::*;
use crate::text::{
    alphanumeric_seq, dec_str, has_underscore, is_key_char, lemma_dec_str_chars,
    lemma_underscore_idx_is, pub_part, push_char, u64_to_dec_string, underscore_idx,
};

verus! {

/// Default length of each segment of a generated candidate key.
pub const KEY_SEGMENT_LEN: usize = 8;

/// Relies on `rand::rng` and `rand::distr::Alphanumeric`: every sampled
/// byte is one of the 62 ASCII alphanumeric characters.
#[verifier::external_body]
fn sample_alphanumeric() -> (c: char)
    ensures
        is_key_char(c),
{
    let b: u8 = rand::rng().sample(rand::distr::Alphanumeric);
    b as char
}

/// Relies on `rand::random`: a random 64-bit value; nothing further is
/// promised of the result.
#[verifier::external_body]
fn sample_u64() -> (n: u64) {
    rand::random::<u64>()
}

/// A uniformly random alphanumeric string of the given length.
pub fn create_random_key(length: usize) -> (key: String)
    ensures
        key@.len() == length,
        alphanumeric_seq(key@),
{
    let mut key = String::new();
    let mut i: usize = 0;
    while i < length
        invariant
            i <= length,
            key@.len() == i,
            alphanumeric_seq(key@),
        decreases length - i,
    {
        let c = sample_alphanumeric();
        push_char(&mut key, c);
        i = i + 1;
    }
    key
}

/// An opaque 32-character API-key credential.
pub fn create_api_key() -> (key: String)
    ensures
        key@.len() == 32,
        alphanumeric_seq(key@),
{
    create_random_key(32)
}

/// A random 64-bit value rendered in decimal.
pub fn create_unique_random_key() -> (key: String)
    ensures
        key@.len() >= 1,
        alphanumeric_seq(key@),
        exists|n: nat| key@ == dec_str(n),
{
    let n = sample_u64();
    proof {
        lemma_dec_str_chars(n as nat);
    }
    let key = u64_to_dec_string(n);
    proof {
        assert(key@ == dec_str(n as nat));
    }
    key
}

/// A candidate pool key: two independently drawn alphanumeric segments
/// joined by `'_'`. The left segment is the public short key; the whole
/// string is the secret key.
pub fn generate_candidate_key(segment_len: usize) -> (key: String)
    ensures
        key@.len() == 2 * segment_len + 1,
        has_underscore(key@),
        underscore_idx(key@) == segment_len as int,
        pub_part(key@) == key@.subrange(0, segment_len as int),
        alphanumeric_seq(pub_part(key@)),
        key@[segment_len as int] == '_',
        alphanumeric_seq(key@.skip(segment_len as int + 1)),
{
    let a = create_random_key(segment_len);
    let b = create_random_key(segment_len);
    let mut key = a;
    key.append("_");
    key.append(b.as_str());
    proof {
        reveal_strlit("_");
        assert(key@.len() == 2 * segment_len + 1);
        assert(key@[segment_len as int] == '_');
        assert forall|j: int| 0 <= j < segment_len implies key@[j] != '_' by {
            assert(is_key_char(key@[j]));
        }
        lemma_underscore_idx_is(key@, segment_len as int);
        assert(alphanumeric_seq(pub_part(key@)));
        assert forall|j: int| 0 <= j < key@.skip(segment_len as int + 1).len() implies is_key_char(
            #[trigger] key@.skip(segment_len as int + 1)[j],
        ) by {
            assert(key@.skip(segment_len as int + 1)[j] == key@[segment_len as int + 1 + j]);
        }
    }
    key
}

} // verus!
