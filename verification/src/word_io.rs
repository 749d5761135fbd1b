//! Reading and writing digests (words of four field elements) on the wire: each element is the
//! eight little-endian bytes of its canonical value.

use vstd::prelude::*;
use vstd::bytes::spec_u64_to_le_bytes_open;
use miden_crypto::utils::{Deserializable, Serializable};
use crate::bytes::{
    DeserializationError, InvalidValue, le_u64_at, lemma_le_u64_roundtrip, read_slice_at,
    short_read_error,
};
use crate::field::{P, Word, word_is_canonical};

verus! {

/// The 32 bytes of a word on the wire: the canonical value of each element, little-endian.
pub open spec fn spec_word_bytes(w: Word) -> Seq<u8> {
    spec_u64_to_le_bytes_open(w.a % P) + spec_u64_to_le_bytes_open(w.b % P)
        + spec_u64_to_le_bytes_open(w.c % P) + spec_u64_to_le_bytes_open(w.d % P)
}

/// The word read from the 32 bytes of `s` at `offset`, if all four elements are canonical.
pub open spec fn spec_word_at(s: Seq<u8>, offset: int) -> Option<Word> {
    let a = le_u64_at(s, offset);
    let b = le_u64_at(s, offset + 8);
    let c = le_u64_at(s, offset + 16);
    let d = le_u64_at(s, offset + 24);
    if a < P && b < P && c < P && d < P {
        Some(Word { a, b, c, d })
    } else {
        None
    }
}

/// Appends a word through miden-crypto's `Word::write_into`; the claim is that the canonical
/// value of each element (the element modulo `P`) is appended as eight little-endian bytes.
#[verifier::external_body]
pub(crate) fn write_word(target: &mut Vec<u8>, word: &Word)
    ensures
        final(target)@ == old(target)@ + spec_word_bytes(*word),
{
    let w = miden_crypto::Word::new(
        [
            miden_crypto::Felt::new(word.a),
            miden_crypto::Felt::new(word.b),
            miden_crypto::Felt::new(word.c),
            miden_crypto::Felt::new(word.d),
        ],
    );
    w.write_into(target)
}

/// Reads a word from 32 bytes through miden-crypto's `Word::read_from_bytes`; the claim is that
/// it reads four little-endian `u64` values and fails exactly when one of them is not below `P`.
#[verifier::external_body]
fn word_from_bytes(bytes: &[u8]) -> (r: Option<Word>)
    requires
        bytes@.len() == 32,
    ensures
        r == spec_word_at(bytes@, 0),
{
    match miden_crypto::Word::read_from_bytes(bytes) {
        Ok(w) => Some(
            Word {
                a: w[0].as_canonical_u64(),
                b: w[1].as_canonical_u64(),
                c: w[2].as_canonical_u64(),
                d: w[3].as_canonical_u64(),
            },
        ),
        Err(_) => None,
    }
}

/// Reads a word at `*offset` and advances the offset past its 32 bytes.
pub fn read_word_at(bytes: &[u8], offset: &mut usize) -> (r: Result<Word, DeserializationError>)
    ensures
        *old(offset) + 32 <= bytes@.len() ==> match spec_word_at(bytes@, *old(offset) as int) {
            Some(w) => r == Ok::<Word, DeserializationError>(w) && *final(offset) == *old(offset)
                + 32,
            None => r == Err::<Word, DeserializationError>(
                DeserializationError::InvalidValue(InvalidValue::NonCanonicalDigest),
            ),
        },
        *old(offset) + 32 > bytes@.len() ==> r == Err::<Word, DeserializationError>(
            short_read_error(*old(offset) as int, 32),
        ),
{
    let ghost o = *offset as int;
    let slice = read_slice_at(bytes, offset, 32)?;
    proof {
        let t = slice@;
        assert(t =~= bytes@.subrange(o, o + 32));
        assert forall|k: int| 0 <= k < 32 implies #[trigger] t[k] == bytes@[o + k] by {}
        assert(le_u64_at(t, 0) == le_u64_at(bytes@, o));
        assert(le_u64_at(t, 8) == le_u64_at(bytes@, o + 8));
        assert(le_u64_at(t, 16) == le_u64_at(bytes@, o + 16));
        assert(le_u64_at(t, 24) == le_u64_at(bytes@, o + 24));
    }
    match word_from_bytes(slice) {
        Some(w) => Ok(w),
        None => Err(DeserializationError::InvalidValue(InvalidValue::NonCanonicalDigest)),
    }
}

/// The word whose elements are the canonical values of those of `w`.
pub open spec fn canonical_word(w: Word) -> Word {
    Word { a: w.a % P, b: w.b % P, c: w.c % P, d: w.d % P }
}

/// Reading back the bytes of a word gives the word with canonical elements (the word itself
/// when it is canonical).
pub proof fn lemma_word_roundtrip(w: Word, prefix: Seq<u8>, suffix: Seq<u8>)
    ensures
        spec_word_bytes(w).len() == 32,
        spec_word_at(prefix + spec_word_bytes(w) + suffix, prefix.len() as int) == Some(
            canonical_word(w),
        ),
        word_is_canonical(w) ==> canonical_word(w) == w,
{
    let e0 = spec_u64_to_le_bytes_open(w.a % P);
    let e1 = spec_u64_to_le_bytes_open(w.b % P);
    let e2 = spec_u64_to_le_bytes_open(w.c % P);
    let e3 = spec_u64_to_le_bytes_open(w.d % P);
    let s = prefix + spec_word_bytes(w) + suffix;
    lemma_le_u64_roundtrip(w.a % P, prefix, e1 + e2 + e3 + suffix);
    assert(prefix + e0 + (e1 + e2 + e3 + suffix) =~= s);
    lemma_le_u64_roundtrip(w.b % P, prefix + e0, e2 + e3 + suffix);
    assert(prefix + e0 + e1 + (e2 + e3 + suffix) =~= s);
    lemma_le_u64_roundtrip(w.c % P, prefix + e0 + e1, e3 + suffix);
    assert(prefix + e0 + e1 + e2 + (e3 + suffix) =~= s);
    lemma_le_u64_roundtrip(w.d % P, prefix + e0 + e1 + e2, suffix);
    assert(prefix + e0 + e1 + e2 + e3 + suffix =~= s);
}

} // verus!
