use vstd::prelude::*;

use crate::structs::{digest_text, HashFormat};

verus! {

/// Whether the computed character `c` equals the expected character `e` once
/// `e` is brought to ASCII lower case.
pub open spec fn char_matches_lowered(c: char, e: char) -> bool {
    if 'A' <= e && e <= 'Z' {
        c as u32 == e as u32 + 32
    } else {
        c == e
    }
}

/// Whether `computed` equals `expected` brought to ASCII lower case.
pub open spec fn text_matches(computed: Seq<char>, expected: Seq<char>) -> bool {
    &&& computed.len() == expected.len()
    &&& forall|i: int| 0 <= i < computed.len() ==> char_matches_lowered(computed[i], expected[i])
}

/// Whether the digest of `bytes` under `format` is the one `expected` declares.
pub open spec fn hash_accepted(bytes: Seq<u8>, expected: Seq<char>, format: HashFormat) -> bool {
    text_matches(digest_text(format, bytes), expected)
}

/// A digest that differs from the one that was declared.
pub struct HashMismatch {
    pub expected: String,
    pub actual: String,
    pub format: HashFormat,
}

/// Compares a computed digest with a declared one. Digests are written in
/// lower case; the declared one may be in either case.
pub fn hash_matches(computed: &str, expected: &str) -> (r: bool)
    ensures
        r == text_matches(computed@, expected@),
{
    let n = computed.unicode_len();
    if n != expected.unicode_len() {
        return false;
    }
    let mut i: usize = 0;
    while i < n
        invariant
            n == computed@.len(),
            n == expected@.len(),
            i <= n,
            forall|j: int| 0 <= j < i ==> char_matches_lowered(computed@[j], expected@[j]),
        decreases n - i,
    {
        let c = computed.get_char(i);
        let e = expected.get_char(i);
        let ok = if 'A' <= e && e <= 'Z' {
            c as u32 == e as u32 + 32
        } else {
            c == e
        };
        if !ok {
            return false;
        }
        i = i + 1;
    }
    true
}

/// Checks `bytes` against the digest `expected` declared under `format`.
pub fn verify_hash(bytes: &[u8], expected: &str, format: HashFormat) -> (r: Result<(), HashMismatch>)
    ensures
        r is Ok <==> hash_accepted(bytes@, expected@, format),
        r matches Err(m) ==> {
            &&& m.expected@ == expected@
            &&& m.actual@ == digest_text(format, bytes@)
            &&& m.format == format
        },
{
    let actual = format.get_hash(bytes);
    if hash_matches(actual.as_str(), expected) {
        Ok(())
    } else {
        Err(HashMismatch { expected: expected.to_string(), actual, format })
    }
}

} // verus!
