use vstd::prelude::*;

use digest::Digest;

verus! {

/// Lower-case hex of the MD5 digest of the bytes.
pub uninterp spec fn md5_hex_of(bytes: Seq<u8>) -> Seq<char>;

/// Lower-case hex of the SHA-1 digest of the bytes.
pub uninterp spec fn sha1_hex_of(bytes: Seq<u8>) -> Seq<char>;

/// Lower-case hex of the SHA-256 digest of the bytes.
pub uninterp spec fn sha256_hex_of(bytes: Seq<u8>) -> Seq<char>;

/// Lower-case hex of the SHA-512 digest of the bytes.
pub uninterp spec fn sha512_hex_of(bytes: Seq<u8>) -> Seq<char>;

/// CurseForge's fingerprint of the bytes (murmur2 with seed 1 over the bytes
/// that are not tab, line feed, carriage return or space).
pub uninterp spec fn cf_fingerprint_of(bytes: Seq<u8>) -> usize;

/// The decimal digit `d` as a character.
pub open spec fn digit_char(d: nat) -> char {
    seq!['0', '1', '2', '3', '4', '5', '6', '7', '8', '9'][d as int]
}

/// The decimal notation of `n`, without sign or leading zeros.
pub open spec fn decimal_of(n: nat) -> Seq<char>
    decreases n,
{
    if n < 10 {
        seq![digit_char(n)]
    } else {
        decimal_of(n / 10).push(digit_char(n % 10))
    }
}

/// Relies on md-5's `Md5::digest`, formatted with `{:x}` as lower-case hex.
#[verifier::external_body]
pub(crate) fn md5_hex(bytes: &[u8]) -> (r: String)
    ensures
        r@ == md5_hex_of(bytes@),
{
    format!("{:x}", md5::Md5::digest(bytes))
}

/// Relies on sha1's `Sha1::digest`, formatted with `{:x}` as lower-case hex.
#[verifier::external_body]
pub(crate) fn sha1_hex(bytes: &[u8]) -> (r: String)
    ensures
        r@ == sha1_hex_of(bytes@),
{
    format!("{:x}", sha1::Sha1::digest(bytes))
}

/// Relies on sha2's `Sha256::digest`, formatted with `{:x}` as lower-case hex.
#[verifier::external_body]
pub(crate) fn sha256_hex(bytes: &[u8]) -> (r: String)
    ensures
        r@ == sha256_hex_of(bytes@),
{
    format!("{:x}", sha2::Sha256::digest(bytes))
}

/// Relies on sha2's `Sha512::digest`, formatted with `{:x}` as lower-case hex.
#[verifier::external_body]
pub(crate) fn sha512_hex(bytes: &[u8]) -> (r: String)
    ensures
        r@ == sha512_hex_of(bytes@),
{
    format!("{:x}", sha2::Sha512::digest(bytes))
}

/// Relies on `furse::cf_fingerprint`, a function of the bytes alone.
#[verifier::external_body]
pub(crate) fn fingerprint(bytes: &[u8]) -> (r: usize)
    ensures
        r == cf_fingerprint_of(bytes@),
{
    furse::cf_fingerprint(bytes)
}

/// Relies on std's `ToString` for `usize`, which writes the decimal notation.
#[verifier::external_body]
pub(crate) fn fingerprint_text(n: usize) -> (r: String)
    ensures
        r@ == decimal_of(n as nat),
{
    n.to_string()
}

} // verus!
