use modpack_merge::fetch::check_download;
use modpack_merge::structs::HashFormat;
use modpack_merge::verify::{hash_matches, verify_hash};

#[test]
fn sha256_of_abc() {
    assert_eq!(
        HashFormat::Sha256.get_hash(b"abc"),
        "ba7816bf8f01cfea414140de5dae2223b00361a396177a9cb410ff61f20015ad"
    );
}

#[test]
fn sha1_of_abc() {
    assert_eq!(HashFormat::Sha1.get_hash(b"abc"), "a9993e364706816aba3e25717850c26c9cd0d89d");
}

#[test]
fn md5_of_abc() {
    assert_eq!(HashFormat::Md5.get_hash(b"abc"), "900150983cd24fb0d6963f7d28e17f72");
}

#[test]
fn sha512_of_abc() {
    assert_eq!(
        HashFormat::Sha512.get_hash(b"abc"),
        "ddaf35a193617abacc417349ae20413112e6fa4e89a97ea20a9eeee64b55d39a2192992a274fc1a836ba3c23a3feebbd454d4423643ce80e2a9ac94fa54ca49f"
    );
}

#[test]
fn fingerprint_is_decimal_and_ignores_whitespace() {
    let plain = HashFormat::Murmur2.get_hash(b"abc");
    assert!(!plain.is_empty());
    assert!(plain.chars().all(|c| c.is_ascii_digit()));
    assert!(plain == "0" || !plain.starts_with('0'));
    assert_eq!(HashFormat::Murmur2.get_hash(b" a\tb\r\nc "), plain);
    assert_ne!(HashFormat::Murmur2.get_hash(b"abd"), plain);
}

#[test]
fn declared_hash_case_is_ignored() {
    assert!(hash_matches("9001abcdef", "9001ABCDEF"));
    assert!(hash_matches("9001abcdef", "9001abcdef"));
    assert!(!hash_matches("9001abcdef", "9001abcdee"));
    assert!(!hash_matches("9001abcdef", "9001abcde"));
    assert!(!hash_matches("9001ABCDEF", "9001abcdef"));
    assert!(hash_matches("", ""));
}

#[test]
fn verify_accepts_upper_case_declaration() {
    let declared = "900150983CD24FB0D6963F7D28E17F72";
    assert!(verify_hash(b"abc", declared, HashFormat::Md5).is_ok());
}

#[test]
fn verify_reports_mismatch() {
    let err = verify_hash(b"abd", "900150983cd24fb0d6963f7d28e17f72", HashFormat::Md5).unwrap_err();
    assert_eq!(err.expected, "900150983cd24fb0d6963f7d28e17f72");
    assert_eq!(err.actual, HashFormat::Md5.get_hash(b"abd"));
    assert_ne!(err.actual, err.expected);
    assert_eq!(err.format, HashFormat::Md5);
}

#[test]
fn download_with_right_digest_is_kept() {
    let bytes = b"abc".to_vec();
    let kept = check_download(
        bytes.clone(),
        "ba7816bf8f01cfea414140de5dae2223b00361a396177a9cb410ff61f20015ad",
        HashFormat::Sha256,
    )
    .ok()
    .unwrap();
    assert_eq!(kept, bytes);
}

#[test]
fn download_with_wrong_digest_is_refused() {
    let r = check_download(b"abc".to_vec(), "bb", HashFormat::Sha256);
    let err = r.err().unwrap();
    assert_eq!(err.expected, "bb");
    assert_eq!(err.format, HashFormat::Sha256);
}

#[test]
fn download_checked_under_declared_format_only() {
    // the SHA-256 of the bytes is not accepted where SHA-1 is declared
    let r = check_download(
        b"abc".to_vec(),
        "ba7816bf8f01cfea414140de5dae2223b00361a396177a9cb410ff61f20015ad",
        HashFormat::Sha1,
    );
    assert!(r.is_err());
}
