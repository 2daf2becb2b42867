use vstd::prelude::*;

use crate::digests::{cf_fingerprint_of, decimal_of, fingerprint, fingerprint_text, md5_hex, md5_hex_of, sha1_hex, sha1_hex_of, sha256_hex, sha256_hex_of, sha512_hex, sha512_hex_of};

verus! {

/// A digest algorithm that an index may declare for its files.
#[derive(Clone, Copy, Debug, PartialEq, Eq, Structural)]
pub enum HashFormat {
    Sha1,
    Sha256,
    Sha512,
    Murmur2,
    Md5,
}

/// The text that `get_hash` yields for `bytes` under `format`: lower-case hex
/// for the cryptographic digests, the decimal fingerprint for `Murmur2`.
pub open spec fn digest_text(format: HashFormat, bytes: Seq<u8>) -> Seq<char> {
    match format {
        HashFormat::Sha1 => sha1_hex_of(bytes),
        HashFormat::Sha256 => sha256_hex_of(bytes),
        HashFormat::Sha512 => sha512_hex_of(bytes),
        HashFormat::Murmur2 => decimal_of(cf_fingerprint_of(bytes) as nat),
        HashFormat::Md5 => md5_hex_of(bytes),
    }
}

impl HashFormat {
    /// The digest of `bytes` under this format, as text.
    pub fn get_hash(&self, bytes: &[u8]) -> (r: String)
        ensures
            r@ == digest_text(*self, bytes@),
    {
        match self {
            HashFormat::Md5 => md5_hex(bytes),
            HashFormat::Murmur2 => fingerprint_text(fingerprint(bytes)),
            HashFormat::Sha1 => sha1_hex(bytes),
            HashFormat::Sha256 => sha256_hex(bytes),
            HashFormat::Sha512 => sha512_hex(bytes),
        }
    }
}

/// The index section of a pack document.
#[derive(Debug)]
pub struct PackIndex {
    pub file: String,
    pub hash_format: HashFormat,
    pub hash: String,
}

/// The options section of a pack document.
#[derive(Debug)]
pub struct Options {
    pub parent: Option<String>,
}

/// The fields of a pack document that the merge reads.
pub struct Pack {
    pub index: PackIndex,
    pub options: Option<Options>,
}

/// The parent address that a pack declares, if any.
pub open spec fn declared_parent(pack: Pack) -> Option<String> {
    match pack.options {
        Some(o) => o.parent,
        None => None,
    }
}

impl Pack {
    /// The address of the parent pack's document, where one is declared.
    pub fn parent_url(&self) -> (r: Option<&String>)
        ensures
            r is None <==> declared_parent(*self) is None,
            r matches Some(u) ==> declared_parent(*self) == Some(*u),
    {
        match &self.options {
            Some(o) => match &o.parent {
                Some(u) => Some(u),
                None => None,
            },
            None => None,
        }
    }
}

/// One file that an index lists.
#[derive(Debug)]
pub struct IndexFile {
    pub file: String,
    pub hash: String,
    pub hash_format: Option<HashFormat>,
    pub metafile: Option<bool>,
}

impl IndexFile {
    /// A field-by-field copy.
    pub fn copied(&self) -> (r: IndexFile)
        ensures
            r == *self,
    {
        IndexFile {
            file: self.file.clone(),
            hash: self.hash.clone(),
            hash_format: self.hash_format,
            metafile: self.metafile,
        }
    }
}

/// A file index: the default digest format and the files.
pub struct Index {
    pub hash_format: HashFormat,
    pub files: Option<Vec<IndexFile>>,
}

/// The files of an index; an absent list is an empty one.
pub open spec fn files_of(index: Index) -> Seq<IndexFile> {
    match index.files {
        Some(v) => v@,
        None => Seq::empty(),
    }
}

} // verus!
