//! Content fingerprints and what they say about an announcement.

use vstd::prelude::*;
use vstd::string::*;
use vstd::utf8::*;

verus! {

/// The SHA-256 digest of a byte sequence.
pub uninterp spec fn sha256(data: Seq<u8>) -> Seq<u8>;

/// A byte sequence read as UTF-8, each malformed part of it replaced by
/// U+FFFD.
pub uninterp spec fn utf8_lossy(bytes: Seq<u8>) -> Seq<char>;

/// The longest input, in bytes, whose length in bits still fits the counter
/// of the digest.
pub const DIGEST_INPUT_LIMIT: u64 = 0x1fff_ffff_ffff_ffff;

/// Calls `ring::digest::digest` with `ring::digest::SHA256`. Trusted: the
/// result is the named digest, 32 bytes long. The crate panics on an input
/// whose bit length overflows 64 bits, which the precondition leaves out.
#[verifier::external_body]
pub(crate) fn sha256_digest(data: &[u8]) -> (out: Vec<u8>)
    requires
        data@.len() <= DIGEST_INPUT_LIMIT,
    ensures
        out@ == sha256(data@),
        out@.len() == 32,
{
    ring::digest::digest(&ring::digest::SHA256, data).as_ref().to_vec()
}

/// Calls `String::from_utf8_lossy`. Trusted: the result is the named lossy
/// reading of the bytes.
#[verifier::external_body]
pub(crate) fn lossy_text(bytes: &[u8]) -> (out: String)
    ensures
        out@ == utf8_lossy(bytes@),
{
    String::from_utf8_lossy(bytes).into_owned()
}

/// Whether a content is short enough to be digested.
pub open spec fn digestible(content: Seq<char>) -> bool {
    encode_utf8(content).len() <= DIGEST_INPUT_LIMIT
}

/// The fingerprint of a content: the SHA-256 digest of its bytes, read as
/// text.
pub open spec fn fingerprint_of(content: Seq<char>) -> Seq<char> {
    utf8_lossy(sha256(encode_utf8(content)))
}

/// Computes the fingerprint of a content; `None` where the content is too
/// long to be digested.
pub fn fingerprint(content: &str) -> (out: Option<String>)
    ensures
        out is Some == digestible(content@),
        out is Some ==> out->0@ == fingerprint_of(content@),
{
    let bytes = content.as_bytes();
    if bytes.len() as u64 > DIGEST_INPUT_LIMIT {
        return None;
    }
    let digest = sha256_digest(bytes);
    Some(lossy_text(digest.as_slice()))
}

/// How an announcement compares with what was last dispatched under its id.
#[derive(Clone, Copy, Debug, PartialEq, Eq, Structural)]
pub enum ChangeKind {
    New,
    Changed,
    Unchanged,
}

/// The kind of change that a fingerprint shows against the stored one: new
/// where nothing is stored, changed where the two differ, else unchanged.
pub open spec fn change_kind(stored: Option<Seq<char>>, fingerprint: Seq<char>) -> ChangeKind {
    match stored {
        None => ChangeKind::New,
        Some(s) => if s == fingerprint {
            ChangeKind::Unchanged
        } else {
            ChangeKind::Changed
        },
    }
}

/// Text of an optional string.
pub open spec fn option_text(s: Option<String>) -> Option<Seq<char>> {
    match s {
        Some(t) => Some(t@),
        None => None,
    }
}

/// Classifies an announcement by its fingerprint and the stored one.
pub fn classify(stored: &Option<String>, fingerprint: &String) -> (out: ChangeKind)
    ensures
        out == change_kind(option_text(*stored), fingerprint@),
{
    match stored {
        None => ChangeKind::New,
        Some(s) => if *s == *fingerprint {
            ChangeKind::Unchanged
        } else {
            ChangeKind::Changed
        },
    }
}

impl ChangeKind {
    /// Whether an announcement of this kind is written to the store and
    /// dispatched.
    pub open spec fn is_fresh(self) -> bool {
        self != ChangeKind::Unchanged
    }

    /// Decides `is_fresh`.
    pub fn fresh(&self) -> (out: bool)
        ensures
            out == self.is_fresh(),
    {
        match self {
            ChangeKind::Unchanged => false,
            _ => true,
        }
    }
}

} // verus!
