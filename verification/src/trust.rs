use vstd::prelude::*;
use toml_edit::DocumentMut;
use crate::strings::{owned, str_eq, substring};
use crate::toml_doc::{entry_str, lookup_str, toml_doc_entries, toml_set_str};

verus! {

/// The BLAKE3 hash of some bytes, in lowercase hexadecimal.
pub uninterp spec fn blake3_hex_spec(data: Seq<u8>) -> Seq<char>;

pub open spec fn is_lower_hex(c: char) -> bool {
    ('0' <= c <= '9') || ('a' <= c <= 'f')
}

/// `blake3::hash(data).to_string()`: the 32-byte hash as 64 lowercase hex digits.
#[verifier::external_body]
fn blake3_hex(data: &[u8]) -> (r: String)
    ensures
        r@ == blake3_hex_spec(data@),
        r@.len() == 64,
        forall|i: int| 0 <= i < r@.len() ==> is_lower_hex(#[trigger] r@[i]),
{
    blake3::hash(data).to_string()
}

/// The hash recorded for a project config: BLAKE3 of its bytes, in hex.
pub fn hash_hex(data: &[u8]) -> (r: String)
    ensures
        r@ == blake3_hex_spec(data@),
        r@.len() == 64,
{
    blake3_hex(data)
}

/// Why a project config is not trusted.
pub enum Distrust {
    /// The store holds a different hash for it.
    Changed,
    /// The store holds no hash for it.
    NotApproved,
}

/// The verdict on a config whose canonical path is `key` and whose bytes are
/// `data`: trusted when the store holds exactly its hash under `key`.
pub open spec fn trust_verdict(store: Map<Seq<char>, crate::toml_doc::TomlEntry>, key: Seq<char>, data: Seq<u8>) -> Result<(), Distrust> {
    match entry_str(store, key) {
        Some(h) => if h == blake3_hex_spec(data) {
            Ok(())
        } else {
            Err(Distrust::Changed)
        },
        None => Err(Distrust::NotApproved),
    }
}

/// Check a project config against the trust store.
pub fn verdict(store: &DocumentMut, key: &str, data: &[u8]) -> (r: Result<(), Distrust>)
    ensures
        r == trust_verdict(toml_doc_entries(*store), key@, data@),
{
    let hash = hash_hex(data);
    match lookup_str(store, key) {
        Some(h) => if str_eq(h.as_str(), hash.as_str()) {
            Ok(())
        } else {
            Err(Distrust::Changed)
        },
        None => Err(Distrust::NotApproved),
    }
}

/// The explanation shown for an untrusted project config.
pub open spec fn untrusted_message_spec(path: Seq<char>, reason: Seq<char>) -> Seq<char> {
    "UNTRUSTED PROJECT CONFIG: "@ + path + "\n  This file "@ + reason
        + ".\n  A sandboxed command could have edited it to grant itself extra\n  permissions on your next run. Review it, then run `nnn allow` to approve."@
}

/// The explanation shown for an untrusted project config.
pub fn untrusted_message(path: &str, reason: &str) -> (m: String)
    ensures
        m@ == untrusted_message_spec(path@, reason@),
{
    let mut m = owned("UNTRUSTED PROJECT CONFIG: ");
    m.append(path);
    m.append("\n  This file ");
    m.append(reason);
    m.append(
        ".\n  A sandboxed command could have edited it to grant itself extra\n  permissions on your next run. Review it, then run `nnn allow` to approve.",
    );
    m
}

pub open spec fn reason_of(d: Distrust) -> Seq<char> {
    match d {
        Distrust::Changed => "has changed since it was approved"@,
        Distrust::NotApproved => "has not been approved yet"@,
    }
}

/// Check an auto-discovered project config (shown as `path`, stored under `key`,
/// holding `data`) against the trust store: `Ok` only when it is the approved version.
pub fn check_project_trust(path: &str, key: &str, data: &[u8], store: &DocumentMut) -> (r: Result<(), String>)
    ensures
        r is Ok <==> trust_verdict(toml_doc_entries(*store), key@, data@) is Ok,
        r matches Err(m) ==> trust_verdict(toml_doc_entries(*store), key@, data@) matches Err(d)
            && m@ == untrusted_message_spec(path@, reason_of(d)),
{
    match verdict(store, key, data) {
        Ok(()) => Ok(()),
        Err(Distrust::Changed) => Err(untrusted_message(path, "has changed since it was approved")),
        Err(Distrust::NotApproved) => Err(untrusted_message(path, "has not been approved yet")),
    }
}

/// Approve a project config: record the hash of `data` under `key`. Returns the hash.
pub fn approve(store: &mut DocumentMut, key: &str, data: &[u8]) -> (h: String)
    ensures
        h@ == blake3_hex_spec(data@),
        h@.len() == 64,
        toml_doc_entries(*final(store)) == toml_doc_entries(*old(store)).insert(
            key@,
            crate::toml_doc::TomlEntry::Str(h@),
        ),
{
    let h = hash_hex(data);
    toml_set_str(store, key, h.as_str());
    h
}

/// The first twelve hex digits of a hash, as shown after approval.
pub fn short_hash(h: &str) -> (r: String)
    requires
        h@.len() >= 12,
    ensures
        r@ == h@.take(12),
{
    substring(h, 0, 12)
}

/// Approving a config makes the trust check pass for the same bytes.
pub proof fn lemma_approve_then_trusted(store: Map<Seq<char>, crate::toml_doc::TomlEntry>, key: Seq<char>, data: Seq<u8>)
    ensures
        trust_verdict(store.insert(key, crate::toml_doc::TomlEntry::Str(blake3_hex_spec(data))), key, data) is Ok,
{
}

/// Approving one config leaves the verdict on every other config unchanged.
pub proof fn lemma_approve_is_local(
    store: Map<Seq<char>, crate::toml_doc::TomlEntry>,
    key: Seq<char>,
    h: Seq<char>,
    other: Seq<char>,
    data: Seq<u8>,
)
    requires
        other != key,
    ensures
        trust_verdict(store.insert(key, crate::toml_doc::TomlEntry::Str(h)), other, data) == trust_verdict(store, other, data),
{
}

/// A trusted config is one whose hash is exactly the recorded one: bytes whose
/// hash differs from the recorded hash are refused.
pub proof fn lemma_trusted_means_recorded(store: Map<Seq<char>, crate::toml_doc::TomlEntry>, key: Seq<char>, data: Seq<u8>)
    ensures
        trust_verdict(store, key, data) is Ok <==> entry_str(store, key) == Some(blake3_hex_spec(data)),
{
}

} // verus!
