//! Versioned prompt assets for attribution and evals.
use vstd::prelude::*;
use vstd::string::*;
#[allow(unused_imports)]
use vstd::utf8::*;

use crate::digest::digest_hex;
#[allow(unused_imports)]
use crate::digest::{is_hex, sha256_hex};
use crate::text::{same, to_unix_lines};
#[allow(unused_imports)]
use crate::text::unix_lines;

verus! {

/// A stable, versioned system prompt.
#[derive(Debug, Clone, PartialEq, Eq)]
pub struct PromptAsset {
    /// Stable name without digest (e.g. `harness-v1`).
    pub id: String,
    /// Prompt body text (LF-normalized for digests).
    pub body: String,
}

/// The digest of a body, whatever its line ends are.
pub open spec fn body_digest_of(body: Seq<char>) -> Seq<char> {
    sha256_hex(encode_utf8(unix_lines(body)))
}

/// The versioned id of an asset.
pub open spec fn versioned_id_of(asset: PromptAsset) -> Seq<char> {
    asset.id@ + ":"@ + body_digest_of(asset.body@)
}

/// Normalize newlines, then the SHA-256 hex digest of the body: 64 digits.
pub fn body_digest(body: &str) -> (s: String)
    ensures
        s@ == body_digest_of(body@),
        s@.len() == 64,
        forall|i: int| 0 <= i < 64 ==> is_hex(#[trigger] s@[i]),
{
    let normalized = to_unix_lines(body);
    digest_hex(normalized.as_str().as_bytes())
}

/// Versioned id: `{id}:{sha256hex}`.
pub fn versioned_id(asset: &PromptAsset) -> (s: String)
    ensures
        s@ == versioned_id_of(*asset),
        body_digest_of(asset.body@).len() == 64,
{
    let digest = body_digest(asset.body.as_str());
    let mut s = asset.id.clone();
    s.append(":");
    s.append(digest.as_str());
    s
}

/// Validate that a stored prompt id matches an asset (full versioned form).
pub fn matches_asset(stored_id: &str, asset: &PromptAsset) -> (r: bool)
    ensures
        r == (stored_id@ == versioned_id_of(*asset)),
{
    let id = versioned_id(asset);
    same(stored_id, id.as_str())
}

/// Two assets with one versioned id have one id and one body digest. Body digests are
/// of one length.
pub proof fn versioned_ids_separate(a: PromptAsset, b: PromptAsset)
    requires
        versioned_id_of(a) == versioned_id_of(b),
        body_digest_of(a.body@).len() == 64,
        body_digest_of(b.body@).len() == 64,
    ensures
        a.id@ == b.id@,
        body_digest_of(a.body@) == body_digest_of(b.body@),
{
    let n = a.id@.len() as int;
    assert(versioned_id_of(a).len() == a.id@.len() + ":"@.len() + 64);
    assert(versioned_id_of(b).len() == b.id@.len() + ":"@.len() + 64);
    assert(versioned_id_of(a).take(n) =~= a.id@);
    assert(versioned_id_of(b).take(n) =~= b.id@);
    let m = n + ":"@.len();
    assert(versioned_id_of(a).skip(m) =~= body_digest_of(a.body@));
    assert(versioned_id_of(b).skip(m) =~= body_digest_of(b.body@));
}

/// The line ends of a prompt do not enter its id, its name and its text do.
pub proof fn line_ends_do_not_enter_the_id(a: PromptAsset, b: PromptAsset)
    requires
        a.id@ == b.id@,
        unix_lines(a.body@) == unix_lines(b.body@),
    ensures
        versioned_id_of(a) == versioned_id_of(b),
        versioned_id_of(a) == a.id@ + ":"@ + sha256_hex(encode_utf8(unix_lines(b.body@))),
{
}

} // verus!
