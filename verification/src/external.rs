//! Trusted wrappers around the outside crates that the library leans on:
//! the wall clock, fresh identifiers, content digests, string prefix tests
//! and URL host extraction.

use vstd::prelude::*;

verus! {

/// The hex digest that `md5::compute` assigns to a byte string: a function
/// of the bytes alone.
pub uninterp spec fn md5_hex_of(bytes: Seq<u8>) -> Seq<char>;

/// Relies on md5::compute and its LowerHex rendering: 32 hex digits,
/// determined by the input bytes alone.
#[verifier::external_body]
pub(crate) fn md5_hex(bytes: &Vec<u8>) -> (r: String)
    ensures
        r@ == md5_hex_of(bytes@),
        r@.len() == 32,
{
    format!("{:x}", md5::compute(bytes))
}

/// Relies on chrono::Utc::now; nothing is promised beyond the range that
/// `timestamp` can yield for dates the library cares about.
#[verifier::external_body]
pub(crate) fn now_unix_seconds() -> (r: i64)
    ensures
        r >= 0,
{
    let t = chrono::Utc::now().timestamp();
    if t >= 0 {
        t
    } else {
        0
    }
}

/// Relies on uuid::Uuid::new_v4 and its Display rendering; the result is
/// random, so only its shape is stated.
#[verifier::external_body]
pub(crate) fn fresh_instance_id() -> (r: String)
    ensures
        r@.len() == 36,
{
    uuid::Uuid::new_v4().to_string()
}

/// Relies on str::starts_with: true exactly when the pattern's characters
/// are a prefix of the string's.
#[verifier::external_body]
pub(crate) fn str_starts_with(s: &str, prefix: &str) -> (r: bool)
    ensures
        r == (prefix@.len() <= s@.len() && s@.subrange(0, prefix@.len() as int) =~= prefix@),
{
    s.starts_with(prefix)
}

/// The host that URL parsing assigns to a string, if any: a function of the
/// string alone.
pub uninterp spec fn host_of(url: Seq<char>) -> Option<Seq<char>>;

/// Relies on reqwest::Url::parse (the url crate) and Url::host_str: the
/// host component is determined by the URL string alone.
#[verifier::external_body]
pub(crate) fn url_host(url: &str) -> (r: Option<String>)
    ensures
        match r {
            Some(h) => host_of(url@) == Some(h@),
            None => host_of(url@) is None,
        },
{
    match reqwest::Url::parse(url) {
        Ok(u) => u.host_str().map(|h| h.to_string()),
        Err(_) => None,
    }
}

} // verus!
