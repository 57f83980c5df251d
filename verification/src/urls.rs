//! The library's only view of URL parsing: two trusted calls into the
//! `url` crate (the parser reqwest re-exports as `reqwest::Url`), each a
//! pure function of its string arguments.

use vstd::prelude::*;

verus! {

/// Whether `url::Url::parse` accepts the string as an absolute URL.
pub uninterp spec fn url_well_formed(s: Seq<char>) -> bool;

/// The raw query component that `url::Url::query` reads from the parsed
/// URL, `None` when the URL has none; a function of the string alone.
pub uninterp spec fn url_query(s: Seq<char>) -> Option<Seq<char>>;

/// The URL that `url::Url::join` resolves `path` to against `base`,
/// written back out as a string; `None` when `base` does not parse or
/// the join fails. A function of the two strings alone.
pub uninterp spec fn url_joined(base: Seq<char>, path: Seq<char>) -> Option<Seq<char>>;

/// Relies on `url::Url::parse` to decide whether the locator is a
/// well-formed absolute URL, and on `url::Url::query` to read its raw
/// query component; both are deterministic in the string alone.
#[verifier::external_body]
pub(crate) fn locator_query(locator: &str) -> (r: Option<Option<String>>)
    ensures
        r is Some <==> url_well_formed(locator@),
        match r {
            Some(Some(q)) => url_query(locator@) matches Some(t) && q@ == t,
            Some(None) => url_query(locator@) is None,
            None => true,
        },
{
    match url::Url::parse(locator) {
        Ok(u) => Some(u.query().map(|q| q.to_string())),
        Err(_) => None,
    }
}

/// Relies on `url::Url::parse` and `url::Url::join`: resolving `path`
/// against `base` and serializing the result are deterministic in the
/// two strings alone.
#[verifier::external_body]
pub(crate) fn join_url(base: &str, path: &str) -> (r: Option<String>)
    ensures
        r is Some <==> url_joined(base@, path@) is Some,
        r matches Some(s) ==> url_joined(base@, path@) matches Some(t) && s@ == t,
{
    match url::Url::parse(base) {
        Ok(u) => match u.join(path) {
            Ok(j) => Some(String::from(j)),
            Err(_) => None,
        },
        Err(_) => None,
    }
}

} // verus!
