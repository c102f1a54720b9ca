//! URLs as the patch server understands them.
//!
//! The library keeps a URL as its text. Resolving a reference against a
//! base is left to the `url` crate that `reqwest` hands on.

use vstd::prelude::*;

verus! {

/// What `Url::parse` makes of `text`: the URL in its normal form, or why
/// there is none.
pub uninterp spec fn url_parsed(text: Seq<char>) -> Result<Seq<char>, Seq<char>>;

/// What `Url::join` makes of `reference` on the URL that `base` spells: the
/// resolved URL in its normal form, or why there is none.
pub uninterp spec fn url_joined(base: Seq<char>, reference: Seq<char>) -> Result<
    Seq<char>,
    Seq<char>,
>;

/// Whether `outcome` is what `expected` says, text for text.
pub open spec fn spells(outcome: Result<String, String>, expected: Result<Seq<char>, Seq<char>>)
    -> bool {
    match outcome {
        Ok(url) => expected == Ok::<Seq<char>, Seq<char>>(url@),
        Err(why) => expected == Err::<Seq<char>, Seq<char>>(why@),
    }
}

/// The absolute URL that `text` spells, in its normal form.
///
/// Not verified: the body calls `reqwest::Url::parse`. The contract names
/// the outcome and claims nothing of it but that it depends on `text` alone.
/// An error comes back as the text that the crate displays for it.
#[verifier::external_body]
pub(crate) fn parse_url(text: &str) -> (parsed: Result<String, String>)
    ensures
        spells(parsed, url_parsed(text@)),
{
    match reqwest::Url::parse(text) {
        Ok(url) => Ok(String::from(url)),
        Err(why) => Err(why.to_string()),
    }
}

/// The URL that `reference` names when it is resolved against `base`.
///
/// Not verified: the body calls `reqwest::Url::join` on the URL parsed from
/// `base`. The contract names the outcome and claims nothing of it but that
/// it depends on the two texts alone. An error comes back as the text that
/// the crate displays for it.
#[verifier::external_body]
pub(crate) fn join_url(base: &str, reference: &str) -> (joined: Result<String, String>)
    ensures
        spells(joined, url_joined(base@, reference@)),
{
    match reqwest::Url::parse(base) {
        Ok(base) => match base.join(reference) {
            Ok(url) => Ok(String::from(url)),
            Err(why) => Err(why.to_string()),
        },
        Err(why) => Err(why.to_string()),
    }
}

/// The URL that `reference` names below `base`, where `base` is a URL and
/// the two resolve.
pub open spec fn resolved(base: Option<Seq<char>>, reference: Seq<char>) -> Option<Seq<char>> {
    match base {
        Some(base) => match url_joined(base, reference) {
            Ok(url) => Some(url),
            Err(_) => None,
        },
        None => None,
    }
}

/// The text of a URL that may be missing.
pub open spec fn text_of(url: Option<String>) -> Option<Seq<char>> {
    match url {
        Some(url) => Some(url@),
        None => None,
    }
}

/// Resolves `reference` against `base`. There is no URL where `base` is
/// missing or the two do not resolve.
pub fn resolve(base: &Option<String>, reference: &str) -> (url: Option<String>)
    ensures
        text_of(url) == resolved(text_of(*base), reference@),
{
    match base {
        Some(base) => match join_url(base.as_str(), reference) {
            Ok(url) => Some(url),
            Err(_) => None,
        },
        None => None,
    }
}

} // verus!
