//! Schema identifiers: absolute URLs, held as text.
//!
//! Parsing and resolving URLs is the work of the `url` crate. This module
//! names what that crate computes and builds the canonical form of an
//! identifier on it: the URL without its fragment, and the fragment where
//! there is one that is not empty.

use vstd::prelude::*;
use vstd::string::*;

verus! {

/// What [`url::Url::parse`] makes of `input`: the serialization of the URL
/// that it parses to, or `None` where it refuses the input.
pub uninterp spec fn url_parsed(input: Seq<char>) -> Option<Seq<char>>;

/// What [`url::ParseOptions::parse`] makes of `reference` with the URL that
/// `base` parses to as its base: the serialization of the resolved URL, or
/// `None` where either text is refused.
pub uninterp spec fn url_resolved(base: Seq<char>, reference: Seq<char>) -> Option<Seq<char>>;

/// What [`url::Url::fragment`] returns for the URL that `url` parses to: the
/// text after its `#`; `None` where it has no fragment or `url` is refused.
pub uninterp spec fn url_fragment(url: Seq<char>) -> Option<Seq<char>>;

/// The serialization of the URL that `url` parses to once
/// [`url::Url::set_fragment`] has taken its fragment away, or `None` where
/// `url` is refused.
pub uninterp spec fn url_without_fragment(url: Seq<char>) -> Option<Seq<char>>;

/// Calls [`url::Url::parse`] on `input` and hands back the serialization of
/// the URL. Trusted: the result is what [`url_parsed`] names.
#[verifier::external_body]
pub(crate) fn parse_url(input: &str) -> (r: Option<String>)
    ensures
        r matches Some(text) ==> url_parsed(input@) == Some(text@),
        r is None ==> url_parsed(input@) is None,
{
    match url::Url::parse(input) {
        Ok(parsed) => Some(String::from(parsed)),
        Err(_) => None,
    }
}

/// Parses `base` with [`url::Url::parse`], then calls
/// [`url::ParseOptions::parse`] on `reference` with that base, and hands
/// back the serialization of the URL. Trusted: the result is what
/// [`url_resolved`] names.
#[verifier::external_body]
pub(crate) fn resolve_url(base: &str, reference: &str) -> (r: Option<String>)
    ensures
        r matches Some(text) ==> url_resolved(base@, reference@) == Some(text@),
        r is None ==> url_resolved(base@, reference@) is None,
{
    match url::Url::parse(base) {
        Ok(parsed) => match url::Url::options().base_url(Some(&parsed)).parse(reference) {
            Ok(resolved) => Some(String::from(resolved)),
            Err(_) => None,
        },
        Err(_) => None,
    }
}

/// Parses `url` with [`url::Url::parse`] and calls [`url::Url::fragment`] on
/// it. Trusted: the result is what [`url_fragment`] names.
#[verifier::external_body]
pub(crate) fn fragment_of_url(url: &str) -> (r: Option<String>)
    ensures
        r matches Some(text) ==> url_fragment(url@) == Some(text@),
        r is None ==> url_fragment(url@) is None,
{
    match url::Url::parse(url) {
        Ok(parsed) => match parsed.fragment() {
            Some(fragment) => Some(String::from(fragment)),
            None => None,
        },
        Err(_) => None,
    }
}

/// Parses `url` with [`url::Url::parse`], calls [`url::Url::set_fragment`]
/// with `None` on it, and hands back the serialization of what is left.
/// Trusted: the result is what [`url_without_fragment`] names.
#[verifier::external_body]
pub(crate) fn strip_fragment_of_url(url: &str) -> (r: Option<String>)
    ensures
        r matches Some(text) ==> url_without_fragment(url@) == Some(text@),
        r is None ==> url_without_fragment(url@) is None,
{
    match url::Url::parse(url) {
        Ok(mut parsed) => {
            parsed.set_fragment(None);
            Some(String::from(parsed))
        },
        Err(_) => None,
    }
}

/// The canonical form of an identifier, from the two things that the URL
/// parser says of it: the URL without its fragment, and its fragment. The
/// fragment is kept only where it is not empty. There is no canonical form
/// where the parser refused the identifier.
pub open spec fn canonical_of(stripped: Option<Seq<char>>, fragment: Option<Seq<char>>) -> Option<
    (Seq<char>, Option<Seq<char>>),
> {
    match stripped {
        None => None,
        Some(path) => Some(
            (
                path,
                match fragment {
                    Some(f) => if f.len() > 0 {
                        Some(f)
                    } else {
                        None
                    },
                    None => None,
                },
            ),
        ),
    }
}

/// The canonical form of the identifier `url`.
pub open spec fn canonical(url: Seq<char>) -> Option<(Seq<char>, Option<Seq<char>>)> {
    canonical_of(url_without_fragment(url), url_fragment(url))
}

/// The view of a canonical form.
pub open spec fn canonical_view(parts: Option<(String, Option<String>)>) -> Option<
    (Seq<char>, Option<Seq<char>>),
> {
    match parts {
        None => None,
        Some((path, fragment)) => Some(
            (
                path@,
                match fragment {
                    Some(f) => Some(f@),
                    None => None,
                },
            ),
        ),
    }
}

/// The view of a text that may be missing.
pub open spec fn text_view(text: Option<String>) -> Option<Seq<char>> {
    match text {
        Some(t) => Some(t@),
        None => None,
    }
}

/// Builds the canonical form of an identifier from what the URL parser said
/// of it.
pub fn canonical_from(stripped: Option<String>, fragment: Option<String>) -> (r: Option<
    (String, Option<String>),
>)
    ensures
        canonical_view(r) == canonical_of(text_view(stripped), text_view(fragment)),
{
    match stripped {
        None => None,
        Some(path) => {
            let kept = match fragment {
                Some(f) => {
                    if !f.as_str().is_empty() {
                        Some(f)
                    } else {
                        None
                    }
                },
                None => None,
            };
            Some((path, kept))
        },
    }
}

/// The canonical form of the identifier `url`: the text of the URL without
/// its fragment, and the fragment where it has one that is not empty. `None`
/// where `url` is not an absolute URL.
pub fn serialize_schema_path(url: &str) -> (r: Option<(String, Option<String>)>)
    ensures
        canonical_view(r) == canonical(url@),
{
    let stripped = strip_fragment_of_url(url);
    let fragment = fragment_of_url(url);
    canonical_from(stripped, fragment)
}

} // verus!
