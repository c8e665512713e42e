//! Cleaning one URL: tracking parameters dropped, known hosts moved to their
//! mirrors, plain HTTP upgraded.
use vstd::prelude::*;
use crate::rules::{
    allowed_key, insecure, is_insecure_scheme, kept, kept_pairs, lemma_all_allowed_kept,
    replacement, replacement_host,
};
use crate::url_ops::{
    form_encode, form_encoded, host_of, host_str, parse_url, parsed_url, query_pairs,
    query_pairs_of, scheme, scheme_of, set_host, set_query, set_scheme, with_host, with_query,
    with_scheme,
};

verus! {

/// What `str::to_lowercase` returns for `s`.
pub uninterp spec fn lower_of(s: Seq<char>) -> Seq<char>;

/// Relies on `str::to_lowercase`: the result depends on the characters alone.
#[verifier::external_body]
fn to_lowercase(s: &str) -> (r: String)
    ensures
        r@ == lower_of(s@),
{
    s.to_lowercase()
}

/// An optional string, seen as an optional character sequence.
pub open spec fn opt_view(o: Option<String>) -> Option<Seq<char>> {
    match o {
        Some(s) => Some(s@),
        None => None,
    }
}

/// The query that replaces the old one: none where no pair is kept.
pub open spec fn query_for(pairs: Seq<(Seq<char>, Seq<char>)>) -> Option<Seq<char>> {
    if pairs.len() == 0 {
        None
    } else {
        Some(form_encoded(pairs))
    }
}

/// The URL `u` with only the allowed pairs left in its query.
pub open spec fn cleaned_query(u: Seq<char>) -> Seq<char> {
    with_query(u, query_for(kept(query_pairs_of(u))))
}

/// Why a text has no cleaned form.
#[derive(Clone, Copy, Debug, PartialEq, Eq, Structural)]
pub enum CleanError {
    /// The text does not parse as a URL.
    NotAUrl,
    /// The URL has no host, as with `mailto:` links.
    NoHost,
    /// The URL crate refused to put in the mirror host or the secure scheme.
    Refused,
}

/// The URL `u` with a known host replaced by its mirror.
pub open spec fn rehosted(u: Seq<char>) -> Result<Seq<char>, CleanError> {
    match host_of(u) {
        None => Err(CleanError::NoHost),
        Some(h) => match replacement(lower_of(h)) {
            None => Ok(u),
            Some(m) => match with_host(u, m) {
                Some(v) => Ok(v),
                None => Err(CleanError::Refused),
            },
        },
    }
}

/// The URL `u` with plain HTTP upgraded to HTTPS.
pub open spec fn upgraded(u: Seq<char>) -> Result<Seq<char>, CleanError> {
    if insecure(scheme_of(u)) {
        match with_scheme(u, "https"@) {
            Some(v) => Ok(v),
            None => Err(CleanError::Refused),
        }
    } else {
        Ok(u)
    }
}

/// The cleaned form of the text `s`, or why it has none.
pub open spec fn cleaned(s: Seq<char>) -> Result<Seq<char>, CleanError> {
    match parsed_url(s) {
        None => Err(CleanError::NotAUrl),
        Some(u) => match rehosted(cleaned_query(u)) {
            Err(e) => Err(e),
            Ok(v) => upgraded(v),
        },
    }
}

/// The cleaned form of the text `s`, if it has one.
pub open spec fn sanitized(s: Seq<char>) -> Option<Seq<char>> {
    match cleaned(s) {
        Ok(t) => Some(t),
        Err(_) => None,
    }
}

/// A result of cleaning, with its text seen as a character sequence.
pub open spec fn result_view(r: Result<String, CleanError>) -> Result<Seq<char>, CleanError> {
    match r {
        Ok(s) => Ok(s@),
        Err(e) => Err(e),
    }
}

/// Where every query pair of the parsed URL is allowed, the host of the URL
/// with those pairs written back has no mirror, and its scheme is not plain
/// HTTP, cleaning does nothing beyond writing the pairs back as the query.
pub proof fn lemma_nothing_to_clean(s: Seq<char>, u: Seq<char>, host: Seq<char>)
    requires
        parsed_url(s) == Some(u),
        forall|i: int|
            0 <= i < query_pairs_of(u).len() ==> allowed_key(#[trigger] query_pairs_of(u)[i].0),
        host_of(with_query(u, query_for(query_pairs_of(u)))) == Some(host),
        replacement(lower_of(host)) is None,
        !insecure(scheme_of(with_query(u, query_for(query_pairs_of(u))))),
    ensures
        sanitized(s) == Some(with_query(u, query_for(query_pairs_of(u)))),
{
    lemma_all_allowed_kept(query_pairs_of(u));
}

/// Cleans one URL: drops every query pair but the allowed ones, moves a known
/// host to its mirror and upgrades HTTP to HTTPS, in that order.
pub fn clean_link(original_link: &str) -> (r: Result<String, CleanError>)
    ensures
        result_view(r) == cleaned(original_link@),
{
    let url = match parse_url(original_link) {
        Some(u) => u,
        None => return Err(CleanError::NotAUrl),
    };
    let pairs = query_pairs(url.as_str());
    let allowed = kept_pairs(&pairs);
    let url = if allowed.len() == 0 {
        set_query(url.as_str(), None)
    } else {
        let query = form_encode(&allowed);
        set_query(url.as_str(), Some(query.as_str()))
    };
    let host = match host_str(url.as_str()) {
        Some(h) => h,
        None => return Err(CleanError::NoHost),
    };
    let lowered = to_lowercase(host.as_str());
    let url = match replacement_host(lowered.as_str()) {
        Some(mirror) => match set_host(url.as_str(), mirror.as_str()) {
            Some(u) => u,
            None => return Err(CleanError::Refused),
        },
        None => url,
    };
    let current = scheme(url.as_str());
    if is_insecure_scheme(current.as_str()) {
        match set_scheme(url.as_str(), "https") {
            Some(u) => Ok(u),
            None => Err(CleanError::Refused),
        }
    } else {
        Ok(url)
    }
}

/// The cleaned form of a URL, or `None` where it has none: the text is not a
/// URL, the URL has no host, or the URL crate refused a change.
pub fn sanitize_link(original_link: &str) -> (r: Option<String>)
    ensures
        opt_view(r) == sanitized(original_link@),
{
    match clean_link(original_link) {
        Ok(u) => Some(u),
        Err(_) => None,
    }
}

} // verus!
