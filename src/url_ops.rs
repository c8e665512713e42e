//! The calls into the `url` crate. A URL travels through the library as its
//! serialization, which the crate keeps canonical: parsing a serialization
//! gives back a URL with the same serialization.
use vstd::prelude::*;

verus! {

/// The serialization of the URL that `url::Url::parse` reads from `s`, if it
/// reads one.
pub uninterp spec fn parsed_url(s: Seq<char>) -> Option<Seq<char>>;

/// The name-value pairs that `url::Url::query_pairs` decodes from the query
/// of the URL serialized as `u`, in order.
pub uninterp spec fn query_pairs_of(u: Seq<char>) -> Seq<(Seq<char>, Seq<char>)>;

/// The `application/x-www-form-urlencoded` text that `form_urlencoded`
/// writes for `pairs`.
pub uninterp spec fn form_encoded(pairs: Seq<(Seq<char>, Seq<char>)>) -> Seq<char>;

/// The serialization after `url::Url::set_query(q)` on the URL serialized as `u`.
pub uninterp spec fn with_query(u: Seq<char>, q: Option<Seq<char>>) -> Seq<char>;

/// What `url::Url::host_str` returns for the URL serialized as `u`.
pub uninterp spec fn host_of(u: Seq<char>) -> Option<Seq<char>>;

/// The serialization after `url::Url::set_host(Some(h))` on the URL serialized
/// as `u`, or `None` where the crate refuses the host.
pub uninterp spec fn with_host(u: Seq<char>, h: Seq<char>) -> Option<Seq<char>>;

/// What `url::Url::scheme` returns for the URL serialized as `u`.
pub uninterp spec fn scheme_of(u: Seq<char>) -> Seq<char>;

/// The serialization after `url::Url::set_scheme(s)` on the URL serialized as
/// `u`, or `None` where the crate refuses the change.
pub uninterp spec fn with_scheme(u: Seq<char>, s: Seq<char>) -> Option<Seq<char>>;

/// `u` is the serialization of a URL.
pub open spec fn is_serialized(u: Seq<char>) -> bool {
    parsed_url(u) == Some(u)
}

/// Name-value pairs of strings, seen as pairs of character sequences.
pub open spec fn pairs_view(v: Seq<(String, String)>) -> Seq<(Seq<char>, Seq<char>)> {
    v.map_values(|p: (String, String)| (p.0@, p.1@))
}

/// Relies on `url::Url::parse`, and on the crate's invariant that a URL's
/// serialization parses back to the same serialization.
#[verifier::external_body]
pub(crate) fn parse_url(s: &str) -> (r: Option<String>)
    ensures
        match r {
            Some(u) => parsed_url(s@) == Some(u@) && is_serialized(u@),
            None => parsed_url(s@) is None,
        },
{
    url::Url::parse(s).ok().map(String::from)
}

/// Relies on `url::Url::query_pairs`: the decoded pairs of the query.
#[verifier::external_body]
pub(crate) fn query_pairs(u: &str) -> (r: Vec<(String, String)>)
    requires
        is_serialized(u@),
    ensures
        pairs_view(r@) == query_pairs_of(u@),
{
    let url = url::Url::parse(u).unwrap();
    url.query_pairs().into_owned().collect()
}

/// Relies on `form_urlencoded::Serializer`: the pairs written as one query,
/// percent-encoded.
#[verifier::external_body]
pub(crate) fn form_encode(pairs: &Vec<(String, String)>) -> (r: String)
    ensures
        r@ == form_encoded(pairs_view(pairs@)),
{
    url::form_urlencoded::Serializer::new(String::new()).extend_pairs(pairs.iter()).finish()
}

/// Relies on `url::Url::set_query`, which always succeeds.
#[verifier::external_body]
pub(crate) fn set_query(u: &str, q: Option<&str>) -> (r: String)
    requires
        is_serialized(u@),
    ensures
        r@ == with_query(
            u@,
            match q {
                Some(t) => Some(t@),
                None => None,
            },
        ),
        is_serialized(r@),
{
    let mut url = url::Url::parse(u).unwrap();
    url.set_query(q);
    String::from(url)
}

/// Relies on `url::Url::host_str`: the host as serialized, if the URL has one.
#[verifier::external_body]
pub(crate) fn host_str(u: &str) -> (r: Option<String>)
    requires
        is_serialized(u@),
    ensures
        match r {
            Some(h) => host_of(u@) == Some(h@),
            None => host_of(u@) is None,
        },
{
    let url = url::Url::parse(u).unwrap();
    url.host_str().map(String::from)
}

/// Relies on `url::Url::set_host`, which fails on a URL that cannot be a base
/// and on a host that does not parse.
#[verifier::external_body]
pub(crate) fn set_host(u: &str, h: &str) -> (r: Option<String>)
    requires
        is_serialized(u@),
    ensures
        match r {
            Some(v) => with_host(u@, h@) == Some(v@) && is_serialized(v@),
            None => with_host(u@, h@) is None,
        },
{
    let mut url = url::Url::parse(u).unwrap();
    url.set_host(Some(h)).ok()?;
    Some(String::from(url))
}

/// Relies on `url::Url::scheme`: the scheme, without the colon.
#[verifier::external_body]
pub(crate) fn scheme(u: &str) -> (r: String)
    requires
        is_serialized(u@),
    ensures
        r@ == scheme_of(u@),
{
    let url = url::Url::parse(u).unwrap();
    String::from(url.scheme())
}

/// Relies on `url::Url::set_scheme`, which refuses to move between special and
/// other schemes, among other cases.
#[verifier::external_body]
pub(crate) fn set_scheme(u: &str, s: &str) -> (r: Option<String>)
    requires
        is_serialized(u@),
    ensures
        match r {
            Some(v) => with_scheme(u@, s@) == Some(v@) && is_serialized(v@),
            None => with_scheme(u@, s@) is None,
        },
{
    let mut url = url::Url::parse(u).unwrap();
    url.set_scheme(s).ok()?;
    Some(String::from(url))
}

} // verus!
