//! The parts of a distribution URL that the cache-key hash reads, and the
//! URI-hash composition over them.
use vstd::prelude::*;

verus! {

use vstd::wrapping::i32_specs;
use crate::java_hash::{combined_hash, hash, hash_ignoring_case, lower_hash};
use crate::text::str_eq;

/// A parsed URL, reduced to the plain values the launcher's logic reads.
pub struct UriParts {
    /// The scheme, without the trailing `:`.
    pub scheme: String,
    /// The host, if the URL has an authority.
    pub host: Option<String>,
    /// The explicit port, if one is given.
    pub port: Option<u16>,
    /// The path component.
    pub path: String,
    /// The query, without the leading `?`.
    pub query: Option<String>,
    /// The fragment, without the leading `#`.
    pub fragment: Option<String>,
    /// The whole URL in its serialized form.
    pub full: String,
}

/// The inputs on which the runtime treats the scheme-specific part as opaque.
pub open spec fn is_opaque_scheme(s: Seq<char>) -> bool {
    s == "mailto"@ || s == "news"@ || s == "urn"@
}

/// The URI hash of a hierarchical URL with an authority: the case-insensitive
/// scheme hash, then fragment, path and query folded in with the component
/// combinator, then the case-insensitive host hash, plus `port * 1949`
/// (`-1` for an unspecified port), all wrapping.
pub open spec fn uri_hash_spec(u: UriParts) -> i32 {
    let h1 = lower_hash(0i32, u.scheme@);
    let h2 = match u.fragment {
        Option::None => h1,
        Option::Some(f) => combined_hash(h1, f@),
    };
    let h3 = combined_hash(h2, u.path@);
    let h4 = match u.query {
        Option::None => h3,
        Option::Some(q) => combined_hash(h3, q@),
    };
    let h5 = match u.host {
        Option::None => h4,
        Option::Some(hst) => lower_hash(h4, hst@),
    };
    let pi: i32 = match u.port {
        Option::None => -1i32,
        Option::Some(p) => p as i32,
    };
    i32_specs::wrapping_add(h5, i32_specs::wrapping_mul(pi, 1949))
}

/// The URLs whose hash the launcher defines: a non-opaque scheme and a host.
pub open spec fn uri_hash_supported(u: UriParts) -> bool {
    !is_opaque_scheme(u.scheme@) && u.host is Some
}

/// The inputs on which the URI hash is left unsupported.
#[derive(Debug, PartialEq, Eq, Structural)]
pub enum UriHashError {
    /// The scheme makes the URL opaque (`mailto`, `news`, `urn`).
    OpaqueScheme,
    /// The URL has no host to fold into the hash.
    NoAuthority,
}

/// Relies on `url::Url::parse` for URL syntax and on the accessors `scheme`,
/// `host`, `port`, `path`, `query`, `fragment` and `as_str` to take the
/// parsed URL apart; `scheme` is documented to return a non-empty string
/// without the `:` delimiter.
#[verifier::external_body]
pub fn parse_url(s: &str) -> (r: Option<UriParts>)
    ensures
        r matches Some(u) ==> u.scheme@.len() > 0,
{
    match url::Url::parse(s) {
        Err(_) => None,
        Ok(u) => Some(
            UriParts {
                scheme: u.scheme().to_string(),
                host: u.host().map(|h| h.to_string()),
                port: u.port(),
                path: u.path().to_string(),
                query: u.query().map(|q| q.to_string()),
                fragment: u.fragment().map(|f| f.to_string()),
                full: u.as_str().to_string(),
            },
        ),
    }
}

/// The cache-key hash of a URL, reproducing the managed runtime's URI hash
/// bit for bit on every supported input.
pub fn java_uri_hash(u: &UriParts) -> (r: Result<i32, UriHashError>)
    ensures
        uri_hash_supported(*u) ==> r == Ok::<i32, UriHashError>(uri_hash_spec(*u)),
        is_opaque_scheme(u.scheme@) ==> r == Err::<i32, UriHashError>(UriHashError::OpaqueScheme),
        !is_opaque_scheme(u.scheme@) && u.host is None ==> r == Err::<i32, UriHashError>(
            UriHashError::NoAuthority,
        ),
{
    let opaque = str_eq(u.scheme.as_str(), "mailto") || str_eq(u.scheme.as_str(), "news")
        || str_eq(u.scheme.as_str(), "urn");
    if opaque {
        return Err(UriHashError::OpaqueScheme);
    }
    let h = hash_ignoring_case(0, u.scheme.as_str());
    let h = match &u.fragment {
        None => h,
        Some(f) => hash(h, f.as_str()),
    };
    let h = hash(h, u.path.as_str());
    let h = match &u.query {
        None => h,
        Some(q) => hash(h, q.as_str()),
    };
    match &u.host {
        None => Err(UriHashError::NoAuthority),
        Some(host) => {
            let h = hash_ignoring_case(h, host.as_str());
            let pi: i32 = match u.port {
                None => -1,
                Some(p) => p as i32,
            };
            Ok(h.wrapping_add(pi.wrapping_mul(1949)))
        },
    }
}

} // verus!
