//! URL parsing through the url crate. The crawler reads only three things
//! from a URL: its registrable domain, its scheme, and the absolute form of a
//! reference resolved against it. Each is a pure function of the input text,
//! so each gets a name that the wrappers' contracts share.
use vstd::prelude::*;

use crate::text::opt_str_view;

verus! {

/// The domain of a URL: what `url::Url::parse` followed by `Url::domain`
/// yields, or nothing when the URL does not parse or has no domain (for
/// example an IP-address host).
pub uninterp spec fn spec_url_domain(s: Seq<char>) -> Option<Seq<char>>;

/// The scheme of a URL, or nothing when it does not parse.
pub uninterp spec fn spec_url_scheme(s: Seq<char>) -> Option<Seq<char>>;

/// The absolute URL obtained by resolving `href` against `base`, or nothing
/// when `base` does not parse or the resolution fails.
pub uninterp spec fn spec_url_join(base: Seq<char>, href: Seq<char>) -> Option<Seq<char>>;

/// Relies on `url::Url::parse` and `Url::domain`: both depend on the URL
/// text alone.
#[verifier::external_body]
pub fn url_domain(url: &str) -> (r: Option<String>)
    ensures
        opt_str_view(r) == spec_url_domain(url@),
{
    match url::Url::parse(url) {
        Ok(u) => u.domain().map(|d| d.to_string()),
        Err(_) => None,
    }
}

/// Relies on `url::Url::parse` and `Url::scheme`: both depend on the URL
/// text alone.
#[verifier::external_body]
pub fn url_scheme(url: &str) -> (r: Option<String>)
    ensures
        opt_str_view(r) == spec_url_scheme(url@),
{
    match url::Url::parse(url) {
        Ok(u) => Some(u.scheme().to_string()),
        Err(_) => None,
    }
}

/// Relies on `url::Url::parse` and `Url::join`: resolution of a reference
/// against a base depends on the two texts alone.
#[verifier::external_body]
pub fn url_join(base: &str, href: &str) -> (r: Option<String>)
    ensures
        opt_str_view(r) == spec_url_join(base@, href@),
{
    match url::Url::parse(base) {
        Ok(b) => match b.join(href) {
            Ok(u) => Some(u.to_string()),
            Err(_) => None,
        },
        Err(_) => None,
    }
}

} // verus!
