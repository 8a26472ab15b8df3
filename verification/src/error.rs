use vstd::prelude::*;
use crate::model::{Site, site_label};

verus! {

/// The error a failed HTTP request reports.
#[verifier::external_type_specification]
#[verifier::external_body]
pub struct ExReqwestError(reqwest::Error);

/// The error a failed JSON parse reports.
#[verifier::external_type_specification]
#[verifier::external_body]
pub struct ExJsonError(serde_json::Error);

/// Why one source could not deliver a search or a fetch.
#[allow(inconsistent_fields)]
#[derive(Debug)]
pub enum SiteError {
    Http { site: &'static str, source: reqwest::Error },
    Layout { site: &'static str, url: String },
    Selector { site: &'static str, message: String },
    Api { site: &'static str, source: serde_json::Error },
    ClientId { site: &'static str },
    Mismatch { site: &'static str, url: String, expected: String },
    Unsupported { site: &'static str },
}

/// A lookup of a search hit that is not (or no longer) cached.
#[derive(Debug)]
pub enum CacheError {
    NotFound(String),
}

/// `e` says that the page at `url` of `site` had no lyrics container.
pub open spec fn is_layout_error(e: SiteError, site: Site, url: Seq<char>) -> bool {
    e matches SiteError::Layout { site: s, url: u } && s@ == site_label(site) && u@ == url
}

/// `e` says that a selector of `site` did not parse, with `message`.
pub open spec fn is_selector_error(e: SiteError, site: Site, message: Seq<char>) -> bool {
    e matches SiteError::Selector { site: s, message: m } && s@ == site_label(site) && m@ == message
}

/// `e` says that the page at `url` of `site` is not the expected song.
pub open spec fn is_mismatch_error(e: SiteError, site: Site, url: Seq<char>, expected: Seq<char>) -> bool {
    e matches SiteError::Mismatch { site: s, url: u, expected: x } && s@ == site_label(site) && u@ == url && x@ == expected
}

/// `e` reports a page failure: with `Some(message)` the selector did not
/// parse, with `None` the content was missing.
pub open spec fn is_page_failure(e: SiteError, failure: Option<Seq<char>>, site: Site, url: Seq<char>) -> bool {
    match failure {
        Some(message) => is_selector_error(e, site, message),
        None => is_layout_error(e, site, url),
    }
}

/// The error for a page at `url` of `site` without a lyrics container.
pub fn layout_error(site: Site, url: &str) -> (e: SiteError)
    ensures
        is_layout_error(e, site, url@),
{
    SiteError::Layout { site: site.label(), url: url.to_owned() }
}

/// The error for a page failure of `site` at `url`.
pub fn page_failure(failure: Option<String>, site: Site, url: &str) -> (e: SiteError)
    ensures
        is_page_failure(e, match failure { Some(m) => Some(m@), None => None }, site, url@),
{
    match failure {
        Some(message) => SiteError::Selector { site: site.label(), message },
        None => layout_error(site, url),
    }
}

} // verus!
