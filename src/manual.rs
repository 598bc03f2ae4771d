//! Checking the marketplace URL a user gives for a manual match.
use vstd::prelude::*;
use crate::html::{extract_product_id_from_url, last_path_segment};
use crate::listing::opt_view;

verus! {

/// The only host that manual matches may point at.
pub const MARKETPLACE_HOST: &'static str = "orbital-market.com";

/// For a URL that `url::Url::parse` accepts, what `Url::host_str` returns;
/// nothing for one it rejects.
pub uninterp spec fn parsed_url_host(url: Seq<char>) -> Option<Option<Seq<char>>>;

/// Relies on `url::Url::parse` and `Url::host_str`.
#[verifier::external_body]
fn url_host(url: &str) -> (r: Option<Option<String>>)
    ensures
        match r {
            Some(h) => parsed_url_host(url@) == Some(opt_view(h)),
            None => parsed_url_host(url@) is None,
        },
{
    url::Url::parse(url).ok().map(|u| u.host_str().map(String::from))
}

/// Why a manual match was refused.
#[derive(Debug, Clone, Copy, PartialEq, Eq, Structural)]
pub enum ManualMatchError {
    InvalidUrl,
    WrongHost,
    NoProductId,
}

impl ManualMatchError {
    pub fn message(&self) -> (r: &'static str)
        ensures
            r@ == match *self {
                ManualMatchError::InvalidUrl => "Invalid URL format"@,
                ManualMatchError::WrongHost => "URL must be from orbital-market.com"@,
                ManualMatchError::NoProductId => "Could not extract product ID from URL"@,
            },
    {
        match self {
            ManualMatchError::InvalidUrl => "Invalid URL format",
            ManualMatchError::WrongHost => "URL must be from orbital-market.com",
            ManualMatchError::NoProductId => "Could not extract product ID from URL",
        }
    }
}

/// The product identifier of a marketplace URL: the URL must parse, its host
/// must be exactly the marketplace's, and its path must end in a segment.
pub fn manual_match_target(url: &str) -> (r: Result<String, ManualMatchError>)
    ensures
        match parsed_url_host(url@) {
            None => r == Err::<String, ManualMatchError>(ManualMatchError::InvalidUrl),
            Some(h) => if h != Some(MARKETPLACE_HOST@) {
                r == Err::<String, ManualMatchError>(ManualMatchError::WrongHost)
            } else {
                match last_path_segment(url@) {
                    Some(id) => r matches Ok(s) && s@ == id,
                    None => r == Err::<String, ManualMatchError>(ManualMatchError::NoProductId),
                }
            },
        },
{
    let host = match url_host(url) {
        Some(h) => h,
        None => return Err(ManualMatchError::InvalidUrl),
    };
    let expected = String::from_str(MARKETPLACE_HOST);
    let right_host = match &host {
        Some(h) => h.eq(&expected),
        None => false,
    };
    if !right_host {
        return Err(ManualMatchError::WrongHost);
    }
    match extract_product_id_from_url(url) {
        Some(id) => Ok(id),
        None => Err(ManualMatchError::NoProductId),
    }
}

} // verus!
