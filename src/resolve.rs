//! Candidate resolution: from a folder name to zero or more marketplace
//! listings, trying the product API for each slug guess, then the product
//! page, then full-text search. The caller performs each request that the
//! resolver asks for and reports what came back.
use vstd::prelude::*;
use crate::html::{OrbitalSelectors, extract_product_id_from_url, last_path_segment, selector_valid, page_content, page_rest_blank, parse_asset_details_from_html, parse_orbital_search_results, search_listings};
use crate::listing::{ApiResponse, OrbitalAsset, ORBITAL_BASE_URL, api_listing, map_api_response_to_orbital_asset, opt_view};
use crate::slug::{clean_folder_name_for_search, generate_slug_variations, slug_variations};
use crate::text::{separators_to_spaces, strs};

verus! {

pub const ORBITAL_API_BASE_URL: &'static str = "https://orbital-market.com/api/products";

pub const ORBITAL_SEARCH_URL: &'static str = "https://orbital-market.com/search";

/// What `urlencoding::encode` returns: every byte but ASCII letters, digits,
/// `-`, `_`, `.` and `~` percent-encoded.
pub uninterp spec fn url_encoded(s: Seq<char>) -> Seq<char>;

/// Relies on `urlencoding::encode`.
#[verifier::external_body]
fn percent_encode(s: &str) -> (r: String)
    ensures
        r@ == url_encoded(s@),
{
    urlencoding::encode(s).into_owned()
}

pub open spec fn api_url(slug: Seq<char>) -> Seq<char> {
    ORBITAL_API_BASE_URL@ + "/product/"@ + slug
}

pub open spec fn page_url(slug: Seq<char>) -> Seq<char> {
    ORBITAL_BASE_URL@ + "/en-US/product/"@ + slug
}

/// The search query is the folder name with separators as spaces.
pub open spec fn search_url(folder_name: Seq<char>) -> Seq<char> {
    ORBITAL_SEARCH_URL@ + "?q="@ + url_encoded(separators_to_spaces(folder_name))
}

fn concat3(a: &str, b: &str, c: &str) -> (r: String)
    ensures
        r@ == a@ + b@ + c@,
{
    let mut s = String::from_str(a);
    s.append(b);
    s.append(c);
    s
}

/// The search page for a query, percent-encoded.
pub fn search_query_url(query: &str) -> (r: String)
    ensures
        r@ == ORBITAL_SEARCH_URL@ + "?q="@ + url_encoded(query@),
{
    let encoded = percent_encode(query);
    concat3(ORBITAL_SEARCH_URL, "?q=", encoded.as_str())
}

/// Where a resolution stands.
#[derive(Debug, Clone, Copy, PartialEq, Eq, Structural)]
pub enum Stage {
    /// Trying the product API with slug number `next`.
    Api { next: usize },
    /// Trying the product page of the first slug.
    Page,
    /// Trying full-text search.
    Search,
    Done,
}

/// A request the caller is to make.
#[derive(Debug, Clone)]
pub enum ResolveRequest {
    /// Fetch the JSON product document at `url`.
    Api { url: String },
    /// Fetch the HTML product page at `url`.
    Page { url: String },
    /// Fetch the HTML search results page at `url`.
    Search { url: String },
}

/// What the caller got for the last request.
#[derive(Debug, Clone)]
pub enum StepEvent {
    /// The fetch failed, or its JSON did not have the expected shape.
    Failed,
    /// The product document, decoded, with its text.
    ApiDocument { doc: ApiResponse, raw: String },
    /// An HTML page.
    Html { body: String },
}

/// The resolution of one folder name.
pub struct Resolver {
    pub folder_name: String,
    pub slugs: Vec<String>,
    pub stage: Stage,
}

/// The first stage: the product API when there is a slug, else search.
pub open spec fn first_stage(n: nat) -> Stage {
    if n > 0 {
        Stage::Api { next: 0 }
    } else {
        Stage::Search
    }
}

/// The stage after the API found nothing for slug `i` of `n`.
pub open spec fn after_api_miss(i: nat, n: nat) -> Stage {
    if i + 1 < n {
        Stage::Api { next: (i + 1) as usize }
    } else {
        Stage::Page
    }
}

impl Resolver {
    pub open spec fn well_formed(&self) -> bool {
        match self.stage {
            Stage::Api { next } => next < self.slugs@.len(),
            Stage::Page => self.slugs@.len() > 0,
            _ => true,
        }
    }

    pub fn new(folder_name: &str) -> (r: Resolver)
        ensures
            r.folder_name@ == folder_name@,
            strs(r.slugs@) == slug_variations(folder_name@),
            r.stage == first_stage(r.slugs@.len()),
            r.well_formed(),
    {
        let slugs = generate_slug_variations(folder_name);
        let stage = if slugs.len() > 0 {
            Stage::Api { next: 0 }
        } else {
            Stage::Search
        };
        Resolver { folder_name: String::from_str(folder_name), slugs, stage }
    }

    /// The resolution of one product, named by its identifier or by a URL
    /// whose last path segment is the identifier: the product API for that
    /// identifier, then its product page, then a search for the input.
    pub fn for_product(product_id_or_url: &str) -> (r: Resolver)
        ensures
            strs(r.slugs@) == seq![
                match last_path_segment(product_id_or_url@) {
                    Some(s) => s,
                    None => product_id_or_url@,
                },
            ],
            r.folder_name@ == product_id_or_url@,
            r.stage == (Stage::Api { next: 0 }),
            r.well_formed(),
    {
        let slug = match extract_product_id_from_url(product_id_or_url) {
            Some(s) => s,
            None => String::from_str(product_id_or_url),
        };
        let mut slugs: Vec<String> = Vec::new();
        let ghost sv = slug@;
        slugs.push(slug);
        assert(strs(slugs@) =~= seq![sv]);
        Resolver { folder_name: String::from_str(product_id_or_url), slugs, stage: Stage::Api { next: 0 } }
    }

    /// The request to make next, or none once resolution is over.
    pub fn next_request(&self) -> (r: Option<ResolveRequest>)
        requires
            self.well_formed(),
        ensures
            match self.stage {
                Stage::Api { next } => r matches Some(ResolveRequest::Api { url }) && url@ == api_url(
                    self.slugs@[next as int]@,
                ),
                Stage::Page => r matches Some(ResolveRequest::Page { url }) && url@ == page_url(
                    self.slugs@[0]@,
                ),
                Stage::Search => r matches Some(ResolveRequest::Search { url }) && url@
                    == search_url(self.folder_name@),
                Stage::Done => r is None,
            },
    {
        match self.stage {
            Stage::Api { next } => Some(
                ResolveRequest::Api {
                    url: concat3(ORBITAL_API_BASE_URL, "/product/", self.slugs[next].as_str()),
                },
            ),
            Stage::Page => Some(
                ResolveRequest::Page {
                    url: concat3(ORBITAL_BASE_URL, "/en-US/product/", self.slugs[0].as_str()),
                },
            ),
            Stage::Search => {
                let query = clean_folder_name_for_search(self.folder_name.as_str());
                Some(ResolveRequest::Search { url: search_query_url(query.as_str()) })
            },
            Stage::Done => None,
        }
    }

    /// Takes in what the last request returned. Returns the listings once
    /// resolution is over, and nothing while more requests are to be made.
    pub fn advance(&mut self, selectors: &OrbitalSelectors, event: StepEvent) -> (r: Option<
        Vec<OrbitalAsset>,
    >)
        requires
            old(self).well_formed(),
        ensures
            final(self).well_formed(),
            final(self).folder_name == old(self).folder_name,
            final(self).slugs == old(self).slugs,
            match old(self).stage {
                Stage::Api { next } => match event {
                    StepEvent::ApiDocument { doc, raw } => final(self).stage == Stage::Done && (r matches Some(v)
                        && v@.len() == 1 && api_listing(v@[0], doc, Some(raw@))),
                    _ => r is None && final(self).stage == after_api_miss(
                        next as nat,
                        old(self).slugs@.len(),
                    ),
                },
                Stage::Page => match event {
                    StepEvent::Html { body } => final(self).stage == Stage::Done && (r matches Some(v)
                        && v@.len() == 1 && page_content(body@, *selectors, v@[0])
                        && page_rest_blank(v@[0]) && opt_view(v@[0].product_slug) == Some(
                        old(self).slugs@[0]@,
                    ) && opt_view(v@[0].source_url) == Some(page_url(old(self).slugs@[0]@))),
                    _ => r is None && final(self).stage == Stage::Search,
                },
                Stage::Search => final(self).stage == Stage::Done && (r matches Some(v) && match event {
                    StepEvent::Html { body } => if selector_valid(
                        selectors.search_result_item_selector@,
                    ) {
                        search_listings(body@, *selectors, v@)
                    } else {
                        v@.len() == 0
                    },
                    _ => v@.len() == 0,
                }),
                Stage::Done => r is None && final(self).stage == Stage::Done,
            },
    {
        match self.stage {
            Stage::Api { next } => match event {
                StepEvent::ApiDocument { doc, raw } => {
                    let listing = map_api_response_to_orbital_asset(doc, Some(raw));
                    self.stage = Stage::Done;
                    let mut v: Vec<OrbitalAsset> = Vec::new();
                    v.push(listing);
                    Some(v)
                },
                _ => {
                    assert(next < self.slugs@.len());
                    self.stage = if next < self.slugs.len() - 1 {
                        Stage::Api { next: next + 1 }
                    } else {
                        Stage::Page
                    };
                    None
                },
            },
            Stage::Page => match event {
                StepEvent::Html { body } => {
                    let mut listing = parse_asset_details_from_html(selectors, body.as_str());
                    let slug = self.slugs[0].clone();
                    let url = concat3(ORBITAL_BASE_URL, "/en-US/product/", slug.as_str());
                    listing.product_slug = Some(slug);
                    listing.source_url = Some(url);
                    self.stage = Stage::Done;
                    let mut v: Vec<OrbitalAsset> = Vec::new();
                    v.push(listing);
                    Some(v)
                },
                _ => {
                    self.stage = Stage::Search;
                    None
                },
            },
            Stage::Search => {
                self.stage = Stage::Done;
                match event {
                    StepEvent::Html { body } => match parse_orbital_search_results(
                        selectors,
                        body.as_str(),
                    ) {
                        Ok(v) => Some(v),
                        Err(_) => Some(Vec::new()),
                    },
                    _ => Some(Vec::new()),
                }
            },
            Stage::Done => None,
        }
    }
}

/// The listing a product lookup settles on: the last one found.
pub fn product_listing(found: Vec<OrbitalAsset>) -> (r: Option<OrbitalAsset>)
    ensures
        r == if found@.len() > 0 {
            Some(found@.last())
        } else {
            None::<OrbitalAsset>
        },
{
    let mut found = found;
    found.pop()
}

} // verus!
