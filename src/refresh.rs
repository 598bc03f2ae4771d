//! Refreshing the marketplace details of an asset already in the library:
//! the product page of its matched slug if it has one, else the page that the
//! first search result links to. The caller fetches each page asked for.
use vstd::prelude::*;
use crate::html::{OrbitalSelectors, first_product_link, find_first_product_link, page_content, parse_asset_details_from_html};
use crate::listing::{OrbitalAsset, make_product_url, opt_view, product_url};
use crate::resolve::{ORBITAL_SEARCH_URL, url_encoded, search_query_url};

verus! {

/// Where a refresh stands.
#[derive(Debug, Clone)]
pub enum RefreshStage {
    /// Fetching the product page of the matched slug.
    MatchedPage,
    /// Fetching the search results for the asset's name.
    SearchPage,
    /// Fetching the product page that the first search result links to.
    LinkedPage { url: String },
    Done,
}

/// The refresh of one asset's marketplace details.
pub struct MetadataRefresh {
    pub asset_name: String,
    pub matched_slug: Option<String>,
    pub stage: RefreshStage,
}

/// The search page of an asset name, percent-encoded as a whole.
pub open spec fn name_search_url(name: Seq<char>) -> Seq<char> {
    ORBITAL_SEARCH_URL@ + "?q="@ + url_encoded(name)
}

/// A listing scraped from a product page, titled with the asset's own name.
pub open spec fn refreshed_listing(
    html: Seq<char>,
    sel: OrbitalSelectors,
    name: Seq<char>,
    url: Seq<char>,
    a: OrbitalAsset,
) -> bool {
    &&& page_content(html, sel, a)
    &&& a.id is None && a.seller is None && a.product_slug is None
    &&& a.categories@.len() == 0 && a.supported_versions@.len() == 0
    &&& a.gallery_images@.len() == 0
    &&& a.price is None && a.release_date is None && a.last_modified is None
    &&& a.raw_json is None && a.thumbnail_url is None
    &&& opt_view(a.title) == Some(name)
    &&& opt_view(a.source_url) == Some(url)
}

impl MetadataRefresh {
    pub open spec fn well_formed(&self) -> bool {
        self.stage is MatchedPage ==> self.matched_slug is Some
    }

    pub fn new(asset_name: &str, matched_slug: Option<String>) -> (r: MetadataRefresh)
        ensures
            r.asset_name@ == asset_name@,
            r.matched_slug == matched_slug,
            r.stage is MatchedPage <==> matched_slug is Some,
            r.stage is SearchPage <==> matched_slug is None,
            r.well_formed(),
    {
        let stage = if matched_slug.is_some() {
            RefreshStage::MatchedPage
        } else {
            RefreshStage::SearchPage
        };
        MetadataRefresh { asset_name: String::from_str(asset_name), matched_slug, stage }
    }

    /// The page to fetch next, or none once the refresh is over.
    pub fn next_url(&self) -> (r: Option<String>)
        requires
            self.well_formed(),
        ensures
            match self.stage {
                RefreshStage::MatchedPage => r matches Some(u) && u@ == product_url(
                    self.matched_slug->0@,
                ),
                RefreshStage::SearchPage => r matches Some(u) && u@ == name_search_url(
                    self.asset_name@,
                ),
                RefreshStage::LinkedPage { url } => r matches Some(u) && u@ == url@,
                RefreshStage::Done => r is None,
            },
    {
        match &self.stage {
            RefreshStage::MatchedPage => match &self.matched_slug {
                Some(slug) => Some(make_product_url(slug.as_str())),
                None => None,
            },
            RefreshStage::SearchPage => Some(search_query_url(self.asset_name.as_str())),
            RefreshStage::LinkedPage { url } => Some(url.clone()),
            RefreshStage::Done => None,
        }
    }

    /// Takes in the page fetched, or nothing when the fetch failed. Returns
    /// the outcome once the refresh is over: the refreshed listing, or none
    /// when no page could be had.
    pub fn advance(&mut self, selectors: &OrbitalSelectors, page: Option<String>) -> (r: Option<
        Option<OrbitalAsset>,
    >)
        requires
            old(self).well_formed(),
        ensures
            final(self).well_formed(),
            final(self).asset_name == old(self).asset_name,
            final(self).matched_slug == old(self).matched_slug,
            match old(self).stage {
                RefreshStage::MatchedPage => match page {
                    Some(html) => final(self).stage is Done && (r matches Some(Some(a))
                        && refreshed_listing(
                        html@,
                        *selectors,
                        old(self).asset_name@,
                        product_url(old(self).matched_slug->0@),
                        a,
                    )),
                    None => r is None && final(self).stage is SearchPage,
                },
                RefreshStage::SearchPage => match page {
                    Some(html) => match first_product_link(
                        html@,
                        selectors.search_result_item_selector@,
                    ) {
                        Some(link) => r is None && (final(self).stage matches RefreshStage::LinkedPage { url }
                            && url@ == link),
                        None => r == Some(None::<OrbitalAsset>) && final(self).stage is Done,
                    },
                    None => r == Some(None::<OrbitalAsset>) && final(self).stage is Done,
                },
                RefreshStage::LinkedPage { url } => final(self).stage is Done && match page {
                    Some(html) => r matches Some(Some(a)) && refreshed_listing(
                        html@,
                        *selectors,
                        old(self).asset_name@,
                        url@,
                        a,
                    ),
                    None => r == Some(None::<OrbitalAsset>),
                },
                RefreshStage::Done => r is None && final(self).stage is Done,
            },
    {
        match &self.stage {
            RefreshStage::MatchedPage => match page {
                Some(html) => {
                    let url = match &self.matched_slug {
                        Some(slug) => make_product_url(slug.as_str()),
                        None => String::new(),
                    };
                    let mut a = parse_asset_details_from_html(selectors, html.as_str());
                    a.title = Some(self.asset_name.clone());
                    a.source_url = Some(url);
                    self.stage = RefreshStage::Done;
                    Some(Some(a))
                },
                None => {
                    self.stage = RefreshStage::SearchPage;
                    None
                },
            },
            RefreshStage::SearchPage => match page {
                Some(html) => match find_first_product_link(
                    html.as_str(),
                    selectors.search_result_item_selector.as_str(),
                ) {
                    Some(link) => {
                        self.stage = RefreshStage::LinkedPage { url: link };
                        None
                    },
                    None => {
                        self.stage = RefreshStage::Done;
                        Some(None)
                    },
                },
                None => {
                    self.stage = RefreshStage::Done;
                    Some(None)
                },
            },
            RefreshStage::LinkedPage { url } => {
                let url = url.clone();
                self.stage = RefreshStage::Done;
                match page {
                    Some(html) => {
                        let mut a = parse_asset_details_from_html(selectors, html.as_str());
                        a.title = Some(self.asset_name.clone());
                        a.source_url = Some(url);
                        Some(Some(a))
                    },
                    None => Some(None),
                }
            },
            RefreshStage::Done => None,
        }
    }
}

} // verus!
