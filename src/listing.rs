//! The marketplace listing record and the product API document it is built from.
use vstd::prelude::*;
use crate::SCALE;
use crate::text::strs;

verus! {

pub const ORBITAL_BASE_URL: &'static str = "https://orbital-market.com";

/// A marketplace listing, assembled best-effort from whatever source answered.
/// Ratings and prices are fixed-point millionths (`SCALE` is one).
#[derive(Debug, Clone)]
pub struct OrbitalAsset {
    pub id: Option<String>,
    pub product_slug: Option<String>,
    pub title: Option<String>,
    pub description: Option<String>,
    pub technical_details: Option<String>,
    pub seller: Option<String>,
    pub categories: Vec<String>,
    pub supported_versions: Vec<String>,
    pub gallery_images: Vec<String>,
    pub rating_average: Option<i64>,
    pub rating_count: Option<i32>,
    pub price: Option<i64>,
    pub release_date: Option<String>,
    pub last_modified: Option<String>,
    /// The source document the listing was read from, kept for audit.
    pub raw_json: Option<String>,
    pub source_url: Option<String>,
    pub thumbnail_url: Option<String>,
}

/// The view of an optional string.
pub open spec fn opt_view(o: Option<String>) -> Option<Seq<char>> {
    match o {
        Some(s) => Some(s@),
        None => None,
    }
}

/// The views of a sequence of optional strings.
pub open spec fn opt_views(v: Seq<Option<String>>) -> Seq<Option<Seq<char>>> {
    v.map_values(|o: Option<String>| opt_view(o))
}

/// A listing with every field absent.
pub open spec fn is_blank(a: OrbitalAsset) -> bool {
    &&& a.id is None
    &&& a.product_slug is None
    &&& a.title is None
    &&& a.description is None
    &&& a.technical_details is None
    &&& a.seller is None
    &&& a.categories@.len() == 0
    &&& a.supported_versions@.len() == 0
    &&& a.gallery_images@.len() == 0
    &&& a.rating_average is None
    &&& a.rating_count is None
    &&& a.price is None
    &&& a.release_date is None
    &&& a.last_modified is None
    &&& a.raw_json is None
    &&& a.source_url is None
    &&& a.thumbnail_url is None
}

impl Default for OrbitalAsset {
    fn default() -> (r: OrbitalAsset)
        ensures
            is_blank(r),
    {
        OrbitalAsset {
            id: None,
            product_slug: None,
            title: None,
            description: None,
            technical_details: None,
            seller: None,
            categories: Vec::new(),
            supported_versions: Vec::new(),
            gallery_images: Vec::new(),
            rating_average: None,
            rating_count: None,
            price: None,
            release_date: None,
            last_modified: None,
            raw_json: None,
            source_url: None,
            thumbnail_url: None,
        }
    }
}

/// A listing with every field absent.
pub fn blank_asset() -> (r: OrbitalAsset)
    ensures
        is_blank(r),
{
    OrbitalAsset::default()
}

/// The product API document, as the API's JSON schema lays it out.
#[derive(Debug, Clone)]
pub struct ApiResponse {
    pub id: Option<String>,
    pub title: String,
    pub category: String,
    pub computed: Computed,
    pub discount: i32,
    pub engine: Engine,
    pub media: Media,
    pub meta: Meta,
    pub owner: Owner,
    pub price: Price,
    pub release_date: String,
    pub review: Review,
    pub slug: String,
    pub description: Description,
}

#[derive(Debug, Clone)]
pub struct Computed {
    pub embedded_content: Vec<String>,
    pub is_boosted: bool,
    /// Ranking score in millionths.
    pub score: i64,
}

#[derive(Debug, Clone)]
pub struct Engine {
    pub max: String,
    pub min: String,
    pub id: String,
}

#[derive(Debug, Clone)]
pub struct Media {
    pub thumbnail: String,
    pub images: Vec<String>,
}

#[derive(Debug, Clone)]
pub struct Meta {
    pub fab_id: String,
    pub unreal_id: Option<String>,
}

#[derive(Debug, Clone)]
pub struct Owner {
    pub id: Option<String>,
    pub name: String,
    pub meta: Meta,
}

/// Prices in minor currency units (cents).
#[derive(Debug, Clone)]
pub struct Price {
    pub history: Vec<PriceHistory>,
    pub value: i32,
}

#[derive(Debug, Clone)]
pub struct PriceHistory {
    pub date: String,
    pub value: i32,
}

/// Review summary; `rating` is the raw value in millionths, which upstream
/// reports either on a five-point scale or on a fifty-point one.
#[derive(Debug, Clone)]
pub struct Review {
    pub count: i32,
    pub rating: i64,
}

#[derive(Debug, Clone)]
pub struct Description {
    pub long: String,
    pub technical: String,
}

/// A raw rating above five stars is on the ×10 scale and is divided by ten.
pub open spec fn normalized_rating(raw: int) -> int {
    if raw > 5 * SCALE {
        raw / 10
    } else {
        raw
    }
}

pub fn normalize_rating(raw: i64) -> (r: i64)
    ensures
        r == normalized_rating(raw as int),
{
    if raw > 5 * SCALE as i64 {
        raw / 10
    } else {
        raw
    }
}

/// Minor units to millionths of a major unit.
pub open spec fn price_micros(minor: int) -> int {
    minor * 10_000
}

/// `base + "/product/" + slug`.
pub open spec fn product_url(slug: Seq<char>) -> Seq<char> {
    ORBITAL_BASE_URL@ + "/product/"@ + slug
}

pub fn make_product_url(slug: &str) -> (r: String)
    ensures
        r@ == product_url(slug@),
{
    let mut u = String::from_str(ORBITAL_BASE_URL);
    u.append("/product/");
    u.append(slug);
    u
}

/// Clones a vector of strings, keeping the contents.
pub fn clone_strings(v: &Vec<String>) -> (r: Vec<String>)
    ensures
        strs(r@) == strs(v@),
{
    let mut r: Vec<String> = Vec::new();
    let mut i: usize = 0;
    while i < v.len()
        invariant
            i <= v.len(),
            strs(r@) == strs(v@.take(i as int)),
        decreases v.len() - i,
    {
        let s = v[i].clone();
        let ghost before = r@;
        r.push(s);
        i += 1;
        assert(v@.take(i as int) == v@.take(i - 1).push(v@[i - 1]));
        assert(strs(r@) =~= strs(before).push(s@));
        assert(strs(v@.take(i as int)) =~= strs(v@.take(i - 1)).push(v@[i - 1]@));
    }
    assert(v@.take(v.len() as int) == v@);
    r
}

/// The listing that a product API document yields; `raw` is its text.
pub open spec fn api_listing(r: OrbitalAsset, api: ApiResponse, raw: Option<Seq<char>>) -> bool {
    &&& opt_view(r.id) == opt_view(api.id)
    &&& opt_view(r.product_slug) == Some(api.slug@)
    &&& opt_view(r.title) == Some(api.title@)
    &&& opt_view(r.description) == Some(api.description.long@)
    &&& opt_view(r.technical_details) == Some(api.description.technical@)
    &&& opt_view(r.seller) == Some(api.owner.name@)
    &&& strs(r.categories@) == seq![api.category@]
    &&& strs(r.supported_versions@) == seq![api.engine.min@, api.engine.max@]
    &&& strs(r.gallery_images@) == strs(api.media.images@)
    &&& api.review.count > 0 ==> r.rating_average == Some(
        normalized_rating(api.review.rating as int) as i64,
    )
    &&& api.review.count > 0 ==> r.rating_count == Some(api.review.count)
    &&& api.review.count <= 0 ==> r.rating_average is None && r.rating_count is None
    &&& r.price == Some(price_micros(api.price.value as int) as i64)
    &&& opt_view(r.release_date) == Some(api.release_date@)
    &&& opt_view(r.last_modified) == Some(Seq::<char>::empty())
    &&& opt_view(r.raw_json) == raw
    &&& opt_view(r.source_url) == Some(product_url(api.slug@))
    &&& opt_view(r.thumbnail_url) == Some(api.media.thumbnail@)
}

/// Builds a listing from a product API document; `raw` is the document's text.
pub fn map_api_response_to_orbital_asset(api: ApiResponse, raw: Option<String>) -> (r:
    OrbitalAsset)
    ensures
        api_listing(r, api, opt_view(raw)),
{
    let (rating_average, rating_count) = if api.review.count > 0 {
        (Some(normalize_rating(api.review.rating)), Some(api.review.count))
    } else {
        (None, None)
    };
    let price = Some(api.price.value as i64 * 10_000i64);
    let source_url = make_product_url(api.slug.as_str());
    let gallery_images = clone_strings(&api.media.images);
    let mut categories: Vec<String> = Vec::new();
    categories.push(api.category);
    let mut supported_versions: Vec<String> = Vec::new();
    supported_versions.push(api.engine.min);
    supported_versions.push(api.engine.max);
    let r = OrbitalAsset {
        id: api.id,
        product_slug: Some(api.slug),
        title: Some(api.title),
        description: Some(api.description.long),
        technical_details: Some(api.description.technical),
        seller: Some(api.owner.name),
        categories,
        supported_versions,
        gallery_images,
        rating_average,
        rating_count,
        price,
        release_date: Some(api.release_date),
        last_modified: Some(String::new()),
        raw_json: raw,
        source_url: Some(source_url),
        thumbnail_url: Some(api.media.thumbnail),
    };
    assert(strs(r.categories@) =~= seq![api.category@]);
    assert(strs(r.supported_versions@) =~= seq![api.engine.min@, api.engine.max@]);
    r
}

} // verus!
