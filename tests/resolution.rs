use omnidex::html::OrbitalSelectors;
use omnidex::listing::{map_api_response_to_orbital_asset, normalize_rating, ApiResponse, Computed, Description, Engine, Media, Meta, Owner, Price, Review};
use omnidex::matching::{AssetMatcher, LocalAsset, MatchStrength, MatchType};
use omnidex::refresh::MetadataRefresh;
use omnidex::resolve::{product_listing, ResolveRequest, Resolver, Stage, StepEvent};

fn api_doc(rating: i64, count: i32) -> ApiResponse {
    let meta = Meta { fab_id: "f".to_string(), unreal_id: None };
    ApiResponse {
        id: Some("id1".to_string()),
        title: "Mage Animation Set".to_string(),
        category: "animation".to_string(),
        computed: Computed { embedded_content: vec![], is_boosted: false, score: 0 },
        discount: 0,
        engine: Engine { max: "5.3".to_string(), min: "4.27".to_string(), id: "e".to_string() },
        media: Media { thumbnail: "thumb.png".to_string(), images: vec!["a.png".to_string(), "b.png".to_string()] },
        meta: meta.clone(),
        owner: Owner { id: None, name: "Studio".to_string(), meta },
        price: Price { history: vec![], value: 1999 },
        release_date: "2024-01-01".to_string(),
        review: Review { count, rating },
        slug: "mage-animation-set".to_string(),
        description: Description { long: "Long".to_string(), technical: "Tech".to_string() },
    }
}

#[test]
fn rating_normalization() {
    assert_eq!(normalize_rating(45_000_000), 4_500_000);
    assert_eq!(normalize_rating(4_500_000), 4_500_000);
    assert_eq!(normalize_rating(5_000_000), 5_000_000);
    let a = map_api_response_to_orbital_asset(api_doc(45_000_000, 10), Some("{}".to_string()));
    assert_eq!(a.rating_average, Some(4_500_000));
    assert_eq!(a.rating_count, Some(10));
    let a = map_api_response_to_orbital_asset(api_doc(4_500_000, 3), None);
    assert_eq!(a.rating_average, Some(4_500_000));
    let a = map_api_response_to_orbital_asset(api_doc(45_000_000, 0), None);
    assert_eq!(a.rating_average, None);
    assert_eq!(a.rating_count, None);
}

#[test]
fn api_document_mapping() {
    let a = map_api_response_to_orbital_asset(api_doc(40_000_000, 1), Some("raw".to_string()));
    assert_eq!(a.price, Some(19_990_000));
    assert_eq!(a.source_url.as_deref(), Some("https://orbital-market.com/product/mage-animation-set"));
    assert_eq!(a.supported_versions, vec!["4.27", "5.3"]);
    assert_eq!(a.categories, vec!["animation"]);
    assert_eq!(a.gallery_images, vec!["a.png", "b.png"]);
    assert_eq!(a.raw_json.as_deref(), Some("raw"));
    assert_eq!(a.last_modified.as_deref(), Some(""));
}

#[test]
fn api_hit_short_circuits() {
    let sel = OrbitalSelectors::default();
    let mut r = Resolver::new("Mage Animation Set");
    match r.next_request() {
        Some(ResolveRequest::Api { url }) => assert_eq!(url, "https://orbital-market.com/api/products/product/mage-animation-set"),
        other => panic!("unexpected {:?}", other),
    }
    let out = r.advance(&sel, StepEvent::ApiDocument { doc: api_doc(45_000_000, 2), raw: "{}".to_string() }).unwrap();
    assert_eq!(out.len(), 1);
    assert_eq!(r.stage, Stage::Done);
    assert!(r.next_request().is_none());
}

const SEARCH_PAGE: &str = r#"<html><body><div class="listing-card"><h3>Mage Animation Set</h3></div></body></html>"#;

#[test]
fn folder_resolved_by_search_and_matched() {
    let sel = OrbitalSelectors::default();
    let folder = "Mage Animation Set (4 18)";
    let mut r = Resolver::new(folder);
    let mut api_requests = 0;
    let mut page_requests = 0;
    let found = loop {
        let req = r.next_request().expect("a request");
        let event = match req {
            ResolveRequest::Api { .. } => {
                api_requests += 1;
                StepEvent::Failed
            }
            ResolveRequest::Page { url } => {
                page_requests += 1;
                assert_eq!(url, format!("https://orbital-market.com/en-US/product/{}", r.slugs[0]));
                StepEvent::Failed
            }
            ResolveRequest::Search { url } => {
                assert_eq!(url, "https://orbital-market.com/search?q=Mage%20Animation%20Set%20%284%2018%29");
                StepEvent::Html { body: SEARCH_PAGE.to_string() }
            }
        };
        if let Some(v) = r.advance(&sel, event) {
            break v;
        }
    };
    assert_eq!(api_requests, r.slugs.len());
    assert_eq!(page_requests, 1);
    assert_eq!(found.len(), 1);
    assert_eq!(found[0].title.as_deref(), Some("Mage Animation Set"));

    let m = AssetMatcher::new();
    let title = found[0].title.clone().unwrap();
    let jw = strsim::jaro_winkler(&AssetMatcher::clean_name(folder), &AssetMatcher::clean_name(&title));
    assert!(jw > 0.9);
    let jw_micros = (jw * 1_000_000.0).round() as u64;
    let (score, strength) = m.calculate_similarity(folder, &title, jw_micros);
    assert!(score >= 850_000, "score {}", score);
    assert!(matches!(strength, MatchStrength::High | MatchStrength::Exact));

    let local = LocalAsset { id: Some(1), name: folder.to_string(), asset_type: "animation".to_string(), file_size: 0, file_hash: None };
    let sims = vec![jw_micros];
    let outcome = m.match_single_asset(&local, Ok(found), &sims);
    assert_eq!(outcome.orbital_asset.unwrap().title.as_deref(), Some("Mage Animation Set"));
    assert_eq!(outcome.match_type, m.determine_match_type(outcome.match_confidence));
    assert_ne!(outcome.match_type, MatchType::NoMatch);
}

#[test]
fn page_scrape_fills_slug_and_url() {
    let sel = OrbitalSelectors::default();
    let mut r = Resolver::new("Forest");
    assert_eq!(r.slugs, vec!["forest"]);
    assert!(r.advance(&sel, StepEvent::Failed).is_none());
    assert_eq!(r.stage, Stage::Page);
    let v = r.advance(&sel, StepEvent::Html { body: "<div id='description'>Trees</div>".to_string() }).unwrap();
    assert_eq!(v[0].product_slug.as_deref(), Some("forest"));
    assert_eq!(v[0].source_url.as_deref(), Some("https://orbital-market.com/en-US/product/forest"));
    assert_eq!(v[0].description.as_deref(), Some("Trees"));
}

#[test]
fn nothing_found_is_empty_not_error() {
    let sel = OrbitalSelectors::default();
    let mut r = Resolver::new("___");
    assert_eq!(r.stage, Stage::Search);
    let v = r.advance(&sel, StepEvent::Failed).unwrap();
    assert!(v.is_empty());
}

#[test]
fn refresh_falls_back_to_first_search_link() {
    let sel = OrbitalSelectors::default();
    let mut r = MetadataRefresh::new("Mage Pack", Some("mage-pack".to_string()));
    assert_eq!(r.next_url().as_deref(), Some("https://orbital-market.com/product/mage-pack"));
    assert!(r.advance(&sel, None).is_none());
    assert_eq!(r.next_url().as_deref(), Some("https://orbital-market.com/search?q=Mage%20Pack"));
    let search = r#"<div class="listing-card"><a href="/product/mage-pack-2">Mage</a></div>"#;
    assert!(r.advance(&sel, Some(search.to_string())).is_none());
    assert_eq!(r.next_url().as_deref(), Some("https://orbital-market.com/product/mage-pack-2"));
    let page = r#"<div class="overview">Spells</div>"#;
    let a = r.advance(&sel, Some(page.to_string())).unwrap().unwrap();
    assert_eq!(a.title.as_deref(), Some("Mage Pack"));
    assert_eq!(a.description.as_deref(), Some("Spells"));
    assert_eq!(a.source_url.as_deref(), Some("https://orbital-market.com/product/mage-pack-2"));
    assert!(r.next_url().is_none());
}

#[test]
fn refresh_of_matched_slug_and_empty_search() {
    let sel = OrbitalSelectors::default();
    let mut r = MetadataRefresh::new("Kit", Some("kit".to_string()));
    let a = r.advance(&sel, Some("<p>x</p>".to_string())).unwrap().unwrap();
    assert_eq!(a.source_url.as_deref(), Some("https://orbital-market.com/product/kit"));
    assert_eq!(a.title.as_deref(), Some("Kit"));
    let mut r = MetadataRefresh::new("Kit", None);
    let out = r.advance(&sel, Some("<p>no results</p>".to_string()));
    assert!(matches!(out, Some(None)));
    assert!(r.next_url().is_none());
}

#[test]
fn product_lookup_by_url_or_id() {
    let sel = OrbitalSelectors::default();
    let mut r = Resolver::for_product("https://orbital-market.com/product/cool-kit");
    assert_eq!(r.slugs, vec!["cool-kit"]);
    match r.next_request() {
        Some(ResolveRequest::Api { url }) => assert_eq!(url, "https://orbital-market.com/api/products/product/cool-kit"),
        other => panic!("unexpected {:?}", other),
    }
    assert!(r.advance(&sel, StepEvent::Failed).is_none());
    match r.next_request() {
        Some(ResolveRequest::Page { url }) => assert_eq!(url, "https://orbital-market.com/en-US/product/cool-kit"),
        other => panic!("unexpected {:?}", other),
    }
    assert!(r.advance(&sel, StepEvent::Failed).is_none());
    assert!(matches!(r.next_request(), Some(ResolveRequest::Search { .. })));
    let page = r#"<div class="listing-card"><h3>A</h3></div><div class="listing-card"><h3>B</h3></div>"#;
    let found = r.advance(&sel, StepEvent::Html { body: page.to_string() }).unwrap();
    assert_eq!(product_listing(found).unwrap().title.as_deref(), Some("B"));
    assert!(product_listing(vec![]).is_none());
    let r = Resolver::for_product("cool-kit");
    assert_eq!(r.slugs, vec!["cool-kit"]);
    assert_eq!(r.stage, Stage::Api { next: 0 });
}
