use omnidex::html::{
    extract_product_id_from_url, extract_text_from_element, find_first_product_link,
    parse_asset_details_from_html, parse_orbital_search_results, parse_price, validate_orbital_content,
    OrbitalSelectors, SearchParseError,
};

const PRODUCT_PAGE: &str = r#"<html><body>
<div class="tabs-bar"><span class="tab"> Detailed Description </span><span class="tab">Technical Description</span></div>
<div class="tabs-content"><div><p>Great pack</p></div><div><p>UE 5.3</p></div></div>
<div class="rating hasRatings stars">
  <span class="star"><span class="front" style="width: 100%;"></span></span>
  <span class="star"><span class="front" style="width:100%"></span></span>
  <span class="star"><span class="front" style="width: 50%"></span></span>
</div>
<span class="rating-count">(1,234 ratings)</span>
<span class="review-count">(42 reviews)</span>
</body></html>"#;

#[test]
fn product_page_tabs_stars_and_count() {
    let sel = OrbitalSelectors::default();
    let a = parse_asset_details_from_html(&sel, PRODUCT_PAGE);
    assert_eq!(a.description.as_deref(), Some("<p>Great pack</p>"));
    assert_eq!(a.technical_details.as_deref(), Some("<p>UE 5.3</p>"));
    assert_eq!(a.rating_average, Some(2_500_000));
    assert_eq!(a.rating_count, Some(42));
    assert!(a.title.is_none());
}

#[test]
fn product_page_fallbacks() {
    let html = r#"<html><body><div id="description"> Plain text </div>
        <div class="product-rating">Rating: 4.7/5</div></body></html>"#;
    let sel = OrbitalSelectors::default();
    let a = parse_asset_details_from_html(&sel, html);
    assert_eq!(a.description.as_deref(), Some("Plain text"));
    assert_eq!(a.technical_details, None);
    assert_eq!(a.rating_average, Some(4_700_000));
    assert_eq!(a.rating_count, None);
}

#[test]
fn bad_selector_is_absent_data() {
    assert_eq!(extract_text_from_element("<p class='x'>hi</p>", "[[["), None);
    assert_eq!(extract_text_from_element("<p class='x'> hi </p>", ".x"), Some("hi".to_string()));
    assert_eq!(extract_text_from_element("<p class='x'>  </p>", ".x"), None);
}

const SEARCH_PAGE: &str = r#"<html><body>
<div class="listing-card"><a href="https://orbital-market.com/listings/mage-animation-set">x</a>
  <h3>Mage Animation Set</h3><span class="price">$1,299.99</span><span class="seller">Studio</span><img src="t.png"></div>
<div class="listing-card"><span class="price">Free</span></div>
<div class="listing-card"><h3>Other</h3><span class="price">Free</span><a href="/listings/other">o</a></div>
</body></html>"#;

#[test]
fn search_results_keep_titled_items() {
    let sel = OrbitalSelectors::default();
    let v = parse_orbital_search_results(&sel, SEARCH_PAGE).unwrap();
    assert_eq!(v.len(), 2);
    assert_eq!(v[0].title.as_deref(), Some("Mage Animation Set"));
    assert_eq!(v[0].price, Some(1_299_990_000));
    assert_eq!(v[0].seller.as_deref(), Some("Studio"));
    assert_eq!(v[0].thumbnail_url.as_deref(), Some("t.png"));
    assert_eq!(v[0].product_slug.as_deref(), Some("mage-animation-set"));
    assert_eq!(v[1].title.as_deref(), Some("Other"));
    assert_eq!(v[1].price, Some(0));
    assert_eq!(v[1].product_slug, None);
    assert_eq!(v[1].source_url.as_deref(), Some("/listings/other"));
}

#[test]
fn search_results_bad_item_selector() {
    let mut sel = OrbitalSelectors::default();
    sel.search_result_item_selector = "((".to_string();
    assert_eq!(parse_orbital_search_results(&sel, SEARCH_PAGE).unwrap_err(), SearchParseError::InvalidItemSelector);
}

#[test]
fn prices() {
    assert_eq!(parse_price("$1,299.99"), Some(1_299_990_000));
    assert_eq!(parse_price(" FREE "), Some(0));
    assert_eq!(parse_price("€ 12"), Some(12_000_000));
    assert_eq!(parse_price("soon"), None);
}

#[test]
fn first_product_link() {
    let html = r#"<div class="card"><a href="/product/abc">a</a></div><div class="card"><a href="https://x.org/product/z">b</a></div>"#;
    assert_eq!(find_first_product_link(html, ".card"), Some("https://orbital-market.com/product/abc".to_string()));
    let html = r#"<div class="card"><a href="https://orbital-market.com/product/q">a</a></div>"#;
    assert_eq!(find_first_product_link(html, ".card"), Some("https://orbital-market.com/product/q".to_string()));
    assert_eq!(find_first_product_link(html, ".none"), None);
}

#[test]
fn product_ids() {
    assert_eq!(extract_product_id_from_url("https://orbital-market.com/product/cool-kit"), Some("cool-kit".to_string()));
    assert_eq!(extract_product_id_from_url("cool-kit"), None);
}

#[test]
fn genuine_pages() {
    assert!(validate_orbital_content("<p>an asset</p>"));
    assert!(!validate_orbital_content("<p>hello</p>"));
    assert!(validate_orbital_content(&"x".repeat(1001)));
    assert!(!validate_orbital_content(&"x".repeat(1000)));
}
