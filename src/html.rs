//! Extraction of listing data from marketplace HTML pages.
//!
//! The document model comes from the `scraper` crate. What it yields for a
//! page and a selector is named by the functions below; everything done with
//! those texts afterwards is verified here.
use vstd::prelude::*;
use crate::decimal::{all_digits, digits_value, decimal_micros, is_plain_decimal, parse_decimal_micros, parse_i32_digits};
use crate::listing::{OrbitalAsset, opt_view, opt_views, blank_asset, ORBITAL_BASE_URL};
use crate::text::{lemma_find_in_bounds, TrimClass, chars_of, find, find_chars, lower_of, lowercase, split_on, split_on_chars, string_from_chars, strip, strip_chars, strs, trim, trim_chars, trim_str, char_vecs, str_views, starts_with_chars, push_str_chars, contains_chars, is_infix};
use crate::SCALE;

verus! {

/// Whether `scraper::Selector::parse` accepts the selector text.
pub uninterp spec fn selector_valid(selector: Seq<char>) -> bool;

/// For each element of the parsed document that the selector matches, in
/// document order, the concatenation of its descendant text nodes.
pub uninterp spec fn html_texts(html: Seq<char>, selector: Seq<char>) -> Seq<Seq<char>>;

/// For each matched element, in document order, its inner HTML.
pub uninterp spec fn html_inner(html: Seq<char>, selector: Seq<char>) -> Seq<Seq<char>>;

/// For each matched element, in document order, the value of an attribute.
pub uninterp spec fn html_attrs(html: Seq<char>, selector: Seq<char>, attr: Seq<char>) -> Seq<
    Option<Seq<char>>,
>;

/// The number of elements that an item selector matches.
pub uninterp spec fn html_item_count(html: Seq<char>, item: Seq<char>) -> nat;

/// For each item element, the concatenated text of its descendants that the
/// inner selector matches (empty when the inner selector does not parse).
pub uninterp spec fn html_item_texts(html: Seq<char>, item: Seq<char>, inner: Seq<char>) -> Seq<
    Seq<char>,
>;

/// For each item element, an attribute of its first descendant that the inner
/// selector matches.
pub uninterp spec fn html_item_attrs(
    html: Seq<char>,
    item: Seq<char>,
    inner: Seq<char>,
    attr: Seq<char>,
) -> Seq<Option<Seq<char>>>;

/// The last path segment of a URL that `url::Url::parse` accepts.
pub uninterp spec fn last_path_segment(url: Seq<char>) -> Option<Seq<char>>;

/// Relies on scraper's `Selector::parse`, `Html::parse_document`,
/// `Html::select` and `ElementRef::text`: the text of each matched element.
#[verifier::external_body]
fn select_texts(html: &str, selector: &str) -> (r: Option<Vec<String>>)
    ensures
        r is Some <==> selector_valid(selector@),
        r is Some ==> strs(r->0@) == html_texts(html@, selector@),
{
    let sel = scraper::Selector::parse(selector).ok()?;
    let doc = scraper::Html::parse_document(html);
    Some(doc.select(&sel).map(|e| e.text().collect::<String>()).collect())
}

/// Relies on scraper's `Selector::parse`, `Html::parse_document`,
/// `Html::select` and `ElementRef::inner_html`.
#[verifier::external_body]
fn select_inner_html(html: &str, selector: &str) -> (r: Option<Vec<String>>)
    ensures
        r is Some <==> selector_valid(selector@),
        r is Some ==> strs(r->0@) == html_inner(html@, selector@),
{
    let sel = scraper::Selector::parse(selector).ok()?;
    let doc = scraper::Html::parse_document(html);
    Some(doc.select(&sel).map(|e| e.inner_html()).collect())
}

/// Relies on scraper's `Selector::parse`, `Html::parse_document`,
/// `Html::select` and `ElementRef::attr`.
#[verifier::external_body]
fn select_attrs(html: &str, selector: &str, attr: &str) -> (r: Option<Vec<Option<String>>>)
    ensures
        r is Some <==> selector_valid(selector@),
        r is Some ==> opt_views(r->0@) == html_attrs(
            html@,
            selector@,
            attr@,
        ),
{
    let sel = scraper::Selector::parse(selector).ok()?;
    let doc = scraper::Html::parse_document(html);
    Some(doc.select(&sel).map(|e| e.attr(attr).map(str::to_owned)).collect())
}

/// Relies on scraper's `Selector::parse`, `Html::parse_document`,
/// `Html::select`, `ElementRef::select` and `ElementRef::text`.
#[verifier::external_body]
fn select_item_texts(html: &str, item: &str, inner: &str) -> (r: Option<Vec<String>>)
    ensures
        r is Some <==> selector_valid(item@),
        r is Some ==> strs(r->0@) == html_item_texts(html@, item@, inner@),
        r is Some ==> r->0@.len() == html_item_count(html@, item@),
{
    let item_sel = scraper::Selector::parse(item).ok()?;
    let inner_sel = scraper::Selector::parse(inner).ok();
    let doc = scraper::Html::parse_document(html);
    Some(doc.select(&item_sel).map(|e| match &inner_sel {
        Some(s) => e.select(s).flat_map(|d| d.text()).collect::<String>(),
        None => String::new(),
    }).collect())
}

/// Relies on scraper's `Selector::parse`, `Html::parse_document`,
/// `Html::select`, `ElementRef::select` and `ElementRef::attr`.
#[verifier::external_body]
fn select_item_attrs(html: &str, item: &str, inner: &str, attr: &str) -> (r: Option<
    Vec<Option<String>>,
>)
    ensures
        r is Some <==> selector_valid(item@),
        r is Some ==> opt_views(r->0@) == html_item_attrs(
            html@,
            item@,
            inner@,
            attr@,
        ),
        r is Some ==> r->0@.len() == html_item_count(html@, item@),
{
    let item_sel = scraper::Selector::parse(item).ok()?;
    let inner_sel = scraper::Selector::parse(inner).ok();
    let doc = scraper::Html::parse_document(html);
    Some(doc.select(&item_sel).map(|e| match &inner_sel {
        Some(s) => e.select(s).next().and_then(|d| d.attr(attr)).map(str::to_owned),
        None => None,
    }).collect())
}

/// Relies on `url::Url::parse` and `Url::path_segments`: the last segment.
#[verifier::external_body]
fn url_last_segment(url: &str) -> (r: Option<String>)
    ensures
        opt_view(r) == last_path_segment(url@),
{
    url::Url::parse(url).ok().and_then(|u| u.path_segments()?.last().map(String::from))
}

/// The last path segment of an absolute URL: the product identifier.
pub fn extract_product_id_from_url(url: &str) -> (r: Option<String>)
    ensures
        opt_view(r) == last_path_segment(url@),
{
    url_last_segment(url)
}

/// CSS selectors for scraped pages, loaded once and read-only afterwards.
#[derive(Debug, Clone)]
pub struct OrbitalSelectors {
    pub search_result_item_selector: String,
    pub search_result_link_selector: String,
    pub search_result_title_selector: String,
    pub search_result_price_selector: String,
    pub search_result_seller_selector: String,
    pub search_result_image_selector: String,
    pub product_description_selector: String,
    pub product_technical_details_selector: String,
    pub product_rating_selector: String,
    pub product_rating_count_selector: String,
}

impl Default for OrbitalSelectors {
    fn default() -> (r: OrbitalSelectors)
        ensures
            r.search_result_item_selector@
                == ".listing-card, .product-card, .asset-card, [class*='card']"@,
            r.search_result_link_selector@ == "a[href*='/listings/'], a[href*='/products/']"@,
            r.search_result_title_selector@
                == "h3, h2, .title, .name, [class*='title'], [class*='name']"@,
            r.search_result_price_selector@ == ".price, [class*='price']"@,
            r.search_result_seller_selector@
                == ".seller, .author, [class*='seller'], [class*='author']"@,
            r.search_result_image_selector@ == "img"@,
            r.product_description_selector@
                == "#description, [class*='description'], #overview, [class*='overview']"@,
            r.product_technical_details_selector@
                == "#tech-details, [class*='tech-details'], #technical-details, [class*='technical-details']"@,
            r.product_rating_selector@ == "[class*='rating'] [class*='star']"@,
            r.product_rating_count_selector@
                == "[class*='rating-count'], [class*='review-count']"@,
    {
        OrbitalSelectors {
            search_result_item_selector: String::from_str(
                ".listing-card, .product-card, .asset-card, [class*='card']",
            ),
            search_result_link_selector: String::from_str(
                "a[href*='/listings/'], a[href*='/products/']",
            ),
            search_result_title_selector: String::from_str(
                "h3, h2, .title, .name, [class*='title'], [class*='name']",
            ),
            search_result_price_selector: String::from_str(".price, [class*='price']"),
            search_result_seller_selector: String::from_str(
                ".seller, .author, [class*='seller'], [class*='author']",
            ),
            search_result_image_selector: String::from_str("img"),
            product_description_selector: String::from_str(
                "#description, [class*='description'], #overview, [class*='overview']",
            ),
            product_technical_details_selector: String::from_str(
                "#tech-details, [class*='tech-details'], #technical-details, [class*='technical-details']",
            ),
            product_rating_selector: String::from_str("[class*='rating'] [class*='star']"),
            product_rating_count_selector: String::from_str(
                "[class*='rating-count'], [class*='review-count']",
            ),
        }
    }
}

// ---------------------------------------------------------------------------
// Text of a selector
/// The texts matched by a selector, or none when it does not parse.
pub open spec fn texts_of(html: Seq<char>, sel: Seq<char>) -> Seq<Seq<char>> {
    if selector_valid(sel) {
        html_texts(html, sel)
    } else {
        seq![]
    }
}

/// The trimmed text of everything a selector matches; absent when empty.
pub open spec fn selected_text(html: Seq<char>, sel: Seq<char>) -> Option<Seq<char>> {
    let t = trim(texts_of(html, sel).flatten_alt());
    if t.len() == 0 {
        None
    } else {
        Some(t)
    }
}

fn concat_strings(v: &Vec<String>) -> (r: Vec<char>)
    ensures
        r@ == strs(v@).flatten_alt(),
{
    let mut r: Vec<char> = Vec::new();
    let mut i: usize = 0;
    while i < v.len()
        invariant
            i <= v.len(),
            r@ == strs(v@.take(i as int)).flatten_alt(),
        decreases v.len() - i,
    {
        let cs = chars_of(v[i].as_str());
        let mut k: usize = 0;
        let ghost start = r@;
        while k < cs.len()
            invariant
                k <= cs.len(),
                r@ == start + cs@.take(k as int),
            decreases cs.len() - k,
        {
            r.push(cs[k]);
            k += 1;
            assert(cs@.take(k as int) == cs@.take(k - 1).push(cs[k - 1]));
        }
        assert(cs@.take(cs.len() as int) == cs@);
        assert(strs(v@.take(i + 1)).drop_last() == strs(v@.take(i as int)));
        i += 1;
    }
    assert(v@.take(v.len() as int) == v@);
    r
}

/// The trimmed text of every element that `selector_str` matches in the
/// document `html`, or nothing when that text is empty or the selector does
/// not parse.
pub fn extract_text_from_element(html: &str, selector_str: &str) -> (r: Option<String>)
    ensures
        opt_view(r) == selected_text(html@, selector_str@),
{
    let texts = match select_texts(html, selector_str) {
        Some(t) => t,
        None => Vec::new(),
    };
    let all = concat_strings(&texts);
    let t = trim_chars(&all);
    if t.len() == 0 {
        None
    } else {
        Some(string_from_chars(&t))
    }
}

/// Marks of a genuine marketplace page.
pub open spec fn content_markers() -> Seq<Seq<char>> {
    seq!["orbital-market.com"@, "Orbital Market"@, "Epic Games"@, "Unreal Engine"@, "marketplace"@, "asset"@]
}

/// A page is genuine when it mentions one of the markers or is longer than
/// a thousand bytes.
pub open spec fn genuine_page(html: &str) -> bool {
    (exists|i: int| 0 <= i < content_markers().len() && is_infix(#[trigger] content_markers()[i], html@))
        || html.len() > 1000
}

pub fn validate_orbital_content(html: &str) -> (r: bool)
    ensures
        r == genuine_page(html),
{
    let markers = vec!["orbital-market.com", "Orbital Market", "Epic Games", "Unreal Engine", "marketplace", "asset"];
    assert(str_views(markers@) =~= content_markers());
    let hay = chars_of(html);
    let mut i: usize = 0;
    while i < markers.len()
        invariant
            i <= markers.len(),
            hay@ == html@,
            str_views(markers@) == content_markers(),
            forall|j: int| 0 <= j < i ==> !is_infix(#[trigger] content_markers()[j], html@),
        decreases markers.len() - i,
    {
        assert(content_markers()[i as int] == markers@[i as int]@);
        if contains_chars(&hay, &chars_of(markers[i])) {
            return true;
        }
        i += 1;
    }
    html.len() > 1000
}

// ---------------------------------------------------------------------------
// Tabbed description panels
pub const TAB_SELECTOR: &'static str = ".tabs-bar .tab";

pub const PANEL_SELECTOR: &'static str = ".tabs-content > div";

/// Tab labels, trimmed and lowercased.
pub open spec fn tab_labels(html: Seq<char>) -> Seq<Seq<char>> {
    texts_of(html, TAB_SELECTOR@).map_values(|t: Seq<char>| lower_of(trim(t)))
}

pub open spec fn tab_panels(html: Seq<char>) -> Seq<Seq<char>> {
    if selector_valid(PANEL_SELECTOR@) {
        html_inner(html, PANEL_SELECTOR@)
    } else {
        seq![]
    }
}

/// The first index holding `x`, searching from `i`.
pub open spec fn first_index_from(xs: Seq<Seq<char>>, x: Seq<char>, i: int) -> Option<int>
    decreases xs.len() - i,
{
    if i < 0 || i >= xs.len() {
        None
    } else if xs[i] == x {
        Some(i)
    } else {
        first_index_from(xs, x, i + 1)
    }
}

/// The panel under the first tab with this label, or empty.
pub open spec fn tab_content(labels: Seq<Seq<char>>, panels: Seq<Seq<char>>, label: Seq<char>) -> Seq<
    char,
> {
    match first_index_from(labels, label, 0) {
        Some(i) => if i < panels.len() {
            panels[i]
        } else {
            seq![]
        },
        None => seq![],
    }
}

fn tab_content_exec(labels: &Vec<String>, panels: &Vec<String>, label: &str) -> (r: Vec<char>)
    ensures
        r@ == tab_content(strs(labels@), strs(panels@), label@),
{
    let ghost ls = strs(labels@);
    let target = String::from_str(label);
    let mut i: usize = 0;
    while i < labels.len()
        invariant
            i <= labels.len(),
            ls == strs(labels@),
            target@ == label@,
            first_index_from(ls, label@, 0) == first_index_from(ls, label@, i as int),
        decreases labels.len() - i,
    {
        assert(ls[i as int] == labels@[i as int]@);
        if labels[i].eq(&target) {
            if i < panels.len() {
                assert(strs(panels@)[i as int] == panels@[i as int]@);
                return chars_of(panels[i].as_str());
            } else {
                return Vec::new();
            }
        }
        i += 1;
    }
    Vec::new()
}

// ---------------------------------------------------------------------------
// Rating count
pub open spec fn count_selectors() -> Seq<Seq<char>> {
    seq![
        ".product-header__rating .total"@,
        ".rating-count"@,
        ".review-count"@,
        "[class*='rating'] [class*='count']"@,
        "[class*='review'] [class*='count']"@,
    ]
}

/// Non-numeric characters stripped from both ends, then read as an `i32`.
pub open spec fn count_in_text(t: Seq<char>) -> Option<i32> {
    let d = strip(t, TrimClass::NotNumeric);
    if d.len() > 0 && all_digits(d) && digits_value(d) <= i32::MAX {
        Some(digits_value(d) as i32)
    } else {
        None
    }
}

pub open spec fn first_count_from(html: Seq<char>, sels: Seq<Seq<char>>, i: int) -> Option<i32>
    decreases sels.len() - i,
{
    if i < 0 || i >= sels.len() {
        None
    } else {
        match selected_text(html, sels[i]) {
            Some(t) => match count_in_text(t) {
                Some(c) => Some(c),
                None => first_count_from(html, sels, i + 1),
            },
            None => first_count_from(html, sels, i + 1),
        }
    }
}

fn count_selector_list() -> (r: Vec<&'static str>)
    ensures
        str_views(r@) == count_selectors(),
{
    let r = vec![
        ".product-header__rating .total",
        ".rating-count",
        ".review-count",
        "[class*='rating'] [class*='count']",
        "[class*='review'] [class*='count']",
    ];
    assert(str_views(r@) =~= count_selectors());
    r
}

fn count_from_text(t: &str) -> (r: Option<i32>)
    ensures
        r == count_in_text(t@),
{
    let cs = chars_of(t);
    let d = strip_chars(&cs, TrimClass::NotNumeric);
    parse_i32_digits(&d)
}

fn rating_count_of(html: &str) -> (r: Option<i32>)
    ensures
        r == first_count_from(html@, count_selectors(), 0),
{
    let sels = count_selector_list();
    let ghost ss = count_selectors();
    let mut i: usize = 0;
    while i < sels.len()
        invariant
            i <= sels.len(),
            ss == str_views(sels@),
            ss == count_selectors(),
            first_count_from(html@, ss, 0) == first_count_from(html@, ss, i as int),
        decreases sels.len() - i,
    {
        assert(ss[i as int] == sels@[i as int]@);
        if let Some(t) = extract_text_from_element(html, sels[i]) {
            assert(selected_text(html@, ss[i as int]) == Some(t@));
            if let Some(c) = count_from_text(t.as_str()) {
                assert(count_in_text(t@) == Some(c));
                assert(first_count_from(html@, ss, i as int) == Some(c));
                return Some(c);
            }
        }
        i += 1;
    }
    None
}

// ---------------------------------------------------------------------------
// Star widths
pub open spec fn star_selectors() -> Seq<Seq<char>> {
    seq![
        ".rating.hasRatings.stars .star .front"@,
        ".product-header__rating .rating .star .front"@,
        ".rating .star .front"@,
        "[class*='rating'] [class*='star'] .front"@,
        ".stars .star .front"@,
    ]
}

/// Truncating division, as machine integers divide.
pub open spec fn div_trunc(a: int, b: int) -> int {
    if a >= 0 {
        a / b
    } else {
        -((-a) / b)
    }
}

/// The `width: N%` declaration of an inline style, as a fraction in
/// millionths (`80%` is `800_000`).
pub open spec fn width_fraction(style: Seq<char>) -> Option<int> {
    match find("width"@, style) {
        None => None,
        Some(w) => {
            let part = style.skip(w);
            match find(":"@, part) {
                None => None,
                Some(c) => {
                    let value = part.skip(c + 1);
                    match find("%"@, value) {
                        None => None,
                        Some(p) => {
                            let num = trim(value.take(p));
                            if is_plain_decimal(num) {
                                Some(div_trunc(decimal_micros(num), 100))
                            } else {
                                None
                            }
                        },
                    }
                },
            }
        },
    }
}

fn skip_chars(v: &Vec<char>, from: usize) -> (r: Vec<char>)
    requires
        from <= v.len(),
    ensures
        r@ == v@.skip(from as int),
{
    let mut r: Vec<char> = Vec::new();
    let mut i = from;
    while i < v.len()
        invariant
            from <= i <= v.len(),
            r@ == v@.subrange(from as int, i as int),
        decreases v.len() - i,
    {
        r.push(v[i]);
        i += 1;
    }
    r
}

fn take_chars(v: &Vec<char>, n: usize) -> (r: Vec<char>)
    requires
        n <= v.len(),
    ensures
        r@ == v@.take(n as int),
{
    let mut r: Vec<char> = Vec::new();
    let mut i: usize = 0;
    while i < n
        invariant
            i <= n <= v.len(),
            r@ == v@.take(i as int),
        decreases n - i,
    {
        r.push(v[i]);
        i += 1;
    }
    r
}

fn extract_width_percentage(style: &str) -> (r: Option<i64>)
    ensures
        match r {
            Some(x) => width_fraction(style@) == Some(x as int),
            None => width_fraction(style@) is None,
        },
{
    let s = chars_of(style);
    proof {
        reveal_strlit("width");
        reveal_strlit(":");
        reveal_strlit("%");
    }
    let width = chars_of("width");
    let colon = chars_of(":");
    let pct = chars_of("%");
    let w = match find_chars(&s, &width) {
        Some(w) => w,
        None => return None,
    };
    proof {
        lemma_find_in_bounds(width@, s@);
    }
    let part = skip_chars(&s, w);
    let c = match find_chars(&part, &colon) {
        Some(c) => c,
        None => return None,
    };
    proof {
        lemma_find_in_bounds(colon@, part@);
    }
    assert(colon@.len() == 1);
    assert(c + 1 <= part.len());
    let value = skip_chars(&part, c + 1);
    let p = match find_chars(&value, &pct) {
        Some(p) => p,
        None => return None,
    };
    proof {
        lemma_find_in_bounds(pct@, value@);
    }
    let num = trim_chars(&take_chars(&value, p));
    match parse_decimal_micros(&num) {
        Some(m) => {
            let q = if m >= 0 {
                m / 100
            } else {
                -((-m) / 100)
            };
            Some(q)
        },
        None => None,
    }
}

/// Widths of the styles that have one, in order.
pub open spec fn widths_of(styles: Seq<Option<Seq<char>>>) -> Seq<int>
    decreases styles.len(),
{
    if styles.len() == 0 {
        seq![]
    } else {
        let rest = widths_of(styles.drop_last());
        match styles.last() {
            Some(st) => match width_fraction(st) {
                Some(w) => rest.push(w),
                None => rest,
            },
            None => rest,
        }
    }
}

pub open spec fn clamp_i64(x: int) -> int {
    if x > i64::MAX {
        i64::MAX as int
    } else if x < i64::MIN {
        i64::MIN as int
    } else {
        x
    }
}

/// Running sum, held within the range of `i64` after each step.
pub open spec fn saturating_sum(xs: Seq<int>) -> int
    decreases xs.len(),
{
    if xs.len() == 0 {
        0
    } else {
        clamp_i64(saturating_sum(xs.drop_last()) + xs.last())
    }
}

pub open spec fn styles_of(html: Seq<char>, sel: Seq<char>) -> Seq<Option<Seq<char>>> {
    if selector_valid(sel) {
        html_attrs(html, sel, "style"@)
    } else {
        seq![]
    }
}

/// The star rating of the first selector whose stars carry widths: the sum
/// of the widths.
pub open spec fn star_rating_from(html: Seq<char>, sels: Seq<Seq<char>>, i: int) -> Option<int>
    decreases sels.len() - i,
{
    if i < 0 || i >= sels.len() {
        None
    } else {
        let ws = widths_of(styles_of(html, sels[i]));
        if ws.len() > 0 {
            Some(saturating_sum(ws))
        } else {
            star_rating_from(html, sels, i + 1)
        }
    }
}

fn star_selector_list() -> (r: Vec<&'static str>)
    ensures
        str_views(r@) == star_selectors(),
{
    let r = vec![
        ".rating.hasRatings.stars .star .front",
        ".product-header__rating .rating .star .front",
        ".rating .star .front",
        "[class*='rating'] [class*='star'] .front",
        ".stars .star .front",
    ];
    assert(str_views(r@) =~= star_selectors());
    r
}

/// The widths found in the styles, and their saturating sum.
fn sum_widths(styles: &Vec<Option<String>>) -> (r: (usize, i64))
    ensures
        r.0 == widths_of(opt_views(styles@)).len(),
        r.1 == saturating_sum(widths_of(opt_views(styles@))),
{
    let ghost all = opt_views(styles@);
    let mut n: usize = 0;
    let mut total: i64 = 0;
    let mut i: usize = 0;
    while i < styles.len()
        invariant
            i <= styles.len(),
            all == opt_views(styles@),
            n == widths_of(all.take(i as int)).len(),
            n <= i,
            total == saturating_sum(widths_of(all.take(i as int))),
        decreases styles.len() - i,
    {
        assert(all.take(i + 1).drop_last() == all.take(i as int));
        assert(all.take(i + 1).last() == opt_view(styles@[i as int]));
        match &styles[i] {
            Some(st) => {
                match extract_width_percentage(st.as_str()) {
                    Some(w) => {
                        assert(widths_of(all.take(i + 1)) == widths_of(all.take(i as int)).push(
                            w as int,
                        ));
                        assert(widths_of(all.take(i + 1)).drop_last() == widths_of(
                            all.take(i as int),
                        ));
                        let t = total as i128 + w as i128;
                        total = if t > i64::MAX as i128 {
                            i64::MAX
                        } else if t < i64::MIN as i128 {
                            i64::MIN
                        } else {
                            t as i64
                        };
                        n += 1;
                    },
                    None => {},
                }
            },
            None => {},
        }
        i += 1;
    }
    assert(all.take(styles.len() as int) == all);
    (n, total)
}

fn star_rating_of(html: &str) -> (r: Option<i64>)
    ensures
        match r {
            Some(x) => star_rating_from(html@, star_selectors(), 0) == Some(x as int),
            None => star_rating_from(html@, star_selectors(), 0) is None,
        },
{
    let sels = star_selector_list();
    let ghost ss = star_selectors();
    let mut i: usize = 0;
    while i < sels.len()
        invariant
            i <= sels.len(),
            ss == str_views(sels@),
            ss == star_selectors(),
            star_rating_from(html@, ss, 0) == star_rating_from(html@, ss, i as int),
        decreases sels.len() - i,
    {
        assert(ss[i as int] == sels@[i as int]@);
        let styles = match select_attrs(html, sels[i], "style") {
            Some(v) => v,
            None => Vec::new(),
        };
        assert(opt_views(styles@) =~= styles_of(
            html@,
            ss[i as int],
        ));
        let (n, total) = sum_widths(&styles);
        if n > 0 {
            return Some(total);
        }
        i += 1;
    }
    None
}

// ---------------------------------------------------------------------------
// Rating written as text
pub open spec fn text_rating_selectors() -> Seq<Seq<char>> {
    seq![
        ".rating-value"@,
        ".average-rating"@,
        ".product-rating"@,
        "[class*='rating'] [class*='value']"@,
    ]
}

pub open spec fn rating_delimiters() -> Seq<char> {
    seq![' ', ':', '/', '\t', '\n']
}

/// The first piece that reads as a rating between zero and five.
pub open spec fn first_rating_piece(ps: Seq<Seq<char>>, i: int) -> Option<int>
    decreases ps.len() - i,
{
    if i < 0 || i >= ps.len() {
        None
    } else if is_plain_decimal(ps[i]) && 0 <= decimal_micros(ps[i]) <= 5 * SCALE {
        Some(decimal_micros(ps[i]))
    } else {
        first_rating_piece(ps, i + 1)
    }
}

/// A rating read from text such as `4.7`, `4.7/5` or `Rating: 4.7`.
pub open spec fn rating_in_text(t: Seq<char>) -> Option<int> {
    first_rating_piece(split_on(lower_of(trim(t)), rating_delimiters()), 0)
}

fn extract_rating_from_text(t: &str) -> (r: Option<i64>)
    ensures
        match r {
            Some(x) => rating_in_text(t@) == Some(x as int),
            None => rating_in_text(t@) is None,
        },
{
    let trimmed = trim_str(t);
    let lower = lowercase(trimmed.as_str());
    let cs = chars_of(lower.as_str());
    let delims = vec![' ', ':', '/', '\t', '\n'];
    assert(delims@ =~= rating_delimiters());
    let pieces = split_on_chars(&cs, &delims);
    let ghost ps = char_vecs(pieces@);
    let mut i: usize = 0;
    while i < pieces.len()
        invariant
            i <= pieces.len(),
            ps == char_vecs(pieces@),
            ps == split_on(lower_of(trim(t@)), rating_delimiters()),
            first_rating_piece(ps, 0) == first_rating_piece(ps, i as int),
        decreases pieces.len() - i,
    {
        assert(ps[i as int] == pieces@[i as int]@);
        if let Some(v) = parse_decimal_micros(&pieces[i]) {
            if 0 <= v && v <= 5 * SCALE as i64 {
                return Some(v);
            }
        }
        i += 1;
    }
    None
}

pub open spec fn text_rating_from(html: Seq<char>, sels: Seq<Seq<char>>, i: int) -> Option<int>
    decreases sels.len() - i,
{
    if i < 0 || i >= sels.len() {
        None
    } else {
        match selected_text(html, sels[i]) {
            Some(t) => match rating_in_text(t) {
                Some(r) => Some(r),
                None => text_rating_from(html, sels, i + 1),
            },
            None => text_rating_from(html, sels, i + 1),
        }
    }
}

fn text_rating_of(html: &str) -> (r: Option<i64>)
    ensures
        match r {
            Some(x) => text_rating_from(html@, text_rating_selectors(), 0) == Some(x as int),
            None => text_rating_from(html@, text_rating_selectors(), 0) is None,
        },
{
    let sels = vec![
        ".rating-value",
        ".average-rating",
        ".product-rating",
        "[class*='rating'] [class*='value']",
    ];
    let ghost ss = text_rating_selectors();
    assert(str_views(sels@) =~= ss);
    let mut i: usize = 0;
    while i < sels.len()
        invariant
            i <= sels.len(),
            ss == str_views(sels@),
            ss == text_rating_selectors(),
            text_rating_from(html@, ss, 0) == text_rating_from(html@, ss, i as int),
        decreases sels.len() - i,
    {
        assert(ss[i as int] == sels@[i as int]@);
        if let Some(t) = extract_text_from_element(html, sels[i]) {
            if let Some(v) = extract_rating_from_text(t.as_str()) {
                return Some(v);
            }
        }
        i += 1;
    }
    None
}

// ---------------------------------------------------------------------------
// Product page
/// What a product page yields for the fields it supplies.
pub open spec fn page_content(html: Seq<char>, sel: OrbitalSelectors, r: OrbitalAsset) -> bool {
    let labels = tab_labels(html);
    let panels = tab_panels(html);
    let desc = tab_content(labels, panels, "detailed description"@);
    let tech = tab_content(labels, panels, "technical description"@);
    &&& opt_view(r.description) == if desc.len() > 0 {
        Some(desc)
    } else {
        selected_text(html, sel.product_description_selector@)
    }
    &&& opt_view(r.technical_details) == if tech.len() > 0 {
        Some(tech)
    } else {
        selected_text(html, sel.product_technical_details_selector@)
    }
    &&& r.rating_count == first_count_from(html, count_selectors(), 0)
    &&& match star_rating_from(html, star_selectors(), 0) {
        Some(x) => r.rating_average == Some(x as i64),
        None => match text_rating_from(html, text_rating_selectors(), 0) {
            Some(x) => r.rating_average == Some(x as i64),
            None => r.rating_average is None,
        },
    }
}

/// The fields that a product page never supplies are absent.
pub open spec fn page_rest_blank(r: OrbitalAsset) -> bool {
    &&& r.id is None && r.title is None && r.seller is None
    &&& r.categories@.len() == 0 && r.supported_versions@.len() == 0
    &&& r.gallery_images@.len() == 0
    &&& r.price is None && r.release_date is None && r.last_modified is None
    &&& r.raw_json is None && r.thumbnail_url is None
}

/// What a product page yields: descriptions from the tabbed panels or, failing
/// that, from the configured selectors; the rating count; the rating from star
/// widths or, failing that, from rating text. Nothing else is filled in.
pub open spec fn page_details(html: Seq<char>, sel: OrbitalSelectors, r: OrbitalAsset) -> bool {
    &&& page_content(html, sel, r)
    &&& page_rest_blank(r)
    &&& r.product_slug is None && r.source_url is None
}

fn normalized_tab_labels(html: &str) -> (r: Vec<String>)
    ensures
        strs(r@) == tab_labels(html@),
{
    let raw = match select_texts(html, TAB_SELECTOR) {
        Some(v) => v,
        None => Vec::new(),
    };
    let ghost rv = strs(raw@);
    assert(rv == texts_of(html@, TAB_SELECTOR@));
    let mut r: Vec<String> = Vec::new();
    let mut i: usize = 0;
    while i < raw.len()
        invariant
            i <= raw.len(),
            rv == strs(raw@),
            strs(r@) == rv.take(i as int).map_values(|t: Seq<char>| lower_of(trim(t))),
        decreases raw.len() - i,
    {
        let t = trim_str(raw[i].as_str());
        let l = lowercase(t.as_str());
        let ghost before = r@;
        r.push(l);
        assert(strs(r@) =~= strs(before).push(l@));
        assert(rv.take(i + 1) == rv.take(i as int).push(rv[i as int]));
        i += 1;
    }
    assert(rv.take(raw.len() as int) == rv);
    r
}

/// Reads the description panels and the rating of a product page. Selectors
/// that fail to parse or match leave their fields absent.
pub fn parse_asset_details_from_html(selectors: &OrbitalSelectors, html_content: &str) -> (r:
    OrbitalAsset)
    ensures
        page_details(html_content@, *selectors, r),
{
    let mut asset = blank_asset();
    let labels = normalized_tab_labels(html_content);
    let panels = match select_inner_html(html_content, PANEL_SELECTOR) {
        Some(v) => v,
        None => Vec::new(),
    };
    assert(strs(panels@) == tab_panels(html_content@));
    let desc = tab_content_exec(&labels, &panels, "detailed description");
    let tech = tab_content_exec(&labels, &panels, "technical description");
    asset.description = if desc.len() > 0 {
        Some(string_from_chars(&desc))
    } else {
        extract_text_from_element(html_content, selectors.product_description_selector.as_str())
    };
    asset.technical_details = if tech.len() > 0 {
        Some(string_from_chars(&tech))
    } else {
        extract_text_from_element(
            html_content,
            selectors.product_technical_details_selector.as_str(),
        )
    };
    asset.rating_count = rating_count_of(html_content);
    asset.rating_average = match star_rating_of(html_content) {
        Some(x) => Some(x),
        None => text_rating_of(html_content),
    };
    asset
}

// ---------------------------------------------------------------------------
// Search results
/// Why a page of search results could not be read.
#[derive(Debug, Clone, Copy, PartialEq, Eq)]
pub enum SearchParseError {
    /// The configured item selector does not parse.
    InvalidItemSelector,
}

pub open spec fn is_price_mark(c: char) -> bool {
    c == '$' || c == '€' || c == '£' || c == ',' || c == ' '
}

pub open spec fn without_price_marks(s: Seq<char>) -> Seq<char> {
    s.filter(|c: char| !is_price_mark(c))
}

/// A price read from text such as `$12.99` or `Free`, in millionths.
pub open spec fn price_in_text(t: Seq<char>) -> Option<int> {
    let c = lower_of(trim(without_price_marks(t)));
    if c == "free"@ {
        Some(0)
    } else if is_plain_decimal(c) {
        Some(decimal_micros(c))
    } else {
        None
    }
}

/// Reads a displayed price: currency marks, commas and spaces are dropped and
/// `free` is zero.
pub fn parse_price(price_str: &str) -> (r: Option<i64>)
    ensures
        match r {
            Some(x) => price_in_text(price_str@) == Some(x as int),
            None => price_in_text(price_str@) is None,
        },
{
    let cs = chars_of(price_str);
    let mut kept: Vec<char> = Vec::new();
    let mut i: usize = 0;
    while i < cs.len()
        invariant
            i <= cs.len(),
            cs@ == price_str@,
            kept@ == without_price_marks(cs@.take(i as int)),
        decreases cs.len() - i,
    {
        let c = cs[i];
        assert(cs@.take(i + 1).drop_last() == cs@.take(i as int));
        assert(cs@.take(i + 1).last() == c);
        let ghost pre = cs@.take(i as int);
        assert(without_price_marks(cs@.take(i + 1)) == if !is_price_mark(c) {
            without_price_marks(pre).push(c)
        } else {
            without_price_marks(pre)
        }) by {
            reveal_with_fuel(Seq::filter, 2);
        }
        if !(c == '$' || c == '€' || c == '£' || c == ',' || c == ' ') {
            kept.push(c);
        }
        i += 1;
    }
    assert(cs@.take(cs.len() as int) == cs@);
    let t = string_from_chars(&trim_chars(&kept));
    let lower = lowercase(t.as_str());
    let free = String::from_str("free");
    if lower.eq(&free) {
        return Some(0);
    }
    let lc = chars_of(lower.as_str());
    parse_decimal_micros(&lc)
}

/// An item's text under an inner selector, trimmed; absent when empty.
pub open spec fn item_text(html: Seq<char>, item: Seq<char>, inner: Seq<char>, i: int) -> Option<
    Seq<char>,
> {
    let t = trim(html_item_texts(html, item, inner)[i]);
    if t.len() == 0 {
        None
    } else {
        Some(t)
    }
}

/// The listing summary that search result item `i` yields.
pub open spec fn search_item(html: Seq<char>, sel: OrbitalSelectors, i: int, a: OrbitalAsset) -> bool {
    let item = sel.search_result_item_selector@;
    let link = html_item_attrs(html, item, sel.search_result_link_selector@, "href"@)[i];
    &&& opt_view(a.title) == item_text(html, item, sel.search_result_title_selector@, i)
    &&& match item_text(html, item, sel.search_result_price_selector@, i) {
        Some(t) => match price_in_text(t) {
            Some(p) => a.price == Some(p as i64),
            None => a.price is None,
        },
        None => a.price is None,
    }
    &&& opt_view(a.seller) == item_text(html, item, sel.search_result_seller_selector@, i)
    &&& opt_view(a.thumbnail_url) == html_item_attrs(
        html,
        item,
        sel.search_result_image_selector@,
        "src"@,
    )[i]
    &&& opt_view(a.source_url) == link
    &&& opt_view(a.product_slug) == match link {
        Some(l) => last_path_segment(l),
        None => None,
    }
    &&& a.id is None && a.description is None && a.technical_details is None
    &&& a.categories@.len() == 0 && a.supported_versions@.len() == 0
    &&& a.gallery_images@.len() == 0
    &&& a.rating_average is None && a.rating_count is None
    &&& a.release_date is None && a.last_modified is None && a.raw_json is None
}

/// The indices below `n` of the items that have a title, in order.
pub open spec fn titled_items(html: Seq<char>, sel: OrbitalSelectors, n: int) -> Seq<int>
    decreases n,
{
    if n <= 0 {
        seq![]
    } else {
        let rest = titled_items(html, sel, n - 1);
        if item_text(html, sel.search_result_item_selector@, sel.search_result_title_selector@, n - 1)
            is Some {
            rest.push(n - 1)
        } else {
            rest
        }
    }
}

fn trimmed_nonempty(s: &String) -> (r: Option<String>)
    ensures
        opt_view(r) == if trim(s@).len() == 0 {
            None::<Seq<char>>
        } else {
            Some(trim(s@))
        },
{
    let t = trim_chars(&chars_of(s.as_str()));
    if t.len() == 0 {
        None
    } else {
        Some(string_from_chars(&t))
    }
}

fn take_item_texts(html: &str, item: &str, inner: &str) -> (r: Vec<String>)
    requires
        selector_valid(item@),
    ensures
        strs(r@) == html_item_texts(html@, item@, inner@),
        r@.len() == html_item_count(html@, item@),
{
    match select_item_texts(html, item, inner) {
        Some(v) => v,
        None => Vec::new(),
    }
}

fn take_item_attrs(html: &str, item: &str, inner: &str, attr: &str) -> (r: Vec<Option<String>>)
    requires
        selector_valid(item@),
    ensures
        opt_views(r@) == html_item_attrs(html@, item@, inner@, attr@),
        r@.len() == html_item_count(html@, item@),
{
    match select_item_attrs(html, item, inner, attr) {
        Some(v) => v,
        None => Vec::new(),
    }
}

/// One listing per search result item that has a title, in page order.
pub open spec fn search_listings(html: Seq<char>, sel: OrbitalSelectors, v: Seq<OrbitalAsset>) -> bool {
    let n = html_item_count(html, sel.search_result_item_selector@);
    let kept = titled_items(html, sel, n as int);
    &&& v.len() == kept.len()
    &&& forall|j: int| 0 <= j < kept.len() ==> search_item(html, sel, #[trigger] kept[j], v[j])
}

/// Reads the listing summaries of a search results page: one per item that
/// has a title, in page order.
pub fn parse_orbital_search_results(selectors: &OrbitalSelectors, html_content: &str) -> (r:
    Result<Vec<OrbitalAsset>, SearchParseError>)
    ensures
        r is Err <==> !selector_valid(selectors.search_result_item_selector@),
        r is Ok ==> search_listings(html_content@, *selectors, r->Ok_0@),
{
    let item = selectors.search_result_item_selector.as_str();
    let titles = match select_item_texts(html_content, item, selectors.search_result_title_selector.as_str()) {
        Some(v) => v,
        None => return Err(SearchParseError::InvalidItemSelector),
    };
    let prices = take_item_texts(html_content, item, selectors.search_result_price_selector.as_str());
    let sellers = take_item_texts(html_content, item, selectors.search_result_seller_selector.as_str());
    let images = take_item_attrs(html_content, item, selectors.search_result_image_selector.as_str(), "src");
    let links = take_item_attrs(html_content, item, selectors.search_result_link_selector.as_str(), "href");
    let ghost h = html_content@;
    let ghost sel = *selectors;
    let n = titles.len();
    let mut out: Vec<OrbitalAsset> = Vec::new();
    let mut i: usize = 0;
    while i < n
        invariant
            i <= n,
            n == titles@.len() == prices@.len() == sellers@.len() == images@.len() == links@.len(),
            n == html_item_count(h, sel.search_result_item_selector@),
            h == html_content@,
            sel == *selectors,
            item@ == sel.search_result_item_selector@,
            strs(titles@) == html_item_texts(h, item@, sel.search_result_title_selector@),
            strs(prices@) == html_item_texts(h, item@, sel.search_result_price_selector@),
            strs(sellers@) == html_item_texts(h, item@, sel.search_result_seller_selector@),
            opt_views(images@) == html_item_attrs(h, item@, sel.search_result_image_selector@, "src"@),
            opt_views(links@) == html_item_attrs(h, item@, sel.search_result_link_selector@, "href"@),
            out@.len() == titled_items(h, sel, i as int).len(),
            forall|j: int|
                0 <= j < out@.len() ==> search_item(h, sel, #[trigger] titled_items(h, sel, i as int)[j], out@[j]),
        decreases n - i,
    {
        assert(strs(titles@)[i as int] == titles@[i as int]@);
        assert(strs(prices@)[i as int] == prices@[i as int]@);
        assert(strs(sellers@)[i as int] == sellers@[i as int]@);
        assert(opt_views(images@)[i as int] == opt_view(images@[i as int]));
        assert(opt_views(links@)[i as int] == opt_view(links@[i as int]));
        let ghost before = out@;
        let ghost prev = titled_items(h, sel, i as int);
        match trimmed_nonempty(&titles[i]) {
            Some(title) => {
                let mut a = blank_asset();
                a.title = Some(title);
                a.price = match trimmed_nonempty(&prices[i]) {
                    Some(p) => parse_price(p.as_str()),
                    None => None,
                };
                a.seller = trimmed_nonempty(&sellers[i]);
                a.thumbnail_url = match &images[i] {
                    Some(u) => Some(u.clone()),
                    None => None,
                };
                match &links[i] {
                    Some(l) => {
                        a.product_slug = extract_product_id_from_url(l.as_str());
                        a.source_url = Some(l.clone());
                    },
                    None => {},
                }
                out.push(a);
                assert(titled_items(h, sel, i + 1) == prev.push(i as int));
                assert forall|j: int| 0 <= j < out@.len() implies search_item(h, sel, #[trigger] titled_items(h, sel, i + 1)[j], out@[j]) by {
                    if j < before.len() {
                        assert(titled_items(h, sel, i + 1)[j] == prev[j]);
                    }
                }
            },
            None => {
                assert(titled_items(h, sel, i + 1) == prev);
            },
        }
        i += 1;
    }
    Ok(out)
}

/// The selector of product links inside a search result item.
pub const PRODUCT_LINK_SELECTOR: &'static str = "a[href*='/product/']";

/// The link of the first search result item, made absolute.
pub open spec fn first_product_link(html: Seq<char>, item: Seq<char>) -> Option<Seq<char>> {
    if !selector_valid(item) || html_item_count(html, item) == 0 {
        None
    } else {
        match html_item_attrs(html, item, PRODUCT_LINK_SELECTOR@, "href"@)[0] {
            Some(h) => Some(
                if "http"@.is_prefix_of(h) {
                    h
                } else {
                    ORBITAL_BASE_URL@ + h
                },
            ),
            None => None,
        }
    }
}

/// The product link of the first item that `item_selector_str` matches.
pub fn find_first_product_link(html_content: &str, item_selector_str: &str) -> (r: Option<String>)
    ensures
        opt_view(r) == first_product_link(html_content@, item_selector_str@),
{
    let links = match select_item_attrs(html_content, item_selector_str, PRODUCT_LINK_SELECTOR, "href") {
        Some(v) => v,
        None => return None,
    };
    if links.len() == 0 {
        return None;
    }
    assert(opt_views(links@)[0] == opt_view(links@[0]));
    match &links[0] {
        Some(h) => {
            let hc = chars_of(h.as_str());
            let http = chars_of("http");
            if starts_with_chars(&hc, &http) {
                Some(string_from_chars(&hc))
            } else {
                let mut out: Vec<char> = Vec::new();
                push_str_chars(&mut out, ORBITAL_BASE_URL);
                push_str_chars(&mut out, h.as_str());
                Some(string_from_chars(&out))
            }
        },
        None => None,
    }
}

} // verus!
