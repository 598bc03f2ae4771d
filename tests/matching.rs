use omnidex::listing::OrbitalAsset;
use omnidex::matching::{manual_match, AssetMatcher, LocalAsset, MatchStrength, MatchType};
use omnidex::SCALE;

fn jw_micros(a: &str, b: &str) -> u64 {
    let ca = AssetMatcher::clean_name(a);
    let cb = AssetMatcher::clean_name(b);
    (strsim::jaro_winkler(&ca, &cb) * 1_000_000.0).round() as u64
}

fn local(name: &str, kind: &str) -> LocalAsset {
    LocalAsset { id: Some(7), name: name.to_string(), asset_type: kind.to_string(), file_size: 0, file_hash: None }
}

fn titled(title: &str) -> OrbitalAsset {
    let mut a = OrbitalAsset::default();
    a.title = Some(title.to_string());
    a
}

#[test]
fn threshold_boundaries() {
    let m = AssetMatcher::new();
    assert_eq!(m.determine_match_type(950_000), MatchType::Exact);
    assert_eq!(m.determine_match_type(949_990), MatchType::HighConfidence);
    assert_eq!(m.determine_match_type(850_000), MatchType::HighConfidence);
    assert_eq!(m.determine_match_type(700_000), MatchType::MediumConfidence);
    assert_eq!(m.determine_match_type(500_000), MatchType::LowConfidence);
    assert_eq!(m.determine_match_type(499_999), MatchType::NoMatch);
}

#[test]
fn manual_match_is_certain() {
    let r = manual_match(3, titled("Anything"));
    assert_eq!(r.match_confidence, SCALE);
    assert_eq!(r.match_type, MatchType::Manual);
    assert_eq!(r.local_asset_id, 3);
}

#[test]
fn weighted_confidence_exact_value() {
    let m = AssetMatcher::new();
    let mut c = titled("Big Forest");
    c.categories = vec!["Animation Packs".to_string()];
    c.description = Some("A forest of trees".to_string());
    let l = local("Big Forest", "animation");
    assert_eq!(m.calculate_description_similarity(&l, "A forest of trees"), 500_000);
    assert_eq!(m.calculate_match_confidence(&l, &c, 900_000), 840_000);
    let r = m.generate_match_reasons(&l, &c, 840_000, 900_000);
    assert_eq!(r, vec!["High name similarity: 90.0%", "Compatible asset type", "Overall confidence: 84.0%"]);
}

#[test]
fn untitled_candidate_scores_on_category_alone() {
    let m = AssetMatcher::new();
    let mut c = OrbitalAsset::default();
    c.categories = vec!["audio".to_string()];
    assert_eq!(m.calculate_match_confidence(&local("X", "Audio"), &c, 0), SCALE);
    assert_eq!(m.calculate_match_confidence(&local("X", "vfx"), &c, 0), 0);
}

#[test]
fn keywords_and_cleaning() {
    let m = AssetMatcher::new();
    assert_eq!(m.extract_keywords("The Big (Forest) Pack v2"), vec!["the", "big", "forest", "pack"]);
    assert_eq!(m.clean_string(" My_Asset--Pack "), "my asset pack");
    assert!(m.asset_types_compatible("Anim", &vec!["Characters".to_string(), "ANIMATION".to_string()]));
}

#[test]
fn scoring_is_deterministic_and_order_independent() {
    let m = AssetMatcher::new();
    let l = local("Forest Pack", "environment");
    let names = ["Forest Pack", "Desert Kit", "Forest Pack Deluxe"];
    let cands: Vec<OrbitalAsset> = names.iter().map(|n| titled(n)).collect();
    let sims: Vec<u64> = names.iter().map(|n| jw_micros("Forest Pack", n)).collect();
    let a = m.calculate_match_confidence(&l, &cands[2], sims[2]);
    let b = m.calculate_match_confidence(&l, &cands[2], sims[2]);
    assert_eq!(a, b);
    let fwd = m.match_single_asset(&l, Ok(cands.clone()), &sims);
    let mut rc = cands.clone();
    rc.reverse();
    let mut rs = sims.clone();
    rs.reverse();
    let rev = m.match_single_asset(&l, Ok(rc), &rs);
    let ft = fwd.orbital_asset.unwrap().title;
    assert_eq!(ft, rev.orbital_asset.unwrap().title);
    assert_eq!(ft.as_deref(), Some("Forest Pack"));
    assert_eq!(fwd.match_confidence, rev.match_confidence);
}

#[test]
fn ties_keep_first_candidate() {
    let m = AssetMatcher::new();
    let l = local("Same", "ui");
    let mut a = titled("Same");
    a.seller = Some("first".to_string());
    let mut b = titled("Same");
    b.seller = Some("second".to_string());
    let r = m.match_single_asset(&l, Ok(vec![a, b]), &vec![SCALE, SCALE]);
    assert_eq!(r.orbital_asset.unwrap().seller.as_deref(), Some("first"));
}

#[test]
fn failed_and_empty_searches() {
    let m = AssetMatcher::new();
    let l = local("Same", "ui");
    let r = m.match_single_asset(&l, Err("timeout".to_string()), &vec![]);
    assert_eq!(r.match_type, MatchType::NoMatch);
    assert_eq!(r.match_reasons, vec!["Search failed: timeout"]);
    let r = m.match_single_asset(&l, Ok(vec![]), &vec![]);
    assert_eq!(r.match_reasons, vec!["No matching assets found on Orbital marketplace"]);
    assert_eq!(r.local_asset_id, 7);
}

#[test]
fn name_similarity_blend() {
    let m = AssetMatcher::new();
    let (s, st) = m.calculate_similarity("Mage_Animation Set", "mage animation set", SCALE);
    assert_eq!(s, SCALE);
    assert_eq!(st, MatchStrength::Exact);
    let (s, st) = m.calculate_similarity("", "x", SCALE);
    assert_eq!((s, st), (0, MatchStrength::NoMatch));
    // "abcd" against "abxd": one edit over four characters, no common first word.
    let (s, _) = m.calculate_similarity("abcd", "abxd", 800_000);
    assert_eq!(s, (7 * 800_000 + 3 * 750_000) / 10);
}

#[test]
fn fab_candidate_pick() {
    let m = AssetMatcher::new();
    let names = ["Desert Kit", "Mage Animation Set"];
    let cands: Vec<OrbitalAsset> = names.iter().map(|n| titled(n)).collect();
    let sims: Vec<u64> = names.iter().map(|n| jw_micros("Mage Animation Set", n)).collect();
    let r = m.match_local_asset_to_fab_candidates("Mage Animation Set", cands, &sims).unwrap();
    assert_eq!(r.0.title.as_deref(), Some("Mage Animation Set"));
    assert_eq!(r.1, MatchStrength::Exact);
    assert!(m.match_local_asset_to_fab_candidates("Zzz", vec![titled("Aaaa Bbbb")], &vec![0]).is_none());
}

#[test]
fn compatible_search_hit_is_high_or_exact() {
    let m = AssetMatcher::new();
    let l = local("Mage Animation Set (4 18)", "animation");
    let mut c = titled("Mage Animation Set");
    c.categories = vec!["Animation".to_string()];
    let s = jw_micros("Mage Animation Set (4 18)", "Mage Animation Set");
    let conf = m.calculate_match_confidence(&l, &c, s);
    assert_eq!(conf, (6 * s + 2 * SCALE) / 8);
    assert!(matches!(m.determine_match_type(conf), MatchType::Exact | MatchType::HighConfidence));
}
