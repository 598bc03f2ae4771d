use omnidex::slug::{
    clean_folder_name_for_search, extract_main_keywords, folder_name_to_product_slug, test_folder_name_cleaning, generate_additional_slug_variations,
    generate_slug_variations, normalize_name, remove_version_patterns,
};

fn assert_clean(v: &[String]) {
    for (i, a) in v.iter().enumerate() {
        assert!(!a.is_empty(), "empty variation in {:?}", v);
        for b in &v[i + 1..] {
            assert_ne!(a, b, "duplicate variation in {:?}", v);
        }
    }
}

#[test]
fn test_slug_generation() {
    let test_cases = vec![
        "MC Skydive (5 0 )",
        "Mage Animation Set",
        "Some Asset (4 18)",
        "Character Pack UE5.3",
        "Environment Assets v2.1",
        "Building Kit (UE4.27)",
    ];
    for case in test_cases {
        let variations = generate_slug_variations(case);
        assert!(!variations.is_empty());
        assert_clean(&variations);
    }
}

#[test]
fn skydive_parenthetical_is_stripped() {
    let v = generate_slug_variations("MC Skydive (5 0 )");
    assert!(v.contains(&"mc-skydive".to_string()), "{:?}", v);
    assert_eq!(v[0], "mc-skydive-5-0");
}

#[test]
fn engine_token_is_removed() {
    let v = generate_slug_variations("Character Pack UE5.3");
    assert!(v.contains(&"character-pack".to_string()), "{:?}", v);
    assert_eq!(normalize_name("Character Pack UE5.3"), "character pack");
}

#[test]
fn variations_have_no_duplicates_or_empties() {
    for name in ["a", "___", "(1 2)", "Pack", "UE5", "Vol 2 Forest vol 3", "Mage Animation Set (4 18)", "x-x_x x"] {
        let v = generate_slug_variations(name);
        assert_clean(&v);
    }
    assert!(generate_slug_variations("___").is_empty());
}

#[test]
fn direct_slugification() {
    assert_eq!(folder_name_to_product_slug("My_Cool-Asset!! Pack"), "my-cool-asset-pack");
    assert_eq!(folder_name_to_product_slug("  "), "");
}

#[test]
fn normalization_keeps_volume_numbers() {
    assert_eq!(normalize_name("Forest Pack vol 2"), "forest pack vol 2");
    assert_eq!(normalize_name("Forest Pack 3"), "forest pack");
    assert_eq!(normalize_name("Forest__Pack--Big"), "forest pack big");
}

#[test]
fn version_patterns_are_removed() {
    let v = remove_version_patterns("Environment Assets v2.1");
    assert!(v.contains(&"Environment Assets".to_string()), "{:?}", v);
    let v = remove_version_patterns("Building Kit (UE4.27)");
    assert!(v.contains(&"Building Kit".to_string()), "{:?}", v);
    assert!(remove_version_patterns("Plain").is_empty());
}

#[test]
fn main_word_variations() {
    let v = generate_additional_slug_variations("Big_Forest Pack UE5 Trees");
    assert_eq!(v, vec!["big-forest-trees", "big-forest", "forest-trees"]);
    let v = generate_additional_slug_variations("Forest");
    assert_eq!(v, vec!["forest"]);
    assert!(generate_additional_slug_variations("UE5 Pack 2").is_empty());
}

#[test]
fn search_query_cleaning() {
    assert_eq!(clean_folder_name_for_search("Mage_Animation-Set"), "Mage Animation Set");
}

#[test]
fn main_keywords_skip_stop_words() {
    assert_eq!(extract_main_keywords("Forest Pack and Trees UE5"), vec!["forest", "trees"]);
    let (q, k) = test_folder_name_cleaning("Mage_Animation-Pack");
    assert_eq!(q, "Mage Animation Pack");
    assert_eq!(k, vec!["mage", "animation"]);
}
