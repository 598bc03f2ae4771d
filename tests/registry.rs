use omnidex::category::{determine_asset_type, map_to_valid_category, normalize_category_name, valid_category_list};
use omnidex::decimal::{parse_decimal_micros, parse_i32_digits};
use omnidex::manual::{manual_match_target, ManualMatchError};
use omnidex::scan::{ScanTracker, ScannerManager, SortOption};

#[test]
fn scanner_registry() {
    let mut m = ScannerManager::new();
    assert!(!m.is_scan_active(1));
    m.register_scanner(1);
    m.register_scanner(2);
    assert!(m.is_scan_active(1));
    assert!(!m.is_cancelled(1));
    assert!(m.cancel_scan(1));
    assert!(m.is_cancelled(1));
    assert!(!m.cancel_scan(9));
    m.register_scanner(1);
    assert!(!m.is_cancelled(1));
    assert_eq!(m.cancel_all_scans(), 2);
    assert!(m.is_cancelled(2));
    m.remove_scanner(1);
    assert!(!m.is_scan_active(1));
    assert_eq!(m.cancel_all_scans(), 1);
}

#[test]
fn sort_clauses() {
    assert_eq!(SortOption::default().to_sql(), "modified_date DESC");
    assert_eq!(SortOption::NameAsc.to_sql(), "name ASC");
    assert_eq!(SortOption::DateAddedAsc.to_sql(), "created_date ASC");
}

#[test]
fn scan_progress_events() {
    let (mut t, first) = ScanTracker::start(5, "/assets", 3);
    assert_eq!(first.status, "Initializing Scan");
    let p = t.folder_done("/assets/a", None);
    assert_eq!((p.processed_items, p.total_items), (1, 3));
    t.folder_done("/assets/b", Some("disk".to_string()));
    let e = t.walk_error("denied".to_string());
    assert_eq!(e.error.as_deref(), Some("denied"));
    let c = t.cancelled();
    assert_eq!(c.status, "Cancelled");
    let f = t.finish();
    assert!(!f.completed_successfully);
    assert_eq!(f.error.as_deref(), Some("disk; denied"));
    assert_eq!(f.processed_items, 2);
    let (t, _) = ScanTracker::start(6, "/x", 0);
    let f = t.finish();
    assert!(f.completed_successfully);
    assert_eq!(f.error, None);
}

#[test]
fn categories() {
    let valid = valid_category_list();
    assert_eq!(normalize_category_name("Sound Effects_Pack"), "sound-effects-pack");
    assert_eq!(map_to_valid_category("vfx", &valid), "vfx");
    assert_eq!(map_to_valid_category("sounds", &valid), "audio");
    assert_eq!(map_to_valid_category("textures-&-materials", &valid), "material");
    assert_eq!(map_to_valid_category("skyboxes", &valid), "hdri");
    assert_eq!(map_to_valid_category("whatever", &valid), "material");
    assert_eq!(determine_asset_type(Some("Visual Effects"), Some("ui"), None), "vfx");
    assert_eq!(determine_asset_type(None, Some("HUD"), Some("Tools")), "ui");
    assert_eq!(determine_asset_type(None, None, Some("Mocap")), "animation");
    assert_eq!(determine_asset_type(None, None, None), "material");
}

#[test]
fn manual_match_urls() {
    assert_eq!(manual_match_target("https://orbital-market.com/product/cool-kit"), Ok("cool-kit".to_string()));
    assert_eq!(manual_match_target("https://evil.example/product/cool-kit"), Err(ManualMatchError::WrongHost));
    assert_eq!(manual_match_target("https://www.orbital-market.com/product/x"), Err(ManualMatchError::WrongHost));
    assert_eq!(manual_match_target("not a url"), Err(ManualMatchError::InvalidUrl));
    assert_eq!(ManualMatchError::WrongHost.message(), "URL must be from orbital-market.com");
}

#[test]
fn decimals() {
    let d = |s: &str| parse_decimal_micros(&s.chars().collect::<Vec<char>>());
    assert_eq!(d("4.7"), Some(4_700_000));
    assert_eq!(d("-0.5"), Some(-500_000));
    assert_eq!(d(".25"), Some(250_000));
    assert_eq!(d("3."), Some(3_000_000));
    assert_eq!(d("1.23456789"), Some(1_234_567));
    assert_eq!(d("."), None);
    assert_eq!(d("1e3"), None);
    assert_eq!(d(""), None);
    let n = |s: &str| parse_i32_digits(&s.chars().collect::<Vec<char>>());
    assert_eq!(n("42"), Some(42));
    assert_eq!(n("2147483647"), Some(i32::MAX));
    assert_eq!(n("2147483648"), None);
    assert_eq!(n("1,2"), None);
}
