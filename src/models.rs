//! Plain records exchanged with the storage and presentation layers.
use vstd::prelude::*;

verus! {

/// A stored application setting.
#[derive(Debug, Clone)]
pub struct AppSetting {
    pub id: Option<i64>,
    pub key: String,
    pub value: String,
    /// One of `string`, `number`, `boolean` or `json`.
    pub setting_type: String,
    pub description: Option<String>,
    pub created_date: String,
    pub modified_date: String,
}

#[derive(Debug, Clone)]
pub struct AppSettings {
    pub theme: String,
    pub auto_scan: bool,
    pub scan_interval_minutes: i32,
    pub thumbnail_size: String,
    pub show_hidden_files: bool,
    pub default_view: String,
    pub backup_enabled: bool,
    pub backup_location: Option<String>,
}

/// Criteria for listing stored assets.
#[derive(Debug, Clone)]
pub struct AssetFilter {
    pub asset_type: Option<String>,
    pub tags: Option<Vec<String>>,
    pub name_search: Option<String>,
    pub is_favorite: Option<bool>,
    pub scan_location_id: Option<i64>,
    pub date_range: Option<DateRange>,
}

#[derive(Debug, Clone)]
pub struct DateRange {
    pub start: String,
    pub end: String,
}

#[derive(Debug, Clone)]
pub struct AssetTypeCount {
    pub asset_type: String,
    pub count: i64,
}

#[derive(Debug, Clone)]
pub struct AssetDetails {
    pub id: i64,
    pub name: String,
    pub description: Option<String>,
    pub tags: Vec<String>,
}

/// A folder tree that is scanned for assets.
#[derive(Debug, Clone)]
pub struct ScanLocation {
    pub id: Option<i64>,
    pub name: String,
    pub path: String,
    pub is_active: bool,
    pub last_scan: Option<String>,
    pub scan_recursive: bool,
    /// JSON text of the list of file extensions.
    pub file_extensions: Option<String>,
    pub created_date: String,
    pub description: Option<String>,
}

/// Marketplace credentials; only a stub, no working authentication exists.
#[derive(Debug, Clone)]
pub struct OrbitalAuthConfig {
    pub client_id: String,
    pub client_secret: String,
}

#[derive(Debug, Clone)]
pub struct OrbitalSeller {
    pub id: String,
    pub name: String,
    pub display_name: String,
}

impl Default for OrbitalSeller {
    fn default() -> (r: OrbitalSeller)
        ensures
            r.id@ == "unknown"@,
            r.name@ == "Unknown Seller"@,
            r.display_name@ == "Unknown Seller"@,
    {
        OrbitalSeller {
            id: String::from_str("unknown"),
            name: String::from_str("Unknown Seller"),
            display_name: String::from_str("Unknown Seller"),
        }
    }
}

#[derive(Debug, Clone)]
pub struct OrbitalCategory {
    pub id: String,
    pub name: String,
}

#[derive(Debug, Clone)]
pub struct OrbitalImage {
    pub url: String,
    pub alt_text: String,
    pub width: Option<i32>,
    pub height: Option<i32>,
}

#[derive(Debug, Clone)]
pub struct GraphQLLocation {
    pub line: i32,
    pub column: i32,
}

#[derive(Debug, Clone)]
pub struct SellerDetails {
    pub id: String,
    pub name: String,
    pub display_name: Option<String>,
}

#[derive(Debug, Clone)]
pub struct CategoryDetails {
    pub id: String,
    pub name: String,
    pub path: String,
}

#[derive(Debug, Clone)]
pub struct ImageDetails {
    pub url: String,
    pub image_type: String,
    pub width: Option<i32>,
    pub height: Option<i32>,
}

} // verus!
