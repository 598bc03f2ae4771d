//! Mapping free-form category labels onto the fixed set of asset categories.
use vstd::prelude::*;
use crate::text::{chars_of, lower_of, lowercase, str_views, string_from_chars};

verus! {

pub const DEFAULT_CATEGORY: &'static str = "uncategorized";

/// The categories the front end knows.
pub open spec fn valid_categories() -> Seq<Seq<char>> {
    seq![
        "2d-asset"@,
        "3d-model"@,
        "animation"@,
        "audio"@,
        "education-tutorial"@,
        "environment"@,
        "game-system"@,
        "game-template"@,
        "hdri"@,
        "material"@,
        "smart-asset"@,
        "tool-and-plugin"@,
        "ui"@,
        "vfx"@,
    ]
}

pub fn valid_category_list() -> (r: Vec<&'static str>)
    ensures
        str_views(r@) == valid_categories(),
{
    let r = vec![
        "2d-asset",
        "3d-model",
        "animation",
        "audio",
        "education-tutorial",
        "environment",
        "game-system",
        "game-template",
        "hdri",
        "material",
        "smart-asset",
        "tool-and-plugin",
        "ui",
        "vfx",
    ];
    assert(str_views(r@) =~= valid_categories());
    r
}

/// Lowercase, with spaces and underscores as dashes.
pub open spec fn normalized_category(name: Seq<char>) -> Seq<char> {
    lower_of(name).map_values(|c: char| if c == ' ' || c == '_' { '-' } else { c })
}

pub fn normalize_category_name(name: &str) -> (r: String)
    ensures
        r@ == normalized_category(name@),
{
    let lower = lowercase(name);
    let cs = chars_of(lower.as_str());
    let mut out: Vec<char> = Vec::new();
    let mut i: usize = 0;
    while i < cs.len()
        invariant
            i <= cs.len(),
            cs@ == lower_of(name@),
            out@ == cs@.take(i as int).map_values(|c: char| if c == ' ' || c == '_' { '-' } else { c }),
        decreases cs.len() - i,
    {
        let c = cs[i];
        out.push(if c == ' ' || c == '_' { '-' } else { c });
        i += 1;
        assert(cs@.take(i as int) == cs@.take(i - 1).push(c));
    }
    assert(cs@.take(cs.len() as int) == cs@);
    string_from_chars(&out)
}

/// Common variations and the category each stands for; anything else unknown
/// is a material, the most generic category.
pub open spec fn category_alias(c: Seq<char>) -> Seq<char> {
    if seq!["2d"@, "2d-assets"@, "2d-asset"@, "2d-graphics"@, "graphics"@, "images"@].contains(c) {
        "2d-asset"@
    } else if seq!["3d"@, "3d-assets"@, "3d-model"@, "3d-models"@, "models"@, "mesh"@, "meshes"@].contains(c) {
        "3d-model"@
    } else if seq!["texture"@, "textures"@, "textures-materials"@, "textures-&-materials"@, "materials"@].contains(c) {
        "material"@
    } else if seq!["animations"@, "anim"@, "anims"@, "motion"@, "mocap"@].contains(c) {
        "animation"@
    } else if seq!["sound"@, "sounds"@, "music"@, "sfx"@, "audio-files"@].contains(c) {
        "audio"@
    } else if seq!["env"@, "environment-assets"@, "environments"@, "landscape"@, "terrain"@].contains(c) {
        "environment"@
    } else if seq!["effects"@, "particle"@, "particles"@, "visual-effects"@].contains(c) {
        "vfx"@
    } else if seq!["interface"@, "gui"@, "hud"@, "menu"@, "menus"@].contains(c) {
        "ui"@
    } else if seq!["gameplay"@, "mechanics"@, "systems"@].contains(c) {
        "game-system"@
    } else if seq!["tool"@, "tools"@, "plugin"@, "plugins"@, "utility"@, "utilities"@].contains(c) {
        "tool-and-plugin"@
    } else if seq!["template"@, "templates"@, "blueprint"@, "blueprints"@].contains(c) {
        "game-template"@
    } else if seq!["tutorial"@, "tutorials"@, "learning"@, "course"@, "courses"@].contains(c) {
        "education-tutorial"@
    } else if seq!["smart"@, "intelligent"@, "procedural"@].contains(c) {
        "smart-asset"@
    } else if seq!["hdr"@, "hdri-images"@, "skybox"@, "skyboxes"@].contains(c) {
        "hdri"@
    } else {
        "material"@
    }
}

/// A valid category as it is; otherwise its alias.
pub open spec fn mapped_category(c: Seq<char>, valid: Seq<Seq<char>>) -> Seq<char> {
    if valid.contains(c) {
        c
    } else {
        category_alias(c)
    }
}

/// Whether `s` is one of `options`.
fn is_one_of(s: &String, options: &[&str]) -> (r: bool)
    ensures
        r == str_views(options@).contains(s@),
{
    let mut i: usize = 0;
    while i < options.len()
        invariant
            i <= options.len(),
            forall|j: int| 0 <= j < i ==> str_views(options@)[j] != s@,
        decreases options.len() - i,
    {
        assert(str_views(options@)[i as int] == options@[i as int]@);
        let o = String::from_str(options[i]);
        if o.eq(s) {
            return true;
        }
        i += 1;
    }
    false
}

fn alias_of(c: &String) -> (r: &'static str)
    ensures
        r@ == category_alias(c@),
{
    let g2d = ["2d", "2d-assets", "2d-asset", "2d-graphics", "graphics", "images"];
    let g3d = ["3d", "3d-assets", "3d-model", "3d-models", "models", "mesh", "meshes"];
    let gmat = ["texture", "textures", "textures-materials", "textures-&-materials", "materials"];
    let ganim = ["animations", "anim", "anims", "motion", "mocap"];
    let gaudio = ["sound", "sounds", "music", "sfx", "audio-files"];
    let genv = ["env", "environment-assets", "environments", "landscape", "terrain"];
    let gvfx = ["effects", "particle", "particles", "visual-effects"];
    let gui = ["interface", "gui", "hud", "menu", "menus"];
    let gsys = ["gameplay", "mechanics", "systems"];
    let gtool = ["tool", "tools", "plugin", "plugins", "utility", "utilities"];
    let gtpl = ["template", "templates", "blueprint", "blueprints"];
    let gedu = ["tutorial", "tutorials", "learning", "course", "courses"];
    let gsmart = ["smart", "intelligent", "procedural"];
    let ghdri = ["hdr", "hdri-images", "skybox", "skyboxes"];
    assert(str_views(g2d@) =~= seq!["2d"@, "2d-assets"@, "2d-asset"@, "2d-graphics"@, "graphics"@, "images"@]);
    assert(str_views(g3d@) =~= seq!["3d"@, "3d-assets"@, "3d-model"@, "3d-models"@, "models"@, "mesh"@, "meshes"@]);
    assert(str_views(gmat@) =~= seq!["texture"@, "textures"@, "textures-materials"@, "textures-&-materials"@, "materials"@]);
    assert(str_views(ganim@) =~= seq!["animations"@, "anim"@, "anims"@, "motion"@, "mocap"@]);
    assert(str_views(gaudio@) =~= seq!["sound"@, "sounds"@, "music"@, "sfx"@, "audio-files"@]);
    assert(str_views(genv@) =~= seq!["env"@, "environment-assets"@, "environments"@, "landscape"@, "terrain"@]);
    assert(str_views(gvfx@) =~= seq!["effects"@, "particle"@, "particles"@, "visual-effects"@]);
    assert(str_views(gui@) =~= seq!["interface"@, "gui"@, "hud"@, "menu"@, "menus"@]);
    assert(str_views(gsys@) =~= seq!["gameplay"@, "mechanics"@, "systems"@]);
    assert(str_views(gtool@) =~= seq!["tool"@, "tools"@, "plugin"@, "plugins"@, "utility"@, "utilities"@]);
    assert(str_views(gtpl@) =~= seq!["template"@, "templates"@, "blueprint"@, "blueprints"@]);
    assert(str_views(gedu@) =~= seq!["tutorial"@, "tutorials"@, "learning"@, "course"@, "courses"@]);
    assert(str_views(gsmart@) =~= seq!["smart"@, "intelligent"@, "procedural"@]);
    assert(str_views(ghdri@) =~= seq!["hdr"@, "hdri-images"@, "skybox"@, "skyboxes"@]);
    if is_one_of(c, &g2d) {
        "2d-asset"
    } else if is_one_of(c, &g3d) {
        "3d-model"
    } else if is_one_of(c, &gmat) {
        "material"
    } else if is_one_of(c, &ganim) {
        "animation"
    } else if is_one_of(c, &gaudio) {
        "audio"
    } else if is_one_of(c, &genv) {
        "environment"
    } else if is_one_of(c, &gvfx) {
        "vfx"
    } else if is_one_of(c, &gui) {
        "ui"
    } else if is_one_of(c, &gsys) {
        "game-system"
    } else if is_one_of(c, &gtool) {
        "tool-and-plugin"
    } else if is_one_of(c, &gtpl) {
        "game-template"
    } else if is_one_of(c, &gedu) {
        "education-tutorial"
    } else if is_one_of(c, &gsmart) {
        "smart-asset"
    } else if is_one_of(c, &ghdri) {
        "hdri"
    } else {
        "material"
    }
}

/// The category itself when it is valid, else the category it is a common
/// variation of.
pub fn map_to_valid_category(category: &str, valid_categories: &[&str]) -> (r: String)
    ensures
        r@ == mapped_category(category@, str_views(valid_categories@)),
{
    let c = String::from_str(category);
    if is_one_of(&c, valid_categories) {
        c
    } else {
        String::from_str(alias_of(&c))
    }
}

/// The category of an asset folder: the `category` field of its metadata
/// document, else its `asset_type` field, else the name of the folder that
/// holds it, else `uncategorized`; normalised and mapped onto a valid one.
pub open spec fn folder_category(
    json_category: Option<Seq<char>>,
    json_asset_type: Option<Seq<char>>,
    parent_name: Option<Seq<char>>,
) -> Seq<char> {
    let raw = match json_category {
        Some(c) => normalized_category(c),
        None => match json_asset_type {
            Some(t) => normalized_category(t),
            None => match parent_name {
                Some(p) => normalized_category(p),
                None => DEFAULT_CATEGORY@,
            },
        },
    };
    mapped_category(raw, valid_categories())
}

pub fn determine_asset_type(
    json_category: Option<&str>,
    json_asset_type: Option<&str>,
    parent_name: Option<&str>,
) -> (r: String)
    ensures
        r@ == folder_category(
            match json_category { Some(c) => Some(c@), None => None },
            match json_asset_type { Some(t) => Some(t@), None => None },
            match parent_name { Some(p) => Some(p@), None => None },
        ),
{
    let raw = match json_category {
        Some(c) => normalize_category_name(c),
        None => match json_asset_type {
            Some(t) => normalize_category_name(t),
            None => match parent_name {
                Some(p) => normalize_category_name(p),
                None => String::from_str(DEFAULT_CATEGORY),
            },
        },
    };
    let valid = valid_category_list();
    map_to_valid_category(raw.as_str(), valid.as_slice())
}

} // verus!
