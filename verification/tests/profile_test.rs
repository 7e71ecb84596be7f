use glaunch::config::{
    display_name_from_slug, new_profile_named, MangoHudConfig, Profile, ProfileSettings,
    VkBasaltConfig,
};
use glaunch::profile::{confirms_deletion, list, profile_slug, row_cells, sort_by_slug};

#[test]
fn test_list_without_profiles_gives_hint() {
    let lines = list(&Vec::new());
    assert_eq!(lines, vec!["No profiles found. Create one with: glaunch profile create <name>"]);
}

#[test]
fn test_list_table_columns() {
    let profiles = vec![
        (
            "elden-ring".to_string(),
            Profile {
                name: Some("Elden Ring".to_string()),
                steam_app_id: Some(1245620),
                settings: Some(ProfileSettings { hdr: Some(true), vrr: Some(false), ..Default::default() }),
                mangohud: Some(MangoHudConfig { enabled: Some(true), config: None }),
                vkbasalt: Some(VkBasaltConfig { enabled: None, profile: Some("film".to_string()) }),
            },
        ),
        ("hades".to_string(), Profile::default()),
    ];
    let lines = list(&profiles);
    assert_eq!(lines.len(), 4);
    assert_eq!(
        lines[0],
        format!(
            "{:<20} {:<12} {:<5} {:<5} {:<7} {:<8} {:<9}",
            "NAME", "APP ID", "HDR", "VRR", "VCACHE", "MANGOHUD", "VKBASALT"
        )
    );
    assert_eq!(lines[0], "NAME                 APP ID       HDR   VRR   VCACHE  MANGOHUD VKBASALT ");
    assert_eq!(lines[1], "-".repeat(70));
    assert_eq!(lines[2], "Elden Ring           1245620      yes   no    -       yes      -        ");
    assert_eq!(lines[3], "hades                -            -     -     -       -        -        ");
}

#[test]
fn test_list_long_names_not_cut() {
    let profiles = vec![(
        "x".to_string(),
        Profile { name: Some("A Very Long Game Name Indeed".to_string()), ..Default::default() },
    )];
    let lines = list(&profiles);
    assert!(lines[2].starts_with("A Very Long Game Name Indeed -"));
}

#[test]
fn test_row_cells() {
    let p = Profile { steam_app_id: Some(7), ..Default::default() };
    assert_eq!(row_cells(&"slug".to_string(), &p), vec!["slug", "7", "-", "-", "-", "-", "-"]);
}

#[test]
fn test_confirms_deletion() {
    assert!(confirms_deletion("y"));
    assert!(confirms_deletion("Y\n"));
    assert!(confirms_deletion("  y \t\n"));
    assert!(!confirms_deletion("yes"));
    assert!(!confirms_deletion(""));
    assert!(!confirms_deletion("n"));
    assert!(!confirms_deletion("ÿ"));
}

#[test]
fn test_profile_slug_of_files() {
    assert_eq!(profile_slug("elden-ring.toml"), Some("elden-ring".to_string()));
    assert_eq!(profile_slug("a.b.toml"), Some("a.b".to_string()));
    assert_eq!(profile_slug("notes.txt"), None);
    assert_eq!(profile_slug("toml"), None);
    assert_eq!(profile_slug(".toml"), None);
    assert_eq!(profile_slug("game.TOML"), None);
    assert_eq!(profile_slug("x.tomlx"), None);
}

#[test]
fn test_sort_by_slug() {
    let v = vec![
        ("zelda".to_string(), Profile::default()),
        ("Alan".to_string(), Profile::default()),
        ("elden-ring".to_string(), Profile::default()),
        ("baldurs-gate-3".to_string(), Profile::default()),
    ];
    let sorted: Vec<String> = sort_by_slug(v).into_iter().map(|(s, _)| s).collect();
    assert_eq!(sorted, vec!["Alan", "baldurs-gate-3", "elden-ring", "zelda"]);
    assert!(sort_by_slug(Vec::new()).is_empty());
}

#[test]
fn test_created_profile() {
    let p = new_profile_named("elden-ring");
    assert_eq!(p.name, Some("elden ring".to_string()));
    assert_eq!(p.settings, Some(ProfileSettings::default()));
    assert!(p.steam_app_id.is_none() && p.mangohud.is_none() && p.vkbasalt.is_none());
    assert_eq!(display_name_from_slug("a-b-c"), "a b c");
}

#[test]
fn test_profile_path_shape() {
    if let Some(p) = glaunch::config::profile_path("elden-ring") {
        assert!(p.ends_with("/glaunch/profiles/elden-ring.toml"));
    }
    if let (Some(d), Some(p)) = (glaunch::config::profiles_dir(), glaunch::config::profile_path("x")) {
        assert_eq!(p, format!("{d}/x.toml"));
    }
    if let Some(h) = glaunch::history::history_path() {
        assert!(h.ends_with("/glaunch/history.json"));
    }
    if let Some(c) = glaunch::hardware::cache_path() {
        assert!(c.ends_with("/glaunch/hardware_cache.toml"));
    }
}
