use glaunch::config::{
    resolve_settings_from_layers, CliOverrides, DefaultsConfig, GlobalConfig, Profile,
    ProfileSettings,
};

fn global_with(defaults: DefaultsConfig) -> GlobalConfig {
    GlobalConfig { defaults: Some(defaults), ..Default::default() }
}

fn profile_with(name: &str, settings: ProfileSettings) -> Profile {
    Profile { name: Some(name.to_string()), settings: Some(settings), ..Default::default() }
}

#[test]
fn test_resolve_settings_hardcoded_defaults() {
    let resolved = resolve_settings_from_layers(None, None, &GlobalConfig::default());
    assert_eq!(resolved.width, 3840);
    assert_eq!(resolved.height, 2160);
    assert!(resolved.hdr);
    assert!(resolved.vrr);
    assert!(resolved.gamescope);
    assert!(!resolved.itm);
    assert!(!resolved.fsr4);
    assert!(!resolved.vcache);
    assert!(!resolved.fix_mouse);
    assert!(!resolved.mangohud);
    assert!(!resolved.vkbasalt);
}

#[test]
fn test_resolve_global_overrides_hardcoded() {
    // [defaults] hdr = false, width = 2560
    let global = global_with(DefaultsConfig { hdr: Some(false), width: Some(2560), ..Default::default() });
    let resolved = resolve_settings_from_layers(None, None, &global);
    assert!(!resolved.hdr);
    assert_eq!(resolved.width, 2560);
    assert_eq!(resolved.height, 2160); // still hardcoded default
}

#[test]
fn test_resolve_profile_overrides_global() {
    // global: [defaults] hdr = false, width = 2560; profile "Test": [settings] hdr = true
    let global = global_with(DefaultsConfig { hdr: Some(false), width: Some(2560), ..Default::default() });
    let profile = profile_with("Test", ProfileSettings { hdr: Some(true), ..Default::default() });
    let resolved = resolve_settings_from_layers(None, Some(&profile), &global);
    assert!(resolved.hdr); // profile wins over global
    assert_eq!(resolved.width, 2560); // global wins over hardcoded
}

#[test]
fn test_resolve_cli_overrides_everything() {
    // global: [defaults] hdr = false; profile "Test": [settings] hdr = true, itm = true
    let global = global_with(DefaultsConfig { hdr: Some(false), ..Default::default() });
    let profile = profile_with(
        "Test",
        ProfileSettings { hdr: Some(true), itm: Some(true), ..Default::default() },
    );

    let cli = CliOverrides {
        hdr: Some(false), // --no-hdr on CLI
        itm: None,        // not specified on CLI, profile's true should win
        ..Default::default()
    };

    let resolved = resolve_settings_from_layers(Some(&cli), Some(&profile), &global);
    assert!(!resolved.hdr); // CLI wins
    assert!(resolved.itm); // profile wins (CLI didn't set it)
}

#[test]
fn test_refresh_rate_layers() {
    assert_eq!(resolve_settings_from_layers(None, None, &GlobalConfig::default()).refresh_rate, 240);
    let profile = profile_with("P", ProfileSettings { refresh_rate: Some(120), ..Default::default() });
    assert_eq!(resolve_settings_from_layers(None, Some(&profile), &GlobalConfig::default()).refresh_rate, 120);
    let cli = CliOverrides { refresh_rate: Some(60), ..Default::default() };
    assert_eq!(
        resolve_settings_from_layers(Some(&cli), Some(&profile), &GlobalConfig::default()).refresh_rate,
        60
    );
    assert!(glaunch::history::has_overrides(&cli));
}
