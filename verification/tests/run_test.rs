use glaunch::config::{extract_steam_app_id, find_profile_by_app_id};
use glaunch::hardware::parse_cache_size_kb;
use glaunch::profile::confirms_deletion;
use glaunch::run::app_id_notice;
use glaunch::cli::{cli_overrides_from_run_args, RunArgs};
use glaunch::config::{
    resolve_settings_from_layers, CliOverrides, GlobalConfig, Profile, ProfileSettings,
    ResolvedSettings,
};
use glaunch::hardware::VcacheInfo;
use glaunch::run::{log_settings, required_config_files_under, vcache_notice};

fn args() -> RunArgs {
    RunArgs {
        itm: false,
        fsr4: false,
        no_hdr: false,
        no_vrr: false,
        no_gamescope: false,
        vcache: false,
        no_vcache: false,
        fix_mouse: false,
        vkbasalt: None,
        width: None,
        height: None,
        refresh_rate: None,
        mangohud: None,
        profile: None,
        dry_run: false,
        verbose: false,
        command: Vec::new(),
    }
}

#[test]
fn test_no_flags_override_nothing() {
    assert_eq!(cli_overrides_from_run_args(&args()), CliOverrides::default());
}

#[test]
fn test_flags_become_overrides() {
    let a = RunArgs {
        no_hdr: true,
        itm: true,
        vcache: true,
        no_vcache: true,
        width: Some(2560),
        mangohud: Some(String::new()),
        vkbasalt: Some("film".to_string()),
        ..args()
    };
    let o = cli_overrides_from_run_args(&a);
    assert_eq!(o.hdr, Some(false));
    assert_eq!(o.itm, Some(true));
    assert_eq!(o.vcache, Some(true)); // --vcache wins over --no-vcache
    assert_eq!(o.width, Some(2560));
    assert_eq!(o.mangohud, Some(true));
    assert_eq!(o.mangohud_config, None); // given without a name
    assert_eq!(o.vkbasalt, Some(true));
    assert_eq!(o.vkbasalt_profile, Some("film".to_string()));
    assert_eq!(o.vrr, None);
    let b = cli_overrides_from_run_args(&RunArgs { no_vcache: true, ..args() });
    assert_eq!(b.vcache, Some(false));
}

fn settings() -> ResolvedSettings {
    resolve_settings_from_layers(None, None, &GlobalConfig::default())
}

#[test]
fn test_log_lines_with_sources() {
    let profile = Profile {
        name: Some("Elden Ring".to_string()),
        settings: Some(ProfileSettings { vrr: Some(false), itm: Some(true), ..Default::default() }),
        ..Default::default()
    };
    let cli = CliOverrides { hdr: Some(false), ..Default::default() };
    let s = resolve_settings_from_layers(Some(&cli), Some(&profile), &GlobalConfig::default());
    let lines = log_settings(&s, &cli, Some(&profile));
    assert_eq!(
        lines,
        vec![
            "glaunch: Using profile 'Elden Ring'",
            "glaunch: Resolution: 3840x2160 @ 240Hz",
            "glaunch: HDR: disabled (CLI)",
            "glaunch: VRR: disabled (profile)",
            "glaunch: Gamescope: enabled",
            "glaunch: ITM: enabled (profile)",
        ]
    );
}

#[test]
fn test_log_lines_features() {
    let mut s = settings();
    s.fsr4 = true;
    s.mangohud = true;
    s.vkbasalt = true;
    s.fix_mouse = true;
    s.vcache = true;
    let lines = log_settings(&s, &CliOverrides::default(), None);
    assert_eq!(
        lines[4..].to_vec(),
        vec![
            "glaunch: FSR4: enabled",
            "glaunch: MangoHud: enabled",
            "glaunch: vkBasalt: enabled (profile: default)",
            "glaunch: Mouse fix: enabled",
            "glaunch: V-Cache pinning: requested",
        ]
    );
    assert_eq!(lines.len(), 9);
}

#[test]
fn test_required_config_files() {
    let mut s = settings();
    assert!(required_config_files_under(&s, "/home/u").is_empty());
    s.vkbasalt = true;
    s.vkbasalt_profile = Some("film".to_string());
    s.mangohud = true;
    s.mangohud_config = Some(String::new());
    assert_eq!(
        required_config_files_under(&s, "/home/u"),
        vec![(
            "/home/u/.config/vkBasalt/film.conf".to_string(),
            "vkBasalt profile not found: /home/u/.config/vkBasalt/film.conf".to_string()
        )]
    );
    s.mangohud_config = Some("fps".to_string());
    assert_eq!(
        required_config_files_under(&s, "/home/u")[1],
        (
            "/home/u/.config/MangoHud/fps.conf".to_string(),
            "MangoHud config not found: /home/u/.config/MangoHud/fps.conf".to_string()
        )
    );
    // a profile named while vkBasalt is off needs no file
    s.vkbasalt = false;
    assert_eq!(required_config_files_under(&s, "/home/u").len(), 1);
}

#[test]
fn test_vcache_notice() {
    let info = VcacheInfo { cpus: "0-7".to_string(), l3_size_kb: 98304 };
    assert_eq!(
        vcache_notice(Some(&info), true),
        Some("glaunch: V-Cache detected — pinning to CPUs 0-7 (L3: 96MB)".to_string())
    );
    assert_eq!(vcache_notice(Some(&info), false), None);
    assert_eq!(
        vcache_notice(None, false),
        Some("glaunch: No X3D V-Cache topology detected — all CCDs have equal L3".to_string())
    );
}

#[test]
fn test_app_id_detection() {
    let cmd: Vec<String> = ["reaper", "SteamLaunch", "AppId=x", "AppId=1245620", "AppId=7", "--", "game.exe"]
        .iter()
        .map(|s| s.to_string())
        .collect();
    assert_eq!(extract_steam_app_id(&cmd), Some(1245620));
    assert_eq!(extract_steam_app_id(&["appid=5".to_string(), "AppId=".to_string()]), None);
    assert_eq!(extract_steam_app_id(&["AppId=+12".to_string()]), Some(12));
    assert_eq!(extract_steam_app_id(&[]), None);
    let profiles = vec![
        ("a".to_string(), Profile { steam_app_id: Some(1), ..Default::default() }),
        ("b".to_string(), Profile { steam_app_id: Some(1245620), ..Default::default() }),
        ("c".to_string(), Profile { steam_app_id: Some(1245620), ..Default::default() }),
    ];
    assert_eq!(find_profile_by_app_id(&profiles, 1245620), Some(1));
    assert_eq!(find_profile_by_app_id(&profiles, 9), None);
    assert_eq!(app_id_notice(1245620), "glaunch: detected Steam app ID 1245620");
}

#[test]
fn test_unicode_white_space_trimmed() {
    assert!(confirms_deletion("\u{3000}y\u{85}"));
    assert!(!confirms_deletion("\u{200b}y"));
    assert_eq!(parse_cache_size_kb("\u{a0}512K\u{2028}"), 512);
}
