use glaunch::config::{
    resolve_settings_from_layers, CliOverrides, DefaultsConfig, GlobalConfig, MangoHudConfig,
    Profile, ProfileSettings,
};
use glaunch::history::{build_profile_from_overrides, record_launch, History};
use glaunch::launch::{build_launch_plan, dry_run_output, LaunchError};
use glaunch::profile::sort_by_slug;
use glaunch::config::ResolvedSettings;
use glaunch::tui::profile_edit::EditState;

#[test]
fn test_promoted_launch_resolves_like_its_flags() {
    let cli = CliOverrides {
        width: Some(1920),
        hdr: Some(false),
        fsr4: Some(true),
        mangohud: Some(true),
        vkbasalt_profile: Some("film".to_string()),
        ..Default::default()
    };
    let global = GlobalConfig {
        defaults: Some(DefaultsConfig { height: Some(1080), vrr: Some(false), ..Default::default() }),
        mangohud: Some(MangoHudConfig { enabled: Some(false), config: Some("full".to_string()) }),
        hardware: None,
    };
    let p = build_profile_from_overrides(&cli, Some(1), "Game");
    let via_profile = resolve_settings_from_layers(None, Some(&p), &global);
    let via_cli = resolve_settings_from_layers(Some(&cli), None, &global);
    assert_eq!(via_profile, via_cli);
}

#[test]
fn test_global_has_no_say_on_launch_extras() {
    let g1 = GlobalConfig::default();
    let g2 = GlobalConfig {
        defaults: Some(DefaultsConfig {
            width: Some(1),
            height: Some(2),
            hdr: Some(false),
            vrr: Some(false),
            gamescope: Some(false),
        }),
        ..Default::default()
    };
    let p = Profile {
        settings: Some(ProfileSettings { itm: Some(true), ..Default::default() }),
        ..Default::default()
    };
    let r1 = resolve_settings_from_layers(None, Some(&p), &g1);
    let r2 = resolve_settings_from_layers(None, Some(&p), &g2);
    assert_eq!((r1.itm, r1.fsr4, r1.vcache, r1.fix_mouse, r1.vkbasalt), (r2.itm, r2.fsr4, r2.vcache, r2.fix_mouse, r2.vkbasalt));
    assert_ne!(r1.width, r2.width);
}

#[test]
fn test_record_launch_leaves_other_games() {
    let mut h = History::default();
    record_launch(&mut h, "a", Some(1), vec!["a".to_string()], CliOverrides::default());
    let before = h.get("a").unwrap().launches.len();
    record_launch(&mut h, "b", None, vec!["b".to_string()], CliOverrides::default());
    assert_eq!(h.get("a").unwrap().launches.len(), before);
    assert_eq!(h.get("a").unwrap().steam_app_id, Some(1));
    // a launch without an app ID keeps the known one
    record_launch(&mut h, "a", None, vec!["a".to_string()], CliOverrides::default());
    assert_eq!(h.get("a").unwrap().steam_app_id, Some(1));
}

#[test]
fn test_sorting_keeps_every_profile() {
    let v = vec![
        ("b".to_string(), Profile { steam_app_id: Some(2), ..Default::default() }),
        ("a".to_string(), Profile { steam_app_id: Some(1), ..Default::default() }),
        ("b".to_string(), Profile { steam_app_id: Some(3), ..Default::default() }),
    ];
    let s = sort_by_slug(v);
    let ids: Vec<(String, Option<u64>)> = s.into_iter().map(|(k, p)| (k, p.steam_app_id)).collect();
    assert_eq!(ids.len(), 3);
    assert_eq!(ids[0], ("a".to_string(), Some(1)));
    assert_eq!(ids[1].0, "b");
    assert_eq!(ids[2].0, "b");
}

#[test]
fn test_editor_round_trip_drops_what_form_cannot_hold() {
    let p = Profile {
        name: Some(String::new()),
        steam_app_id: None,
        settings: Some(ProfileSettings::default()),
        mangohud: Some(MangoHudConfig { enabled: None, config: Some("full".to_string()) }),
        vkbasalt: None,
    };
    let (_, back) = EditState::from_profile("s".to_string(), p, false).to_profile();
    assert_eq!(back, Profile::default());
}

fn plain() -> ResolvedSettings {
    resolve_settings_from_layers(None, None, &GlobalConfig::default())
}

#[test]
fn test_launch_plan_errors() {
    assert_eq!(build_launch_plan(&plain(), None, &[]), Err(LaunchError::NoGameCommand));
}

#[test]
fn test_dry_run_is_env_then_command() {
    let mut s = plain();
    s.gamescope = false;
    s.fix_mouse = true;
    let plan = build_launch_plan(&s, None, &["game".to_string(), "--x".to_string()]).unwrap();
    assert_eq!(
        dry_run_output(&plan),
        "LD_PRELOAD=/usr/lib/libgamemodeauto.so.0 gamemoderun game --x"
    );
    let p2 = build_launch_plan(&plain(), None, &["g".to_string()]).unwrap();
    assert_eq!(
        dry_run_output(&p2),
        "gamemoderun gamescope -W 3840 -H 2160 --fullscreen -r 240 --adaptive-sync --hdr-enabled -- g"
    );
}
