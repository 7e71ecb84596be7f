use glaunch::history::{now, record_launch_at, timestamp_since_epoch};
use glaunch::config::{join_path, CliOverrides, MangoHudConfig, Profile, ProfileSettings, VkBasaltConfig};
use glaunch::history::{
    build_profile_from_overrides, clear_history, derive_app_slug, extract_slug_from_steamapps_path,
    history_detail_lines, history_table_lines, list_history, normalize_to_slug, promote_to_profile,
    record_launch, show_history, AppHistory, History, HistoryError, LaunchRecord, Timestamp,
    MAX_LAUNCHES_PER_APP,
};

#[test]
fn test_slugs() {
    assert_eq!(normalize_to_slug("Elden Ring"), "elden-ring");
    assert_eq!(normalize_to_slug("  Baldur's  Gate_3 -- "), "baldurs-gate-3");
    assert_eq!(normalize_to_slug("Café Été"), "café-Été");
    assert_eq!(normalize_to_slug("!!!"), "");
    assert_eq!(
        extract_slug_from_steamapps_path("/X/SteamApps/Common/Hollow Knight/hk.exe"),
        Some("hollow-knight".to_string())
    );
    assert_eq!(extract_slug_from_steamapps_path("/x/steamapps/common//a"), None);
    assert_eq!(extract_slug_from_steamapps_path("/usr/bin/game"), None);
    let cmd = vec!["wine".to_string(), "/g/steamapps/common/Celeste/c.exe".to_string()];
    assert_eq!(derive_app_slug(&cmd), "celeste");
    assert_eq!(derive_app_slug(&vec!["/usr/bin/!!!".to_string()]), "unknown");
}

#[test]
fn test_profile_from_overrides() {
    let o = CliOverrides {
        hdr: Some(false),
        mangohud_config: Some("fps".to_string()),
        vkbasalt: Some(true),
        ..Default::default()
    };
    let p = build_profile_from_overrides(&o, Some(42), "My Game");
    assert_eq!(
        p,
        Profile {
            name: Some("My Game".to_string()),
            steam_app_id: Some(42),
            settings: Some(ProfileSettings { hdr: Some(false), ..Default::default() }),
            mangohud: Some(MangoHudConfig { enabled: None, config: Some("fps".to_string()) }),
            vkbasalt: Some(VkBasaltConfig { enabled: Some(true), profile: None }),
        }
    );
    let p = build_profile_from_overrides(&CliOverrides::default(), None, "x");
    assert_eq!(p, Profile { name: Some("x".to_string()), ..Default::default() });
}

fn history_with_launches() -> History {
    let mut h = History::default();
    for w in [1920u32, 2560] {
        record_launch(
            &mut h,
            "my-game",
            Some(7),
            vec!["game.exe".to_string(), "-x".to_string()],
            CliOverrides { width: Some(w), ..Default::default() },
        );
    }
    h
}

#[test]
fn test_promote_launch() {
    let h = history_with_launches();
    let (slug, p) = promote_to_profile(&h, "my-game", 1, None).unwrap();
    assert_eq!(slug, "my-game");
    assert_eq!(p.name, Some("my game".to_string()));
    assert_eq!(p.steam_app_id, Some(7));
    assert_eq!(p.settings.unwrap().width, Some(2560));
    let (slug, p) = promote_to_profile(&h, "my-game", 2, Some("old-setup")).unwrap();
    assert_eq!(slug, "old-setup");
    assert_eq!(p.name, Some("old setup".to_string()));
    assert_eq!(p.settings.unwrap().width, Some(1920));
    assert_eq!(
        promote_to_profile(&h, "my-game", 3, None),
        Err(HistoryError::LaunchIndexOutOfRange { index: 3, count: 2 })
    );
    assert_eq!(
        promote_to_profile(&h, "my-game", 0, None),
        Err(HistoryError::LaunchIndexOutOfRange { index: 0, count: 2 })
    );
    assert_eq!(promote_to_profile(&h, "other", 1, None), Err(HistoryError::NoHistory("other".to_string())));
}

#[test]
fn test_clear_history() {
    let mut h = history_with_launches();
    record_launch(&mut h, "b", None, vec!["b".to_string()], CliOverrides::default());
    assert_eq!(clear_history(&mut h, Some("zzz")), Err(HistoryError::NoHistory("zzz".to_string())));
    assert_eq!(h.len(), 2);
    assert_eq!(clear_history(&mut h, Some("b")), Ok(()));
    assert!(h.get("b").is_none());
    assert!(h.get("my-game").is_some());
    assert_eq!(clear_history(&mut h, None), Ok(()));
    assert!(h.is_empty());
}

#[test]
fn test_history_keeps_slugs_in_order() {
    let mut h = History::default();
    for s in ["m", "a", "z", "c", "a"] {
        record_launch(&mut h, s, None, Vec::new(), CliOverrides::default());
    }
    let slugs: Vec<&str> = h.entries().iter().map(|(s, _)| s.as_str()).collect();
    assert_eq!(slugs, vec!["a", "c", "m", "z"]);
    assert_eq!(h.get("a").unwrap().launches.len(), 2);
    assert!(MAX_LAUNCHES_PER_APP == 3);
}

fn fixed_history() -> History {
    let mut h = History::default();
    let launch = |secs: i64, cmd: &str, fsr4: Option<bool>| LaunchRecord {
        timestamp: Timestamp { secs, nanos: 0 },
        command: cmd.split(' ').map(|s| s.to_string()).collect(),
        overrides: CliOverrides { fsr4, ..Default::default() },
    };
    h.insert(
        "elden-ring".to_string(),
        AppHistory {
            steam_app_id: Some(1245620),
            launches: vec![launch(1700000000, "wine eldenring.exe", Some(true)), launch(0, "x", None)],
        },
    );
    h.insert("empty".to_string(), AppHistory { steam_app_id: None, launches: Vec::new() });
    h
}

#[test]
fn test_list_history_table() {
    assert_eq!(
        list_history(&History::default()),
        vec!["No launch history. Run a game with CLI flags to start recording."]
    );
    let lines = list_history(&fixed_history());
    assert_eq!(lines[0], format!("{:<25} {:<12} {:<10} LAST LAUNCHED", "SLUG", "APP ID", "LAUNCHES"));
    assert_eq!(lines[1], "-".repeat(65));
    assert_eq!(lines[2], format!("{:<25} {:<12} {:<10} {}", "elden-ring", "1245620", 2, "2023-11-14 22:13"));
    assert_eq!(lines[3], format!("{:<25} {:<12} {:<10} {}", "empty", "-", 0, "-"));
    assert_eq!(lines.len(), 4);
    // the table itself, with given last-launch texts
    let t = history_table_lines(&fixed_history(), &vec!["then".to_string()]);
    assert!(t[2].ends_with(" then"));
    assert!(t[3].ends_with(" -"));
}

#[test]
fn test_show_history_lines() {
    let h = fixed_history();
    let json = vec!["{\"fsr4\":true}".to_string()];
    let lines = show_history(&h, "elden-ring", &json).unwrap();
    assert_eq!(
        lines,
        vec![
            "App: elden-ring (Steam ID: 1245620)",
            "",
            "  Launch 1 — 2023-11-14 22:13:20 UTC",
            "    Command: wine eldenring.exe",
            "    Overrides: {\"fsr4\":true}",
            "",
            "  Launch 2 — 1970-01-01 00:00:00 UTC",
            "    Command: x",
            "    Overrides: {}",
            "",
        ]
    );
    assert_eq!(show_history(&h, "nope", &json), Err(HistoryError::NoHistory("nope".to_string())));
    let a = AppHistory { steam_app_id: None, launches: Vec::new() };
    assert_eq!(history_detail_lines("g", &a, &Vec::new(), &Vec::new()), vec!["App: g", ""]);
}

#[test]
fn test_history_path_shape() {
    assert_eq!(join_path("/home/u/.config/glaunch", "history.json"), "/home/u/.config/glaunch/history.json");
    assert_eq!(join_path("/a/", "b"), "/a/b");
    assert_eq!(join_path("/a", "/b"), "/b");
    assert_eq!(join_path("", "b"), "b");
}

#[test]
fn test_timestamps_around_the_epoch() {
    assert_eq!(timestamp_since_epoch(Ok((1700000000, 5))), Timestamp { secs: 1700000000, nanos: 5 });
    assert_eq!(timestamp_since_epoch(Err((3, 0))), Timestamp { secs: -3, nanos: 0 });
    assert_eq!(timestamp_since_epoch(Err((1, 250_000_000))), Timestamp { secs: -2, nanos: 750_000_000 });
    assert_eq!(timestamp_since_epoch(Ok((u64::MAX, 1))), Timestamp { secs: i64::MAX, nanos: 1 });
    assert_eq!(timestamp_since_epoch(Err((u64::MAX, 7))), Timestamp { secs: i64::MIN, nanos: 0 });
    let t = now();
    assert!(t.secs > 1_600_000_000 && t.nanos < 1_000_000_000);
    let mut h = History::default();
    let at = Timestamp { secs: 42, nanos: 9 };
    record_launch_at(&mut h, "g", None, vec!["g".to_string()], CliOverrides::default(), at);
    assert_eq!(h.get("g").unwrap().launches[0].timestamp, at);
}

#[test]
fn test_slugs_are_stable() {
    for name in ["Elden Ring", "  Baldur's  Gate_3 -- ", "Café Été", "--a--b--", "", "X_Y-z 9"] {
        let s = normalize_to_slug(name);
        assert_eq!(normalize_to_slug(&s), s);
        assert!(!s.starts_with('-') && !s.ends_with('-') && !s.contains("--"));
    }
    assert_eq!(normalize_to_slug("--a--b--"), "a-b");
    assert_eq!(normalize_to_slug("X_Y-z 9"), "x-y-z-9");
}
