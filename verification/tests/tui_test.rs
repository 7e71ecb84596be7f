use glaunch::config::{MangoHudConfig, Profile, ProfileSettings, VkBasaltConfig};
use glaunch::hardware::{HardwareInfo, VcacheInfo};
use glaunch::tui::profile_edit::{self, EditAction, EditState, Field};
use glaunch::tui::profile_list::{self, list_title, status_line, ListAction};
use glaunch::tui::{App, DeleteOutcome, Key, Screen};

fn named(name: &str) -> Profile {
    Profile { name: Some(name.to_string()), ..Default::default() }
}

fn three_profiles() -> Vec<(String, Profile)> {
    vec![
        ("baldurs-gate-3".to_string(), named("Baldur's Gate 3")),
        ("elden-ring".to_string(), named("Elden Ring")),
        ("hades".to_string(), Profile::default()),
    ]
}

fn app() -> App {
    App::new(three_profiles(), HardwareInfo::default())
}

fn press_list(app: &mut App, keys: &[Key]) -> ListAction {
    let mut last = ListAction::Nothing;
    for k in keys {
        last = profile_list::handle_input(app, *k);
    }
    last
}

fn press_edit(app: &mut App, keys: &[Key]) -> EditAction {
    let mut last = EditAction::Nothing;
    for k in keys {
        last = profile_edit::handle_input(app, *k);
    }
    last
}

fn text_of(e: &EditState, label: &str) -> String {
    for f in &e.fields {
        if let Field::Text { label: l, value } = f {
            if l == label {
                return value.clone();
            }
        }
    }
    panic!("no text field {label}");
}

fn toggle_of(e: &EditState, label: &str) -> Option<bool> {
    for f in &e.fields {
        if let Field::Toggle { label: l, value } = f {
            if l == label {
                return *value;
            }
        }
    }
    panic!("no toggle {label}");
}

#[test]
fn test_app_starts_on_first_profile() {
    let a = app();
    assert_eq!(a.view, Screen::List);
    assert_eq!(a.list_state.selected, Some(0));
    assert!(!a.should_quit);
    let empty = App::new(Vec::new(), HardwareInfo::default());
    assert_eq!(empty.list_state.selected, None);
}

#[test]
fn test_selection_wraps_both_ways() {
    let mut a = app();
    press_list(&mut a, &[Key::Up]);
    assert_eq!(a.list_state.selected, Some(2));
    press_list(&mut a, &[Key::Down]);
    assert_eq!(a.list_state.selected, Some(0));
    press_list(&mut a, &[Key::Char('j'), Key::Char('j')]);
    assert_eq!(a.list_state.selected, Some(2));
    press_list(&mut a, &[Key::Char('k')]);
    assert_eq!(a.list_state.selected, Some(1));
}

#[test]
fn test_down_then_up_returns_to_row() {
    for start in 0..3 {
        let mut a = app();
        a.list_state.selected = Some(start);
        press_list(&mut a, &[Key::Down, Key::Up]);
        assert_eq!(a.list_state.selected, Some(start));
        press_list(&mut a, &[Key::Up, Key::Down]);
        assert_eq!(a.list_state.selected, Some(start));
    }
}

#[test]
fn test_filter_typing_and_matching() {
    let mut a = app();
    press_list(&mut a, &[Key::Char('/')]);
    assert!(a.list_state.filtering);
    press_list(&mut a, &[Key::Char('E'), Key::Char('L'), Key::Char('x')]);
    assert_eq!(a.list_state.filter, "ELx");
    press_list(&mut a, &[Key::Backspace]);
    assert_eq!(a.list_state.filter, "EL");
    press_list(&mut a, &[Key::Enter]);
    assert!(!a.list_state.filtering);
    assert_eq!(a.list_state.filter, "EL");
    // case aside, "el" is in "Elden Ring" only
    assert_eq!(a.filtered_indices(), vec![1]);
    // the slug counts too
    a.list_state.filter = "hAd".to_string();
    assert_eq!(a.filtered_indices(), vec![2]);
    a.list_state.filter = String::new();
    assert_eq!(a.filtered_indices(), vec![0, 1, 2]);
}

#[test]
fn test_filter_escape_clears() {
    let mut a = app();
    press_list(&mut a, &[Key::Char('/'), Key::Char('z'), Key::Esc]);
    assert!(!a.list_state.filtering);
    assert_eq!(a.list_state.filter, "");
    assert!(!a.should_quit);
}

#[test]
fn test_filter_type_then_erase_restores() {
    let mut a = app();
    press_list(&mut a, &[Key::Char('/'), Key::Char('h'), Key::Char('a')]);
    let before = a.list_state.filter.clone();
    press_list(&mut a, &[Key::Char('d'), Key::Backspace]);
    assert_eq!(a.list_state.filter, before);
    // Backspace on an empty filter leaves it empty
    let mut b = app();
    press_list(&mut b, &[Key::Char('/'), Key::Backspace]);
    assert_eq!(b.list_state.filter, "");
}

#[test]
fn test_delete_confirmed_asks_caller() {
    let mut a = app();
    press_list(&mut a, &[Key::Down, Key::Char('d')]);
    assert!(a.list_state.confirm_delete);
    assert_eq!(list_title(true), " Profiles — Press 'y' to confirm delete, any other key to cancel ");
    let act = press_list(&mut a, &[Key::Char('y')]);
    assert_eq!(act, ListAction::Delete("elden-ring".to_string()));
    assert!(!a.list_state.confirm_delete);
    let reload = a.on_delete_result("elden-ring", DeleteOutcome::Deleted);
    assert!(reload);
    assert_eq!(a.status_message.as_deref(), Some("Deleted 'elden-ring'"));
}

#[test]
fn test_delete_cancelled_by_other_key() {
    let mut a = app();
    press_list(&mut a, &[Key::Char('d')]);
    let act = press_list(&mut a, &[Key::Char('n')]);
    assert_eq!(act, ListAction::Nothing);
    assert!(!a.list_state.confirm_delete);
    assert_eq!(a.status_message.as_deref(), Some("Delete cancelled"));
    assert_eq!(a.view, Screen::List);
}

#[test]
fn test_delete_outcomes_reported() {
    let mut a = app();
    assert!(!a.on_delete_result("x", DeleteOutcome::NotFound));
    assert_eq!(a.status_message.as_deref(), Some("'x' not found"));
    assert!(!a.on_delete_result("x", DeleteOutcome::Failed("denied".to_string())));
    assert_eq!(a.status_message.as_deref(), Some("Error: denied"));
}

#[test]
fn test_no_delete_without_selection() {
    let mut a = App::new(Vec::new(), HardwareInfo::default());
    press_list(&mut a, &[Key::Char('d')]);
    assert!(!a.list_state.confirm_delete);
    press_list(&mut a, &[Key::Down, Key::Char('e')]);
    assert_eq!(a.list_state.selected, None);
    assert_eq!(a.view, Screen::List);
    assert!(a.edit_state.is_none());
}

#[test]
fn test_quit_keys() {
    let mut a = app();
    press_list(&mut a, &[Key::Char('q')]);
    assert!(a.should_quit);
    let mut b = app();
    press_list(&mut b, &[Key::Esc]);
    assert!(b.should_quit);
}

#[test]
fn test_open_profile_in_editor() {
    let profiles = vec![(
        "elden-ring".to_string(),
        Profile {
            name: Some("Elden Ring".to_string()),
            steam_app_id: Some(1245620),
            settings: Some(ProfileSettings { hdr: Some(true), width: Some(2560), ..Default::default() }),
            mangohud: None,
            vkbasalt: Some(VkBasaltConfig { enabled: Some(true), profile: Some("film".to_string()) }),
        },
    )];
    let mut a = App::new(profiles, HardwareInfo::default());
    press_list(&mut a, &[Key::Enter]);
    assert_eq!(a.view, Screen::Edit(0));
    let e = a.edit_state.as_ref().unwrap();
    assert!(!e.is_new);
    assert_eq!(e.selected, 0);
    assert_eq!(text_of(e, "Slug"), "elden-ring");
    assert_eq!(text_of(e, "Name"), "Elden Ring");
    assert_eq!(text_of(e, "Steam App ID"), "1245620");
    assert_eq!(text_of(e, "Width"), "2560");
    assert_eq!(text_of(e, "Height"), "");
    assert_eq!(toggle_of(e, "HDR"), Some(true));
    assert_eq!(toggle_of(e, "VRR"), None);
    assert_eq!(toggle_of(e, "vkBasalt"), Some(true));
    assert_eq!(text_of(e, "vkBasalt Profile"), "film");
    assert_eq!(text_of(e, "Refresh Rate"), "");
    assert_eq!(e.fields.len(), 16);
}

#[test]
fn test_new_profile_form() {
    let mut a = app();
    press_list(&mut a, &[Key::Char('n')]);
    assert_eq!(a.view, Screen::New);
    let e = a.edit_state.as_ref().unwrap();
    assert!(e.is_new);
    assert_eq!(text_of(e, "Slug"), "");
    assert_eq!(text_of(e, "Width"), "3840");
    assert_eq!(text_of(e, "Height"), "2160");
    assert_eq!(toggle_of(e, "Gamescope"), None);
}

#[test]
fn test_editor_typing_and_saving() {
    let mut a = app();
    press_list(&mut a, &[Key::Char('n')]);
    // an empty slug is refused
    let act = press_edit(&mut a, &[Key::Char('s')]);
    assert_eq!(act, EditAction::Nothing);
    assert_eq!(a.status_message.as_deref(), Some("Slug cannot be empty"));
    // type a slug into the first field
    press_edit(&mut a, &[Key::Enter, Key::Char('c'), Key::Char('s'), Key::Char('x'), Key::Backspace]);
    assert!(a.edit_state.as_ref().unwrap().editing_text);
    press_edit(&mut a, &[Key::Enter]);
    assert!(!a.edit_state.as_ref().unwrap().editing_text);
    assert_eq!(text_of(a.edit_state.as_ref().unwrap(), "Slug"), "cs");
    // down to HDR (the seventh field) and switch it on
    press_edit(&mut a, &[Key::Down, Key::Down, Key::Down, Key::Down, Key::Down, Key::Down, Key::Char(' ')]);
    assert_eq!(a.edit_state.as_ref().unwrap().selected, 6);
    assert_eq!(toggle_of(a.edit_state.as_ref().unwrap(), "HDR"), Some(true));
    let act = press_edit(&mut a, &[Key::Char('s')]);
    let expected = Profile {
        name: None,
        steam_app_id: None,
        settings: Some(ProfileSettings {
            width: Some(3840),
            height: Some(2160),
            hdr: Some(true),
            ..Default::default()
        }),
        mangohud: None,
        vkbasalt: None,
    };
    assert_eq!(act, EditAction::Save("cs".to_string(), expected));
    let reload = a.on_save_result("cs", Ok(()));
    assert!(reload);
    assert_eq!(a.status_message.as_deref(), Some("Saved profile 'cs'"));
    assert!(a.edit_state.is_none());
    assert_eq!(a.view, Screen::List);
}

#[test]
fn test_save_failure_keeps_editor() {
    let mut a = app();
    press_list(&mut a, &[Key::Char('e')]);
    let reload = a.on_save_result("baldurs-gate-3", Err("disk full".to_string()));
    assert!(!reload);
    assert_eq!(a.status_message.as_deref(), Some("Save failed: disk full"));
    assert!(a.edit_state.is_some());
    assert_eq!(a.view, Screen::Edit(0));
}

#[test]
fn test_toggle_cycles_through_three_states() {
    let mut a = app();
    press_list(&mut a, &[Key::Char('n')]);
    // up from the first field wraps to the last; up again reaches vkBasalt
    press_edit(&mut a, &[Key::Up, Key::Up]);
    assert_eq!(a.edit_state.as_ref().unwrap().selected, 14);
    let mut seen = Vec::new();
    for _ in 0..3 {
        press_edit(&mut a, &[Key::Enter]);
        seen.push(toggle_of(a.edit_state.as_ref().unwrap(), "vkBasalt"));
    }
    assert_eq!(seen, vec![Some(true), Some(false), None]);
}

#[test]
fn test_editor_closes_on_escape() {
    let mut a = app();
    press_list(&mut a, &[Key::Char('e')]);
    press_edit(&mut a, &[Key::Char('q')]);
    assert!(a.edit_state.is_none());
    assert_eq!(a.view, Screen::List);
    // without an editor a key changes nothing
    let act = press_edit(&mut a, &[Key::Char('s')]);
    assert_eq!(act, EditAction::Nothing);
    assert!(a.status_message.is_none());
}

#[test]
fn test_editor_round_trip_keeps_profile() {
    let p = Profile {
        name: Some("Hades".to_string()),
        steam_app_id: Some(1145360),
        settings: Some(ProfileSettings { vrr: Some(false), fix_mouse: Some(true), ..Default::default() }),
        mangohud: Some(MangoHudConfig { enabled: Some(true), config: None }),
        vkbasalt: None,
    };
    let e = EditState::from_profile("hades".to_string(), p.clone(), false);
    let (slug, back) = e.to_profile();
    assert_eq!(slug, "hades");
    assert_eq!(back, p);
}

#[test]
fn test_editor_lines() {
    let mut e = EditState::new_profile();
    e.editing_text = true;
    let lines = e.lines();
    assert_eq!(lines.len(), 17);
    assert_eq!(lines[0], "  Slug               |");
    assert_eq!(lines[3], "  Width              3840");
    assert_eq!(lines[5], "  Refresh Rate       ");
    assert_eq!(lines[6], "  HDR                [-]");
    assert_eq!(lines[16], "  Enter: confirm | Esc: cancel");
    assert_eq!(e.title(), " New Profile ");
}

#[test]
fn test_status_line() {
    let mut a = app();
    assert_eq!(status_line(&a), "3 profiles | V-Cache: not detected");
    a.hardware = HardwareInfo {
        vcache: Some(VcacheInfo { cpus: "0-7".to_string(), l3_size_kb: 98304 }),
        gpus: Vec::new(),
    };
    a.status_message = Some("Deleted 'x'".to_string());
    assert_eq!(status_line(&a), "Deleted 'x' | V-Cache: CPUs 0-7 (96MB L3)");
    press_list(&mut a, &[Key::Char('/'), Key::Char('e')]);
    assert_eq!(status_line(&a), "/e | V-Cache: CPUs 0-7 (96MB L3)");
    assert_eq!(list_title(false), " Profiles — (n)ew  (e)dit  (d)elete  (/)search  (q)uit ");
}

#[test]
fn test_reload_resets_list() {
    let mut a = app();
    press_list(&mut a, &[Key::Down, Key::Char('/'), Key::Char('x')]);
    a.reload_profiles(vec![("solo".to_string(), Profile::default())]);
    assert_eq!(a.list_state.selected, Some(0));
    assert_eq!(a.list_state.filter, "");
    assert!(!a.list_state.filtering);
    assert_eq!(a.profiles.len(), 1);
}

#[test]
fn test_filtered_rows_open_the_highlighted_profile() {
    let mut a = app();
    press_list(&mut a, &[Key::Char('/'), Key::Char('h'), Key::Char('a'), Key::Char('d'), Key::Enter]);
    // only "hades" (the third profile) matches; its row is the first one shown, and selected
    assert_eq!(a.filtered_indices(), vec![2]);
    assert_eq!(a.list_state.selected, Some(0));
    press_list(&mut a, &[Key::Char('e')]);
    assert_eq!(a.view, Screen::Edit(2));
    assert_eq!(text_of(a.edit_state.as_ref().unwrap(), "Slug"), "hades");
}

#[test]
fn test_filtered_rows_delete_the_highlighted_profile() {
    let mut a = app();
    // "r" is in "Baldur's Gate 3" and "Elden Ring", not in "hades"
    press_list(&mut a, &[Key::Char('/'), Key::Char('r'), Key::Enter]);
    assert_eq!(a.filtered_indices(), vec![0, 1]);
    press_list(&mut a, &[Key::Down]);
    assert_eq!(a.list_state.selected, Some(1));
    // moving wraps among the two rows shown
    press_list(&mut a, &[Key::Down]);
    assert_eq!(a.list_state.selected, Some(0));
    press_list(&mut a, &[Key::Up, Key::Char('d')]);
    assert_eq!(press_list(&mut a, &[Key::Char('y')]), ListAction::Delete("elden-ring".to_string()));
}

#[test]
fn test_new_filter_starts_on_first_row() {
    let mut a = app();
    press_list(&mut a, &[Key::Down, Key::Down]);
    assert_eq!(a.list_state.selected, Some(2));
    press_list(&mut a, &[Key::Char('/')]);
    assert_eq!(a.list_state.selected, Some(0));
    press_list(&mut a, &[Key::Char('z')]);
    assert_eq!(a.list_state.selected, None);
    press_list(&mut a, &[Key::Backspace]);
    assert_eq!(a.list_state.selected, Some(0));
    press_list(&mut a, &[Key::Enter, Key::Char('d')]);
    assert!(a.list_state.confirm_delete);
}

#[test]
fn test_refresh_rate_in_the_form() {
    let p = Profile {
        settings: Some(ProfileSettings { refresh_rate: Some(144), ..Default::default() }),
        ..Default::default()
    };
    let e = EditState::from_profile("g".to_string(), p.clone(), false);
    assert_eq!(text_of(&e, "Refresh Rate"), "144");
    let labels: Vec<String> = e
        .fields
        .iter()
        .map(|f| match f {
            Field::Text { label, .. } | Field::Toggle { label, .. } => label.clone(),
        })
        .collect();
    assert_eq!(
        labels,
        vec![
            "Slug", "Name", "Steam App ID", "Width", "Height", "Refresh Rate", "HDR", "ITM", "VRR",
            "FSR4", "Gamescope", "V-Cache", "Fix Mouse", "MangoHud", "vkBasalt", "vkBasalt Profile"
        ]
    );
    assert_eq!(e.to_profile(), ("g".to_string(), p));
}

#[test]
fn test_out_of_range_selection_does_nothing() {
    let mut a = app();
    a.list_state.selected = Some(7);
    assert_eq!(press_list(&mut a, &[Key::Enter]), ListAction::Nothing);
    assert!(a.edit_state.is_none());
    press_list(&mut a, &[Key::Char('d')]);
    assert_eq!(press_list(&mut a, &[Key::Char('y')]), ListAction::Nothing);
    a.list_state.selected = Some(usize::MAX);
    press_list(&mut a, &[Key::Down]);
    assert_eq!(a.list_state.selected, Some(((usize::MAX % 3) + 1) % 3));
}
