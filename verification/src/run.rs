//! What `glaunch run --verbose` reports about the settings it resolved.
use vstd::prelude::*;

use crate::config::{
    value_or, CliOverrides, Profile, ProfileSettings, ResolvedSettings, SettingsLayer, SettingsView,
};
use crate::hardware::{mib, VcacheInfo};
use crate::launch::{config_file, config_file_under, named, needs_home, pair_views, user_home_dir};
use crate::split::{push_line, str_views};
use crate::text::{concat, concat3, copy_str, decimal, decimal_string, push_str};

verus! {

/// Where a setting came from, as the log says it: ` (CLI)`, ` (profile)`, or nothing.
pub open spec fn source_note(cli_val: Option<bool>, prof_val: Option<bool>) -> Seq<char> {
    if cli_val is Some {
        " (CLI)"@
    } else if prof_val is Some {
        " (profile)"@
    } else {
        ""@
    }
}

pub open spec fn on_off(b: bool) -> Seq<char> {
    if b {
        "enabled"@
    } else {
        "disabled"@
    }
}

pub open spec fn line_if(b: bool, line: Seq<char>) -> Seq<Seq<char>> {
    if b {
        seq![line]
    } else {
        Seq::empty()
    }
}

/// The `[settings]` of an optional profile.
pub open spec fn settings_of(profile: Option<&Profile>) -> Option<ProfileSettings> {
    match profile {
        Some(p) => p.settings,
        None => None,
    }
}

/// The profile's HDR (0), VRR (1), gamescope (2) or ITM (3) setting.
pub open spec fn profile_flag(ps: Option<ProfileSettings>, which: int) -> Option<bool> {
    match ps {
        Some(s) => if which == 0 {
            s.hdr
        } else if which == 1 {
            s.vrr
        } else if which == 2 {
            s.gamescope
        } else {
            s.itm
        },
        None => None,
    }
}

/// The profile in use, the resolution and refresh rate, and HDR, VRR and gamescope with where they came from.
pub open spec fn head_lines(
    s: SettingsView,
    cli: SettingsLayer,
    profile: Option<&Profile>,
) -> Seq<Seq<char>> {
    let ps = settings_of(profile);
    let name_line = match profile {
        Some(p) => match p@.name {
            Some(n) => seq!["glaunch: Using profile '"@ + n + "'"@],
            None => Seq::empty(),
        },
        None => Seq::empty(),
    };
    name_line + seq![
        "glaunch: Resolution: "@ + decimal(s.width as nat) + "x"@ + decimal(s.height as nat) + " @ "@
            + decimal(s.refresh_rate as nat) + "Hz"@,
        "glaunch: HDR: "@ + on_off(s.hdr) + source_note(cli.hdr, profile_flag(ps, 0)),
        "glaunch: VRR: "@ + on_off(s.vrr) + source_note(cli.vrr, profile_flag(ps, 1)),
        "glaunch: Gamescope: "@ + on_off(s.gamescope) + source_note(cli.gamescope, profile_flag(ps, 2)),
    ]
}

/// One line for each further feature that is on.
pub open spec fn feature_lines(
    s: SettingsView,
    cli: SettingsLayer,
    profile: Option<&Profile>,
) -> Seq<Seq<char>> {
    line_if(
        s.itm,
        "glaunch: ITM: enabled"@ + source_note(cli.itm, profile_flag(settings_of(profile), 3)),
    ) + line_if(s.fsr4, "glaunch: FSR4: enabled"@) + line_if(
        s.mangohud,
        "glaunch: MangoHud: enabled"@,
    ) + line_if(
        s.vkbasalt,
        "glaunch: vkBasalt: enabled (profile: "@ + value_or(s.vkbasalt_profile, "default"@) + ")"@,
    ) + line_if(s.fix_mouse, "glaunch: Mouse fix: enabled"@) + line_if(
        s.vcache,
        "glaunch: V-Cache pinning: requested"@,
    )
}

/// The log lines: the profile in use, the resolution, HDR, VRR and gamescope with where they
/// came from, then one line for each further feature that is on.
pub open spec fn log_lines(
    s: SettingsView,
    cli: SettingsLayer,
    profile: Option<&Profile>,
) -> Seq<Seq<char>> {
    head_lines(s, cli, profile) + feature_lines(s, cli, profile)
}

fn source_text(cli_val: Option<bool>, prof_val: Option<bool>) -> (r: &'static str)
    ensures
        r@ == source_note(cli_val, prof_val),
{
    if cli_val.is_some() {
        " (CLI)"
    } else if prof_val.is_some() {
        " (profile)"
    } else {
        ""
    }
}

fn on_off_text(b: bool) -> (r: &'static str)
    ensures
        r@ == on_off(b),
{
    if b {
        "enabled"
    } else {
        "disabled"
    }
}

fn settings_ref(profile: Option<&Profile>) -> (r: Option<&ProfileSettings>)
    ensures
        r matches Some(x) ==> settings_of(profile) == Some(*x),
        r is None ==> settings_of(profile) is None,
{
    match profile {
        Some(p) => match &p.settings {
            Some(s) => Some(s),
            None => None,
        },
        None => None,
    }
}

fn profile_flag_of(s: Option<&ProfileSettings>, which: u8) -> (r: Option<bool>)
    ensures
        r == profile_flag(
            match s {
                Some(x) => Some(*x),
                None => None,
            },
            which as int,
        ),
{
    match s {
        Some(s) => if which == 0 {
            s.hdr
        } else if which == 1 {
            s.vrr
        } else if which == 2 {
            s.gamescope
        } else {
            s.itm
        },
        None => None,
    }
}

fn head_log_lines(
    settings: &ResolvedSettings,
    cli: &CliOverrides,
    profile: Option<&Profile>,
) -> (r: Vec<String>)
    ensures
        str_views(r@) == head_lines(settings@, cli@, profile),
{
    let ps = settings_ref(profile);
    let mut lines: Vec<String> = Vec::new();
    assert(str_views(lines@) =~= Seq::<Seq<char>>::empty());
    match profile {
        Some(p) => match &p.name {
            Some(n) => push_line(&mut lines, concat3("glaunch: Using profile '", n.as_str(), "'")),
            None => {},
        },
        None => {},
    }
    let ghost l0 = str_views(lines@);
    let mut res = "glaunch: Resolution: ".to_owned();
    let w = decimal_string(settings.width as u64);
    push_str(&mut res, w.as_str());
    push_str(&mut res, "x");
    let h = decimal_string(settings.height as u64);
    push_str(&mut res, h.as_str());
    push_str(&mut res, " @ ");
    let rr = decimal_string(settings.refresh_rate as u64);
    push_str(&mut res, rr.as_str());
    push_str(&mut res, "Hz");
    push_line(&mut lines, res);
    push_line(
        &mut lines,
        concat3("glaunch: HDR: ", on_off_text(settings.hdr), source_text(cli.hdr, profile_flag_of(ps, 0))),
    );
    push_line(
        &mut lines,
        concat3("glaunch: VRR: ", on_off_text(settings.vrr), source_text(cli.vrr, profile_flag_of(ps, 1))),
    );
    push_line(
        &mut lines,
        concat3(
            "glaunch: Gamescope: ",
            on_off_text(settings.gamescope),
            source_text(cli.gamescope, profile_flag_of(ps, 2)),
        ),
    );
    assert(str_views(lines@) =~= head_lines(settings@, cli@, profile));
    lines
}

fn feature_log_lines(
    settings: &ResolvedSettings,
    cli: &CliOverrides,
    profile: Option<&Profile>,
) -> (r: Vec<String>)
    ensures
        str_views(r@) == feature_lines(settings@, cli@, profile),
{
    let ghost sv = settings@;
    let ps = settings_ref(profile);
    let mut lines: Vec<String> = Vec::new();
    assert(str_views(lines@) =~= Seq::<Seq<char>>::empty());
    if settings.itm {
        let mut l = "glaunch: ITM: enabled".to_owned();
        push_str(&mut l, source_text(cli.itm, profile_flag_of(ps, 3)));
        push_line(&mut lines, l);
    }
    let ghost l1 = str_views(lines@);
    if settings.fsr4 {
        push_line(&mut lines, "glaunch: FSR4: enabled".to_owned());
    }
    let ghost l2 = str_views(lines@);
    if settings.mangohud {
        push_line(&mut lines, "glaunch: MangoHud: enabled".to_owned());
    }
    let ghost l3 = str_views(lines@);
    if settings.vkbasalt {
        let vk: &str = match &settings.vkbasalt_profile {
            Some(p) => p.as_str(),
            None => "default",
        };
        push_line(&mut lines, concat3("glaunch: vkBasalt: enabled (profile: ", vk, ")"));
    }
    let ghost l4 = str_views(lines@);
    if settings.fix_mouse {
        push_line(&mut lines, "glaunch: Mouse fix: enabled".to_owned());
    }
    let ghost l5 = str_views(lines@);
    if settings.vcache {
        push_line(&mut lines, "glaunch: V-Cache pinning: requested".to_owned());
    }
    assert(str_views(lines@) =~= feature_lines(sv, cli@, profile));
    lines
}

/// The lines that `--verbose` writes to stderr about the resolved settings.
pub fn log_settings(
    settings: &ResolvedSettings,
    cli: &CliOverrides,
    profile: Option<&Profile>,
) -> (r: Vec<String>)
    ensures
        str_views(r@) == log_lines(settings@, cli@, profile),
{
    let mut a = head_log_lines(settings, cli, profile);
    let mut b = feature_log_lines(settings, cli, profile);
    let ghost av = str_views(a@);
    let ghost bv = str_views(b@);
    a.append(&mut b);
    assert(str_views(a@) =~= av + bv);
    a
}

/// What `--verbose` reports of an app ID found in the game command.
pub fn app_id_notice(app_id: u64) -> (r: String)
    ensures
        r@ == "glaunch: detected Steam app ID "@ + decimal(app_id as nat),
{
    concat("glaunch: detected Steam app ID ", decimal_string(app_id).as_str())
}

// ----- Before the launch -----

/// The config files that must exist before the game is launched, each with the error reported
/// when it does not: the vkBasalt profile, then the MangoHud config, each where enabled and
/// named, under `home`.
pub open spec fn required_files(s: SettingsView, home: Seq<char>) -> Seq<(Seq<char>, Seq<char>)> {
    (if s.vkbasalt && named(s.vkbasalt_profile) {
        let p = config_file_under(home, "vkBasalt"@, s.vkbasalt_profile->0);
        seq![(p, "vkBasalt profile not found: "@ + p)]
    } else {
        Seq::empty()
    }) + (if s.mangohud && named(s.mangohud_config) {
        let p = config_file_under(home, "MangoHud"@, s.mangohud_config->0);
        seq![(p, "MangoHud config not found: "@ + p)]
    } else {
        Seq::empty()
    })
}

/// The config files to look for before the launch, as `(path, error when missing)` pairs, with
/// `home` as the home directory (see `required_files`).
pub fn required_config_files_under(settings: &ResolvedSettings, home: &str) -> (r: Vec<
    (String, String),
>)
    ensures
        pair_views(r@) == required_files(settings@, home@),
{
    let mut r: Vec<(String, String)> = Vec::new();
    if settings.vkbasalt {
        if let Some(p) = &settings.vkbasalt_profile {
            if !p.as_str().is_empty() {
                let path = config_file(home, "vkBasalt", p.as_str());
                let msg = concat("vkBasalt profile not found: ", path.as_str());
                r.push((path, msg));
            }
        }
    }
    let ghost first = pair_views(r@);
    if settings.mangohud {
        if let Some(c) = &settings.mangohud_config {
            if !c.as_str().is_empty() {
                let path = config_file(home, "MangoHud", c.as_str());
                let msg = concat("MangoHud config not found: ", path.as_str());
                r.push((path, msg));
            }
        }
    }
    assert(pair_views(r@) =~= required_files(settings@, home@));
    r
}

/// The config files to look for before the launch, under the user's home directory; `None`
/// when one is needed and the home directory is unknown.
pub fn required_config_files(settings: &ResolvedSettings) -> (r: Option<Vec<(String, String)>>)
    ensures
        !needs_home(settings@) ==> (r matches Some(v) && v@.len() == 0),
        r matches Some(v) ==> exists|home: Seq<char>|
            pair_views(v@) == required_files(settings@, home),
        r is None ==> needs_home(settings@),
{
    let vk_named = match &settings.vkbasalt_profile {
        Some(p) => !p.as_str().is_empty(),
        None => false,
    };
    let mh_named = match &settings.mangohud_config {
        Some(c) => !c.as_str().is_empty(),
        None => false,
    };
    if (settings.vkbasalt && vk_named) || (settings.mangohud && mh_named) {
        match user_home_dir() {
            Some(h) => {
                let v = required_config_files_under(settings, h.as_str());
                assert(pair_views(v@) == required_files(settings@, h@));
                Some(v)
            },
            None => None,
        }
    } else {
        let v: Vec<(String, String)> = Vec::new();
        assert(pair_views(v@) =~= required_files(settings@, Seq::empty()));
        Some(v)
    }
}

/// What is reported about V-Cache when pinning was asked for: with `--verbose`, the CCD that
/// will be used; when none was found, that the topology is symmetric (always).
pub open spec fn vcache_notice_text(detected: Option<VcacheInfo>, verbose: bool) -> Option<
    Seq<char>,
> {
    match detected {
        Some(v) => if verbose {
            Some(
                "glaunch: V-Cache detected \u{2014} pinning to CPUs "@ + v.cpus@ + " (L3: "@ + mib(
                    v.l3_size_kb,
                ) + "MB)"@,
            )
        } else {
            None
        },
        None => Some("glaunch: No X3D V-Cache topology detected \u{2014} all CCDs have equal L3"@),
    }
}

/// The V-Cache notice (see `vcache_notice_text`).
pub fn vcache_notice(detected: Option<&VcacheInfo>, verbose: bool) -> (r: Option<String>)
    ensures
        match vcache_notice_text(
            match detected {
                Some(v) => Some(*v),
                None => None,
            },
            verbose,
        ) {
            Some(t) => r matches Some(m) && m@ == t,
            None => r is None,
        },
{
    match detected {
        Some(v) => if verbose {
            let m = decimal_string(v.l3_size_kb / 1024);
            let a = concat("glaunch: V-Cache detected \u{2014} pinning to CPUs ", v.cpus.as_str());
            Some(concat3(a.as_str(), " (L3: ", concat(m.as_str(), "MB)").as_str()))
        } else {
            None
        },
        None => Some(copy_str("glaunch: No X3D V-Cache topology detected \u{2014} all CCDs have equal L3")),
    }
}

} // verus!
