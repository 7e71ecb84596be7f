//! The launch plan: environment variables and the command line that runs the game under
//! gamemode, gamescope and V-Cache pinning as the resolved settings ask.
use vstd::prelude::*;

use crate::config::{join_path, path_join, ResolvedSettings, SettingsView};
use crate::hardware::VcacheInfo;
use crate::split::{join, join_strings, str_views};
use crate::text::{concat, decimal, decimal_string, is_digit, lemma_decimal_digits};

verus! {

/// What to run: environment variables to set, then the command.
#[derive(Debug, Clone, PartialEq, Eq)]
pub struct LaunchPlan {
    pub env_vars: Vec<(String, String)>,
    pub command: Vec<String>,
}

/// Why no launch plan could be made.
#[derive(Debug, Clone, Copy, PartialEq, Eq)]
pub enum LaunchError {
    /// The game command is empty.
    NoGameCommand,
    /// A vkBasalt or MangoHud config file is named but the home directory is unknown.
    NoHomeDirectory,
}

pub ghost struct PlanView {
    pub env_vars: Seq<(Seq<char>, Seq<char>)>,
    pub command: Seq<Seq<char>>,
}

pub open spec fn pair_views(v: Seq<(String, String)>) -> Seq<(Seq<char>, Seq<char>)> {
    v.map_values(|p: (String, String)| (p.0@, p.1@))
}

impl View for LaunchPlan {
    type V = PlanView;

    open spec fn view(&self) -> PlanView {
        PlanView { env_vars: pair_views(self.env_vars@), command: str_views(self.command@) }
    }
}

/// `<home>/.config/<app_dir>/<name>.conf`.
pub open spec fn config_file_under(home: Seq<char>, app_dir: Seq<char>, name: Seq<char>) -> Seq<
    char,
> {
    path_join(path_join(path_join(home, ".config"@), app_dir), name + ".conf"@)
}

/// A config name that names a file: set and not empty.
pub open spec fn named(o: Option<Seq<char>>) -> bool {
    o matches Some(n) && n.len() > 0
}

/// Whether the plan names a file under the home directory.
pub open spec fn needs_home(s: SettingsView) -> bool {
    (s.vkbasalt && named(s.vkbasalt_profile)) || (s.mangohud && named(s.mangohud_config))
}

/// The environment: FSR4 upgrade, vkBasalt and its config file, MangoHud and its config file,
/// the gamemode preload for the mouse fix, in that order, each only where enabled.
pub open spec fn plan_env(s: SettingsView, home: Seq<char>) -> Seq<(Seq<char>, Seq<char>)> {
    (if s.fsr4 {
        seq![("PROTON_FSR4_RDNA3_UPGRADE"@, "1"@)]
    } else {
        Seq::empty()
    }) + (if s.vkbasalt {
        seq![("ENABLE_VKBASALT"@, "1"@)] + if named(s.vkbasalt_profile) {
            seq![
                ("VKBASALT_CONFIG_FILE"@, config_file_under(home, "vkBasalt"@, s.vkbasalt_profile->0)),
            ]
        } else {
            Seq::empty()
        }
    } else {
        Seq::empty()
    }) + (if s.mangohud {
        seq![("MANGOHUD"@, "1"@)] + if named(s.mangohud_config) {
            seq![("MANGOHUD_CONFIGFILE"@, config_file_under(home, "MangoHud"@, s.mangohud_config->0))]
        } else {
            Seq::empty()
        }
    } else {
        Seq::empty()
    }) + (if s.fix_mouse {
        seq![("LD_PRELOAD"@, "/usr/lib/libgamemodeauto.so.0"@)]
    } else {
        Seq::empty()
    })
}

/// `gamemoderun gamescope -W <w> -H <h> --fullscreen -r 240 [--adaptive-sync] [--hdr-enabled]
/// [--hdr-itm-enable] --`.
pub open spec fn gamescope_prefix(s: SettingsView) -> Seq<Seq<char>> {
    seq![
        "gamemoderun"@,
        "gamescope"@,
        "-W"@,
        decimal(s.width as nat),
        "-H"@,
        decimal(s.height as nat),
        "--fullscreen"@,
        "-r"@,
        "240"@,
    ] + (if s.vrr {
        seq!["--adaptive-sync"@]
    } else {
        Seq::empty()
    }) + (if s.hdr {
        seq!["--hdr-enabled"@]
    } else {
        Seq::empty()
    }) + (if s.itm {
        seq!["--hdr-itm-enable"@]
    } else {
        Seq::empty()
    }) + seq!["--"@]
}

/// The command: the game under gamemode (inside gamescope where enabled), all inside a
/// `systemd-run` scope pinned to the V-Cache CPUs where those are given.
pub open spec fn plan_command(
    s: SettingsView,
    vcache_cpus: Option<Seq<char>>,
    game: Seq<Seq<char>>,
) -> Seq<Seq<char>> {
    let base = if s.gamescope {
        gamescope_prefix(s) + game
    } else {
        seq!["gamemoderun"@] + game
    };
    match vcache_cpus {
        Some(c) => seq![
            "systemd-run"@,
            "--user"@,
            "--scope"@,
            "-p"@,
            "AllowedCPUs="@ + c,
            "--"@,
        ] + base,
        None => base,
    }
}

/// The environment sets the variable `key`.
pub open spec fn sets_var(env: Seq<(Seq<char>, Seq<char>)>, key: Seq<char>) -> bool {
    exists|i: int| 0 <= i < env.len() && #[trigger] env[i].0 == key
}

proof fn lemma_sets_var_add(a: Seq<(Seq<char>, Seq<char>)>, b: Seq<(Seq<char>, Seq<char>)>, key: Seq<char>)
    ensures
        sets_var(a + b, key) <==> sets_var(a, key) || sets_var(b, key),
{
    if sets_var(a + b, key) {
        let i = choose|i: int| 0 <= i < (a + b).len() && #[trigger] (a + b)[i].0 == key;
        if i < a.len() {
            assert(a[i] == (a + b)[i]);
        } else {
            assert(b[i - a.len()] == (a + b)[i]);
        }
    }
    if sets_var(a, key) {
        let i = choose|i: int| 0 <= i < a.len() && #[trigger] a[i].0 == key;
        assert((a + b)[i] == a[i]);
    }
    if sets_var(b, key) {
        let i = choose|i: int| 0 <= i < b.len() && #[trigger] b[i].0 == key;
        assert((a + b)[i + a.len()] == b[i]);
    }
}

proof fn lemma_sets_var_one(k: Seq<char>, v: Seq<char>, key: Seq<char>)
    ensures
        sets_var(seq![(k, v)], key) <==> k == key,
        sets_var(Seq::<(Seq<char>, Seq<char>)>::empty(), key) == false,
{
    if k == key {
        assert(seq![(k, v)][0].0 == key);
    }
}

/// Each variable of the environment is set exactly where the settings ask for it: the FSR4
/// upgrade, vkBasalt, MangoHud and the gamemode preload where enabled, each config file where its
/// tool is enabled and a config is named, and then as the file of that name under
/// `~/.config/vkBasalt` or `~/.config/MangoHud`.
pub proof fn lemma_plan_env_follows_settings(s: SettingsView, home: Seq<char>)
    ensures
        sets_var(plan_env(s, home), "PROTON_FSR4_RDNA3_UPGRADE"@) <==> s.fsr4,
        sets_var(plan_env(s, home), "ENABLE_VKBASALT"@) <==> s.vkbasalt,
        sets_var(plan_env(s, home), "VKBASALT_CONFIG_FILE"@) <==> s.vkbasalt && named(
            s.vkbasalt_profile,
        ),
        sets_var(plan_env(s, home), "MANGOHUD"@) <==> s.mangohud,
        sets_var(plan_env(s, home), "MANGOHUD_CONFIGFILE"@) <==> s.mangohud && named(
            s.mangohud_config,
        ),
        sets_var(plan_env(s, home), "LD_PRELOAD"@) <==> s.fix_mouse,
        s.fsr4 ==> plan_env(s, home).contains(("PROTON_FSR4_RDNA3_UPGRADE"@, "1"@)),
        s.vkbasalt ==> plan_env(s, home).contains(("ENABLE_VKBASALT"@, "1"@)),
        s.mangohud ==> plan_env(s, home).contains(("MANGOHUD"@, "1"@)),
        s.fix_mouse ==> plan_env(s, home).contains(("LD_PRELOAD"@, "/usr/lib/libgamemodeauto.so.0"@)),
        s.vkbasalt && named(s.vkbasalt_profile) ==> plan_env(s, home).contains(
            ("VKBASALT_CONFIG_FILE"@, config_file_under(home, "vkBasalt"@, s.vkbasalt_profile->0)),
        ),
        s.mangohud && named(s.mangohud_config) ==> plan_env(s, home).contains(
            ("MANGOHUD_CONFIGFILE"@, config_file_under(home, "MangoHud"@, s.mangohud_config->0)),
        ),
{
    broadcast use vstd::seq_lib::group_seq_properties;

    reveal_strlit("PROTON_FSR4_RDNA3_UPGRADE");
    reveal_strlit("ENABLE_VKBASALT");
    reveal_strlit("VKBASALT_CONFIG_FILE");
    reveal_strlit("MANGOHUD");
    reveal_strlit("MANGOHUD_CONFIGFILE");
    reveal_strlit("LD_PRELOAD");
    let fsr = "PROTON_FSR4_RDNA3_UPGRADE"@;
    let vk = "ENABLE_VKBASALT"@;
    let vkf = "VKBASALT_CONFIG_FILE"@;
    let mh = "MANGOHUD"@;
    let mhf = "MANGOHUD_CONFIGFILE"@;
    let ld = "LD_PRELOAD"@;
    let keys = seq![fsr, vk, vkf, mh, mhf, ld];
    assert(fsr.len() == 25 && vk.len() == 15 && vkf.len() == 20 && mh.len() == 8 && mhf.len()
        == 19 && ld.len() == 10);
    let vkp = if named(s.vkbasalt_profile) {
        seq![("VKBASALT_CONFIG_FILE"@, config_file_under(home, "vkBasalt"@, s.vkbasalt_profile->0))]
    } else {
        Seq::empty()
    };
    let vks = if s.vkbasalt {
        seq![("ENABLE_VKBASALT"@, "1"@)] + vkp
    } else {
        Seq::empty()
    };
    let mhp = if named(s.mangohud_config) {
        seq![("MANGOHUD_CONFIGFILE"@, config_file_under(home, "MangoHud"@, s.mangohud_config->0))]
    } else {
        Seq::empty()
    };
    let mhs = if s.mangohud {
        seq![("MANGOHUD"@, "1"@)] + mhp
    } else {
        Seq::empty()
    };
    let fs = if s.fsr4 {
        seq![("PROTON_FSR4_RDNA3_UPGRADE"@, "1"@)]
    } else {
        Seq::empty()
    };
    let lds = if s.fix_mouse {
        seq![("LD_PRELOAD"@, "/usr/lib/libgamemodeauto.so.0"@)]
    } else {
        Seq::empty()
    };
    assert(plan_env(s, home) == fs + vks + mhs + lds);
    assert forall|key: Seq<char>| keys.contains(key) implies (sets_var(plan_env(s, home), key) <==> (
    sets_var(fs, key) || sets_var(vks, key) || sets_var(mhs, key) || sets_var(lds, key))) by {
        lemma_sets_var_add(fs + vks + mhs, lds, key);
        lemma_sets_var_add(fs + vks, mhs, key);
        lemma_sets_var_add(fs, vks, key);
    }
    assert forall|key: Seq<char>| keys.contains(key) implies (sets_var(vks, key) <==> s.vkbasalt && (
    key == vk || sets_var(vkp, key))) && (sets_var(mhs, key) <==> s.mangohud && (key == mh
        || sets_var(mhp, key))) && (sets_var(vkp, key) <==> named(s.vkbasalt_profile) && key == vkf)
        && (sets_var(mhp, key) <==> named(s.mangohud_config) && key == mhf) && (sets_var(fs, key)
        <==> s.fsr4 && key == fsr) && (sets_var(lds, key) <==> s.fix_mouse && key == ld) by {
        lemma_sets_var_one(vk, "1"@, key);
        lemma_sets_var_one(mh, "1"@, key);
        lemma_sets_var_one(fsr, "1"@, key);
        lemma_sets_var_one(ld, "/usr/lib/libgamemodeauto.so.0"@, key);
        lemma_sets_var_one(
            vkf,
            config_file_under(home, "vkBasalt"@, s.vkbasalt_profile->0),
            key,
        );
        lemma_sets_var_one(mhf, config_file_under(home, "MangoHud"@, s.mangohud_config->0), key);
        if s.vkbasalt {
            lemma_sets_var_add(seq![("ENABLE_VKBASALT"@, "1"@)], vkp, key);
        }
        if s.mangohud {
            lemma_sets_var_add(seq![("MANGOHUD"@, "1"@)], mhp, key);
        }
    }
    assert(keys.contains(fsr)) by { assert(keys[0] == fsr); }
    assert(keys.contains(vk)) by { assert(keys[1] == vk); }
    assert(keys.contains(vkf)) by { assert(keys[2] == vkf); }
    assert(keys.contains(mh)) by { assert(keys[3] == mh); }
    assert(keys.contains(mhf)) by { assert(keys[4] == mhf); }
    assert(keys.contains(ld)) by { assert(keys[5] == ld); }
}

/// None of the fixed words of a command (everything but the switched gamescope flags and the
/// game's own words) is one of those flags.
proof fn lemma_fixed_words_are_not_flags(s: SettingsView, vcache_cpus: Option<Seq<char>>, f: Seq<char>)
    requires
        f == "--adaptive-sync"@ || f == "--hdr-enabled"@ || f == "--hdr-itm-enable"@,
    ensures
        !seq![
            "gamemoderun"@,
            "gamescope"@,
            "-W"@,
            decimal(s.width as nat),
            "-H"@,
            decimal(s.height as nat),
            "--fullscreen"@,
            "-r"@,
            "240"@,
        ].contains(f),
        !seq!["--"@].contains(f),
        !seq!["gamemoderun"@].contains(f),
        vcache_cpus matches Some(c) ==> !seq![
            "systemd-run"@,
            "--user"@,
            "--scope"@,
            "-p"@,
            "AllowedCPUs="@ + c,
            "--"@,
        ].contains(f),
{
    reveal_strlit("--adaptive-sync");
    reveal_strlit("--hdr-enabled");
    reveal_strlit("--hdr-itm-enable");
    reveal_strlit("gamemoderun");
    reveal_strlit("gamescope");
    reveal_strlit("-W");
    reveal_strlit("-H");
    reveal_strlit("--fullscreen");
    reveal_strlit("-r");
    reveal_strlit("240");
    reveal_strlit("--");
    reveal_strlit("systemd-run");
    reveal_strlit("--user");
    reveal_strlit("--scope");
    reveal_strlit("-p");
    reveal_strlit("AllowedCPUs=");
    broadcast use vstd::seq_lib::group_seq_properties;

    assert(f.len() >= 13 && f[0] == '-');
    assert("--"@.len() == 2);
    assert("--"@ != f);
    assert("gamemoderun"@ != f);
    lemma_decimal_digits(s.width as nat);
    lemma_decimal_digits(s.height as nat);
    assert(f[0] == '-');
    assert(is_digit(decimal(s.width as nat)[0]));
    assert(is_digit(decimal(s.height as nat)[0]));
    assert(decimal(s.width as nat) != f);
    assert(decimal(s.height as nat) != f);
    if let Some(c) = vcache_cpus {
        assert(("AllowedCPUs="@ + c)[0] == 'A');
        assert("AllowedCPUs="@ + c != f);
    }
}

/// With gamescope on, the command asks for adaptive sync, HDR and inverse tone mapping exactly
/// where the settings enable VRR, HDR and ITM; without gamescope it asks for none of them
/// (each as far as the game's own words do not hold that flag).
pub proof fn lemma_gamescope_flags_follow_settings(
    s: SettingsView,
    vcache_cpus: Option<Seq<char>>,
    game: Seq<Seq<char>>,
)
    ensures
        !game.contains("--adaptive-sync"@) ==> (plan_command(s, vcache_cpus, game).contains(
            "--adaptive-sync"@,
        ) <==> s.gamescope && s.vrr),
        !game.contains("--hdr-enabled"@) ==> (plan_command(s, vcache_cpus, game).contains(
            "--hdr-enabled"@,
        ) <==> s.gamescope && s.hdr),
        !game.contains("--hdr-itm-enable"@) ==> (plan_command(s, vcache_cpus, game).contains(
            "--hdr-itm-enable"@,
        ) <==> s.gamescope && s.itm),
{
    broadcast use vstd::seq_lib::group_seq_properties;

    let a = "--adaptive-sync"@;
    let h = "--hdr-enabled"@;
    let t = "--hdr-itm-enable"@;
    lemma_fixed_words_are_not_flags(s, vcache_cpus, a);
    lemma_fixed_words_are_not_flags(s, vcache_cpus, h);
    lemma_fixed_words_are_not_flags(s, vcache_cpus, t);
    reveal_strlit("--adaptive-sync");
    reveal_strlit("--hdr-enabled");
    reveal_strlit("--hdr-itm-enable");
    assert(a != h && a != t && h != t) by {
        assert(a.len() != h.len() && a.len() != t.len() && h.len() != t.len());
    }
    assert(seq![a].contains(a));
    assert(seq![h].contains(h));
    assert(seq![t].contains(t));
    assert(!seq![a].contains(h) && !seq![a].contains(t));
    assert(!seq![h].contains(a) && !seq![h].contains(t));
    assert(!seq![t].contains(a) && !seq![t].contains(h));
}

/// Every command runs the game under `gamemoderun`, with the game's own words last and
/// unchanged; the `gamescope` word is there exactly where the settings enable gamescope (as far
/// as the game's words do not hold it); with a V-Cache CPU list the command starts with the
/// `systemd-run` scope pinned to those CPUs, else with `gamemoderun`.
pub proof fn lemma_plan_runs_game(s: SettingsView, vcache_cpus: Option<Seq<char>>, game: Seq<Seq<char>>)
    ensures
        plan_command(s, vcache_cpus, game).len() >= game.len(),
        plan_command(s, vcache_cpus, game).skip(
            plan_command(s, vcache_cpus, game).len() - game.len(),
        ) == game,
        plan_command(s, vcache_cpus, game).contains("gamemoderun"@),
        !game.contains("gamescope"@) ==> (plan_command(s, vcache_cpus, game).contains(
            "gamescope"@,
        ) <==> s.gamescope),
        vcache_cpus matches Some(c) ==> plan_command(s, vcache_cpus, game).take(6) == seq![
            "systemd-run"@,
            "--user"@,
            "--scope"@,
            "-p"@,
            "AllowedCPUs="@ + c,
            "--"@,
        ],
        vcache_cpus is None ==> plan_command(s, vcache_cpus, game)[0] == "gamemoderun"@,
        s.gamescope ==> plan_command(s, vcache_cpus, game).skip(
            if vcache_cpus is Some {
                6int
            } else {
                0int
            },
        ).take(9) == seq![
            "gamemoderun"@,
            "gamescope"@,
            "-W"@,
            decimal(s.width as nat),
            "-H"@,
            decimal(s.height as nat),
            "--fullscreen"@,
            "-r"@,
            "240"@,
        ],
        s.gamescope ==> plan_command(s, vcache_cpus, game)[plan_command(s, vcache_cpus, game).len()
            - game.len() - 1] == "--"@,
        !s.gamescope ==> plan_command(s, vcache_cpus, game).len() == (if vcache_cpus is Some {
            6int
        } else {
            0int
        }) + 1 + game.len(),
{
    broadcast use vstd::seq_lib::group_seq_properties;

    let cmd = plan_command(s, vcache_cpus, game);
    let g = "gamescope"@;
    reveal_strlit("gamescope");
    reveal_strlit("gamemoderun");
    reveal_strlit("-W");
    reveal_strlit("-H");
    reveal_strlit("--fullscreen");
    reveal_strlit("-r");
    reveal_strlit("240");
    reveal_strlit("--");
    reveal_strlit("--adaptive-sync");
    reveal_strlit("--hdr-enabled");
    reveal_strlit("--hdr-itm-enable");
    reveal_strlit("systemd-run");
    reveal_strlit("--user");
    reveal_strlit("--scope");
    reveal_strlit("-p");
    reveal_strlit("AllowedCPUs=");
    lemma_decimal_digits(s.width as nat);
    lemma_decimal_digits(s.height as nat);
    assert(g.len() == 9 && g[0] == 'g');
    assert(is_digit(decimal(s.width as nat)[0]));
    assert(is_digit(decimal(s.height as nat)[0]));
    assert(decimal(s.width as nat) != g);
    assert(decimal(s.height as nat) != g);
    assert("gamemoderun"@ != g);
    assert("--"@ != g);
    let head = seq![
        "gamemoderun"@,
        "gamescope"@,
        "-W"@,
        decimal(s.width as nat),
        "-H"@,
        decimal(s.height as nat),
        "--fullscreen"@,
        "-r"@,
        "240"@,
    ];
    assert(head.contains(g)) by {
        assert(head[1] == g);
    }
    assert(!seq!["--adaptive-sync"@].contains(g));
    assert(!seq!["--hdr-enabled"@].contains(g));
    assert(!seq!["--hdr-itm-enable"@].contains(g));
    assert(!seq!["--"@].contains(g));
    assert(!seq!["gamemoderun"@].contains(g));
    let base = if s.gamescope {
        gamescope_prefix(s) + game
    } else {
        seq!["gamemoderun"@] + game
    };
    assert(base.skip(base.len() - game.len()) =~= game);
    if s.gamescope {
        assert(base.take(9) =~= head);
        assert(base[base.len() - game.len() - 1] == "--"@);
    }
    if vcache_cpus is None {
        assert(cmd.skip(0) =~= cmd);
    }
    assert(base.contains("gamemoderun"@)) by {
        assert(base[0] == "gamemoderun"@);
    }
    if let Some(c) = vcache_cpus {
        let wrap = seq![
            "systemd-run"@,
            "--user"@,
            "--scope"@,
            "-p"@,
            "AllowedCPUs="@ + c,
            "--"@,
        ];
        assert(("AllowedCPUs="@ + c)[0] == 'A');
        assert("AllowedCPUs="@ + c != g);
        assert(!wrap.contains(g));
        assert(cmd == wrap + base);
        assert(cmd.skip(cmd.len() - game.len()) =~= game);
        assert(cmd.take(6) =~= wrap);
        assert(cmd.skip(6) =~= base);
    }
}

pub open spec fn vcache_cpus(vcache: Option<&VcacheInfo>) -> Option<Seq<char>> {
    match vcache {
        Some(v) => Some(v.cpus@),
        None => None,
    }
}

pub open spec fn plan_of(
    s: SettingsView,
    vcache: Option<&VcacheInfo>,
    game: Seq<Seq<char>>,
    home: Seq<char>,
) -> PlanView {
    PlanView { env_vars: plan_env(s, home), command: plan_command(s, vcache_cpus(vcache), game) }
}

fn push_pair(v: &mut Vec<(String, String)>, k: &str, val: String)
    ensures
        pair_views(final(v)@) == pair_views(old(v)@).push((k@, val@)),
{
    let ghost before = v@;
    v.push((k.to_owned(), val));
    assert(pair_views(v@) =~= pair_views(before).push((k@, val@)));
}

fn push_word(v: &mut Vec<String>, w: String)
    ensures
        str_views(final(v)@) == str_views(old(v)@).push(w@),
{
    let ghost before = v@;
    v.push(w);
    assert(str_views(v@) =~= str_views(before).push(w@));
}

fn push_words(v: &mut Vec<String>, ws: &[String])
    ensures
        str_views(final(v)@) == str_views(old(v)@) + str_views(ws@),
{
    let n = ws.len();
    let ghost start = str_views(v@);
    for i in 0..n
        invariant
            n == ws@.len(),
            str_views(v@) == start + str_views(ws@).take(i as int),
    {
        push_word(v, ws[i].clone());
        assert(str_views(ws@).take(i + 1) =~= str_views(ws@).take(i as int).push(ws@[i as int]@));
        assert(start + str_views(ws@).take(i + 1) =~= (start + str_views(ws@).take(i as int)).push(
            ws@[i as int]@,
        ));
    }
    assert(str_views(ws@).take(n as int) =~= str_views(ws@));
}

/// `<home>/.config/<app_dir>/<name>.conf`.
pub(crate) fn config_file(home: &str, app_dir: &str, name: &str) -> (r: String)
    ensures
        r@ == config_file_under(home@, app_dir@, name@),
{
    let a = join_path(home, ".config");
    let b = join_path(a.as_str(), app_dir);
    let f = concat(name, ".conf");
    join_path(b.as_str(), f.as_str())
}

/// The environment of a plan, with config files under `home`.
fn plan_env_vars(settings: &ResolvedSettings, home: &str) -> (r: Vec<(String, String)>)
    ensures
        pair_views(r@) == plan_env(settings@, home@),
{
    let ghost sv = settings@;
    let mut env_vars: Vec<(String, String)> = Vec::new();
    assert(pair_views(env_vars@) =~= Seq::<(Seq<char>, Seq<char>)>::empty());
    if settings.fsr4 {
        push_pair(&mut env_vars, "PROTON_FSR4_RDNA3_UPGRADE", "1".to_owned());
    }
    let ghost e1 = pair_views(env_vars@);
    if settings.vkbasalt {
        push_pair(&mut env_vars, "ENABLE_VKBASALT", "1".to_owned());
        match &settings.vkbasalt_profile {
            Some(p) => {
                if !p.as_str().is_empty() {
                    push_pair(
                        &mut env_vars,
                        "VKBASALT_CONFIG_FILE",
                        config_file(home, "vkBasalt", p.as_str()),
                    );
                }
            },
            None => {},
        }
    }
    let ghost e2 = pair_views(env_vars@);
    assert(e2 =~= e1 + (if sv.vkbasalt {
        seq![("ENABLE_VKBASALT"@, "1"@)] + if named(sv.vkbasalt_profile) {
            seq![
                ("VKBASALT_CONFIG_FILE"@, config_file_under(home@, "vkBasalt"@, sv.vkbasalt_profile->0)),
            ]
        } else {
            Seq::empty()
        }
    } else {
        Seq::empty()
    }));
    if settings.mangohud {
        push_pair(&mut env_vars, "MANGOHUD", "1".to_owned());
        match &settings.mangohud_config {
            Some(c) => {
                if !c.as_str().is_empty() {
                    push_pair(
                        &mut env_vars,
                        "MANGOHUD_CONFIGFILE",
                        config_file(home, "MangoHud", c.as_str()),
                    );
                }
            },
            None => {},
        }
    }
    let ghost e3 = pair_views(env_vars@);
    assert(e3 =~= e2 + (if sv.mangohud {
        seq![("MANGOHUD"@, "1"@)] + if named(sv.mangohud_config) {
            seq![("MANGOHUD_CONFIGFILE"@, config_file_under(home@, "MangoHud"@, sv.mangohud_config->0))]
        } else {
            Seq::empty()
        }
    } else {
        Seq::empty()
    }));
    if settings.fix_mouse {
        push_pair(&mut env_vars, "LD_PRELOAD", "/usr/lib/libgamemodeauto.so.0".to_owned());
    }
    assert(pair_views(env_vars@) =~= plan_env(sv, home@));
    env_vars
}

/// `gamemoderun gamescope ... --` as the settings ask.
fn gamescope_words(settings: &ResolvedSettings) -> (r: Vec<String>)
    ensures
        str_views(r@) == gamescope_prefix(settings@),
{
    let mut command: Vec<String> = Vec::new();
    assert(str_views(command@) =~= Seq::<Seq<char>>::empty());
    push_word(&mut command, "gamemoderun".to_owned());
    push_word(&mut command, "gamescope".to_owned());
    push_word(&mut command, "-W".to_owned());
    push_word(&mut command, decimal_string(settings.width as u64));
    push_word(&mut command, "-H".to_owned());
    push_word(&mut command, decimal_string(settings.height as u64));
    push_word(&mut command, "--fullscreen".to_owned());
    push_word(&mut command, "-r".to_owned());
    push_word(&mut command, "240".to_owned());
    if settings.vrr {
        push_word(&mut command, "--adaptive-sync".to_owned());
    }
    if settings.hdr {
        push_word(&mut command, "--hdr-enabled".to_owned());
    }
    if settings.itm {
        push_word(&mut command, "--hdr-itm-enable".to_owned());
    }
    push_word(&mut command, "--".to_owned());
    assert(str_views(command@) =~= gamescope_prefix(settings@));
    command
}

/// The command of a plan.
fn plan_command_words(
    settings: &ResolvedSettings,
    vcache: Option<&VcacheInfo>,
    game_command: &[String],
) -> (r: Vec<String>)
    ensures
        str_views(r@) == plan_command(settings@, vcache_cpus(vcache), str_views(game_command@)),
{
    let mut command: Vec<String> = Vec::new();
    assert(str_views(command@) =~= Seq::<Seq<char>>::empty());
    match vcache {
        Some(v) => {
            push_word(&mut command, "systemd-run".to_owned());
            push_word(&mut command, "--user".to_owned());
            push_word(&mut command, "--scope".to_owned());
            push_word(&mut command, "-p".to_owned());
            push_word(&mut command, concat("AllowedCPUs=", v.cpus.as_str()));
            push_word(&mut command, "--".to_owned());
        },
        None => {},
    }
    let ghost c0 = str_views(command@);
    if settings.gamescope {
        let mut g = gamescope_words(settings);
        let ghost gv = str_views(g@);
        command.append(&mut g);
        assert(str_views(command@) =~= c0 + gv);
    } else {
        push_word(&mut command, "gamemoderun".to_owned());
    }
    push_words(&mut command, game_command);
    assert(str_views(command@) =~= plan_command(settings@, vcache_cpus(vcache), str_views(game_command@)));
    command
}

/// The launch plan for the given settings, V-Cache CCD and game command, with config files
/// under `home` (which is not read unless a config file is named).
pub fn build_launch_plan_with_home(
    settings: &ResolvedSettings,
    vcache: Option<&VcacheInfo>,
    game_command: &[String],
    home: Option<&str>,
) -> (r: Result<LaunchPlan, LaunchError>)
    ensures
        game_command@.len() == 0 ==> r == Err::<LaunchPlan, LaunchError>(LaunchError::NoGameCommand),
        game_command@.len() > 0 && needs_home(settings@) && home is None ==> r == Err::<
            LaunchPlan,
            LaunchError,
        >(LaunchError::NoHomeDirectory),
        game_command@.len() > 0 && (!needs_home(settings@) || home is Some) ==> (r matches Ok(p)
            && p@ == plan_of(
            settings@,
            vcache,
            str_views(game_command@),
            match home {
                Some(h) => h@,
                None => Seq::empty(),
            },
        )),
{
    if game_command.len() == 0 {
        return Err(LaunchError::NoGameCommand);
    }
    let vk_named = match &settings.vkbasalt_profile {
        Some(p) => !p.as_str().is_empty(),
        None => false,
    };
    let mh_named = match &settings.mangohud_config {
        Some(c) => !c.as_str().is_empty(),
        None => false,
    };
    let env_vars = match home {
        Some(h) => plan_env_vars(settings, h),
        None => {
            if (settings.vkbasalt && vk_named) || (settings.mangohud && mh_named) {
                return Err(LaunchError::NoHomeDirectory);
            }
            let e = plan_env_vars(settings, "");
            proof {
                reveal_strlit("");
                assert(plan_env(settings@, ""@) == plan_env(settings@, Seq::<char>::empty()));
            }
            e
        },
    };
    let command = plan_command_words(settings, vcache, game_command);
    Ok(LaunchPlan { env_vars, command })
}

/// Calls `dirs::home_dir`; what comes back depends on the environment, and no claim is made of
/// it.
#[verifier::external_body]
pub(crate) fn user_home_dir() -> (r: Option<String>) {
    dirs::home_dir().map(|p| p.to_string_lossy().into_owned())
}

/// The launch plan for the given settings, V-Cache CCD and game command; config files named in
/// the settings are looked for under the user's home directory.
pub fn build_launch_plan(
    settings: &ResolvedSettings,
    vcache: Option<&VcacheInfo>,
    game_command: &[String],
) -> (r: Result<LaunchPlan, LaunchError>)
    ensures
        game_command@.len() == 0 ==> r == Err::<LaunchPlan, LaunchError>(LaunchError::NoGameCommand),
        game_command@.len() > 0 && !needs_home(settings@) ==> (r matches Ok(p) && p@ == plan_of(
            settings@,
            vcache,
            str_views(game_command@),
            Seq::empty(),
        )),
        r matches Ok(p) ==> exists|home: Seq<char>|
            p@ == plan_of(settings@, vcache, str_views(game_command@), home),
        r == Err::<LaunchPlan, LaunchError>(LaunchError::NoHomeDirectory) ==> game_command@.len()
            > 0 && needs_home(settings@),
{
    if game_command.len() == 0 {
        return Err(LaunchError::NoGameCommand);
    }
    let vk_named = match &settings.vkbasalt_profile {
        Some(p) => !p.as_str().is_empty(),
        None => false,
    };
    let mh_named = match &settings.mangohud_config {
        Some(c) => !c.as_str().is_empty(),
        None => false,
    };
    if (settings.vkbasalt && vk_named) || (settings.mangohud && mh_named) {
        match user_home_dir() {
            Some(h) => {
                let r = build_launch_plan_with_home(settings, vcache, game_command, Some(h.as_str()));
                assert(r matches Ok(p) ==> p@ == plan_of(
                    settings@,
                    vcache,
                    str_views(game_command@),
                    h@,
                ));
                r
            },
            None => Err(LaunchError::NoHomeDirectory),
        }
    } else {
        build_launch_plan_with_home(settings, vcache, game_command, None)
    }
}

/// The words of a dry run: each variable as `KEY=value`, then the command.
pub open spec fn dry_run_words(p: PlanView) -> Seq<Seq<char>> {
    p.env_vars.map_values(|kv: (Seq<char>, Seq<char>)| kv.0 + "="@ + kv.1) + p.command
}

/// The plan as one shell-like line: the words of a dry run separated by single spaces.
pub fn dry_run_output(plan: &LaunchPlan) -> (r: String)
    ensures
        r@ == join(dry_run_words(plan@), " "@),
{
    let mut parts: Vec<String> = Vec::new();
    let n = plan.env_vars.len();
    let ghost env = plan@.env_vars;
    for i in 0..n
        invariant
            n == plan.env_vars@.len(),
            env == plan@.env_vars,
            str_views(parts@) == env.take(i as int).map_values(
                |kv: (Seq<char>, Seq<char>)| kv.0 + "="@ + kv.1,
            ),
    {
        let (k, v) = &plan.env_vars[i];
        assert(env[i as int] == (k@, v@));
        let kv = concat(concat(k.as_str(), "=").as_str(), v.as_str());
        push_word(&mut parts, kv);
        assert(env.take(i + 1).map_values(|kv: (Seq<char>, Seq<char>)| kv.0 + "="@ + kv.1)
            =~= env.take(i as int).map_values(|kv: (Seq<char>, Seq<char>)| kv.0 + "="@ + kv.1).push(
            k@ + "="@ + v@,
        ));
    }
    assert(env.take(n as int) =~= env);
    push_words(&mut parts, plan.command.as_slice());
    assert(str_views(parts@) =~= dry_run_words(plan@));
    join_strings(&parts, " ")
}

} // verus!
