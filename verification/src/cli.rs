//! The command line: subcommands and the flags of `glaunch run`, and what those flags override.
use vstd::prelude::*;

use crate::config::{resolved, CliOverrides, GlobalConfig, Profile, SettingsLayer};
use crate::text::copy_opt;

verus! {

pub struct Cli {
    pub command: Command,
}

pub enum Command {
    /// Launch a game (drop-in replacement for Steam launch options)
    Run(RunArgs),
    /// Manage per-game profiles
    Profile(ProfileArgs),
    /// Interactive profile editor
    Tui,
    /// Show detected hardware info
    Info(InfoArgs),
}

/// The flags of `glaunch run`.
pub struct RunArgs {
    /// Enable HDR inverse tone mapping (for SDR games)
    pub itm: bool,
    /// Enable FSR4 RDNA3 upgrade
    pub fsr4: bool,
    /// Disable HDR entirely
    pub no_hdr: bool,
    /// Disable adaptive sync (VRR)
    pub no_vrr: bool,
    /// Skip gamescope entirely (just gamemoderun + env)
    pub no_gamescope: bool,
    /// Pin to V-Cache CCD (auto-detects X3D topology)
    pub vcache: bool,
    /// Disable V-Cache CCD pinning
    pub no_vcache: bool,
    /// Fix Steam mouse stutter (LD_PRELOAD gamemode)
    pub fix_mouse: bool,
    /// Enable vkBasalt post-processing with optional profile name (empty when none was given)
    pub vkbasalt: Option<String>,
    /// Override width (default: 3840)
    pub width: Option<u32>,
    /// Override height (default: 2160)
    pub height: Option<u32>,
    /// Override refresh rate (default: 240)
    pub refresh_rate: Option<u32>,
    /// Enable MangoHud with optional config preset name (empty when none was given)
    pub mangohud: Option<String>,
    /// Load a saved profile by name or Steam app ID
    pub profile: Option<String>,
    /// Print the final command instead of executing it
    pub dry_run: bool,
    /// Log each decision to stderr
    pub verbose: bool,
    /// The game command (everything after --)
    pub command: Vec<String>,
}

pub struct ProfileArgs {
    pub command: ProfileCommand,
}

pub enum ProfileCommand {
    /// List all profiles
    List,
    /// Show a profile's settings
    Show { name: String },
    /// Create a new profile
    Create { name: String },
    /// Open a profile in $EDITOR
    Edit { name: String },
    /// Delete a profile
    Delete { name: String },
}

pub struct InfoArgs {
    /// Force re-detection (bypass cache)
    pub refresh: bool,
}

/// `Some(true)` for a flag that is given, else unset.
pub open spec fn flag_on(b: bool) -> Option<bool> {
    if b {
        Some(true)
    } else {
        None
    }
}

/// `Some(false)` for a `--no-...` flag that is given, else unset.
pub open spec fn flag_off(b: bool) -> Option<bool> {
    if b {
        Some(false)
    } else {
        None
    }
}

/// An optional name given with a flag: set only where given and not empty.
pub open spec fn given_name(o: Option<Seq<char>>) -> Option<Seq<char>> {
    match o {
        Some(n) => if n.len() > 0 {
            Some(n)
        } else {
            None
        },
        None => None,
    }
}

/// What the flags of `glaunch run` override: only what they mention.
pub open spec fn run_overrides(args: &RunArgs) -> SettingsLayer {
    SettingsLayer {
        width: args.width,
        height: args.height,
        refresh_rate: args.refresh_rate,
        hdr: flag_off(args.no_hdr),
        vrr: flag_off(args.no_vrr),
        gamescope: flag_off(args.no_gamescope),
        itm: flag_on(args.itm),
        fsr4: flag_on(args.fsr4),
        vcache: if args.vcache {
            Some(true)
        } else if args.no_vcache {
            Some(false)
        } else {
            None
        },
        fix_mouse: flag_on(args.fix_mouse),
        mangohud: if args.mangohud is Some {
            Some(true)
        } else {
            None
        },
        mangohud_config: given_name(args.mangohud.deep_view()),
        vkbasalt: if args.vkbasalt is Some {
            Some(true)
        } else {
            None
        },
        vkbasalt_profile: given_name(args.vkbasalt.deep_view()),
    }
}

/// Each flag of `glaunch run` sets its own setting and no other: `--no-gamescope`, `--no-hdr`
/// and `--no-vrr` turn theirs off, `--itm`, `--fsr4` and `--fix-mouse` turn theirs on,
/// `--vcache` and `--no-vcache` pin or unpin (the first winning), the sizes are taken as given,
/// and `--mangohud` / `--vkbasalt` switch their tool on; what no flag mentions stays unset.
pub proof fn lemma_run_flags_set_their_own_setting(args: &RunArgs)
    ensures
        run_overrides(args).gamescope == (if args.no_gamescope {
            Some(false)
        } else {
            None::<bool>
        }),
        run_overrides(args).hdr == (if args.no_hdr {
            Some(false)
        } else {
            None::<bool>
        }),
        run_overrides(args).vrr == (if args.no_vrr {
            Some(false)
        } else {
            None::<bool>
        }),
        run_overrides(args).itm == (if args.itm {
            Some(true)
        } else {
            None::<bool>
        }),
        run_overrides(args).fsr4 == (if args.fsr4 {
            Some(true)
        } else {
            None::<bool>
        }),
        run_overrides(args).fix_mouse == (if args.fix_mouse {
            Some(true)
        } else {
            None::<bool>
        }),
        run_overrides(args).vcache == (if args.vcache {
            Some(true)
        } else if args.no_vcache {
            Some(false)
        } else {
            None::<bool>
        }),
        run_overrides(args).width == args.width,
        run_overrides(args).height == args.height,
        run_overrides(args).refresh_rate == args.refresh_rate,
        run_overrides(args).mangohud == (if args.mangohud is Some {
            Some(true)
        } else {
            None::<bool>
        }),
        run_overrides(args).vkbasalt == (if args.vkbasalt is Some {
            Some(true)
        } else {
            None::<bool>
        }),
        run_overrides(args).mangohud_config is Some <==> (args.mangohud matches Some(n) && n@.len()
            > 0),
        run_overrides(args).mangohud_config matches Some(n) ==> args.mangohud matches Some(m) && n
            == m@,
        run_overrides(args).vkbasalt_profile is Some <==> (args.vkbasalt matches Some(n) && n@.len()
            > 0),
        run_overrides(args).vkbasalt_profile matches Some(n) ==> args.vkbasalt matches Some(m) && n
            == m@,
{
}

/// What the flags of `glaunch run` do to the resolved settings: `--no-gamescope` leaves the game
/// without gamescope, `--no-hdr` without HDR and `--no-vrr` without adaptive sync, whatever the
/// profile and the global config say; `--itm`, `--fsr4` and `--fix-mouse` turn theirs on; a
/// setting whose flag is not given resolves as it would without the command line.
pub proof fn lemma_run_flags_resolve(
    args: &RunArgs,
    cli: &CliOverrides,
    profile: Option<&Profile>,
    global: &GlobalConfig,
)
    requires
        cli@ == run_overrides(args),
    ensures
        args.no_gamescope ==> !resolved(Some(cli), profile, global).gamescope,
        !args.no_gamescope ==> resolved(Some(cli), profile, global).gamescope == resolved(
            None,
            profile,
            global,
        ).gamescope,
        args.no_hdr ==> !resolved(Some(cli), profile, global).hdr,
        !args.no_hdr ==> resolved(Some(cli), profile, global).hdr == resolved(
            None,
            profile,
            global,
        ).hdr,
        args.no_vrr ==> !resolved(Some(cli), profile, global).vrr,
        !args.no_vrr ==> resolved(Some(cli), profile, global).vrr == resolved(
            None,
            profile,
            global,
        ).vrr,
        args.itm ==> resolved(Some(cli), profile, global).itm,
        !args.itm ==> resolved(Some(cli), profile, global).itm == resolved(
            None,
            profile,
            global,
        ).itm,
        args.fsr4 ==> resolved(Some(cli), profile, global).fsr4,
        !args.fsr4 ==> resolved(Some(cli), profile, global).fsr4 == resolved(
            None,
            profile,
            global,
        ).fsr4,
        args.fix_mouse ==> resolved(Some(cli), profile, global).fix_mouse,
        !args.fix_mouse ==> resolved(Some(cli), profile, global).fix_mouse == resolved(
            None,
            profile,
            global,
        ).fix_mouse,
        args.vcache ==> resolved(Some(cli), profile, global).vcache,
        !args.vcache && args.no_vcache ==> !resolved(Some(cli), profile, global).vcache,
        args.width matches Some(w) ==> resolved(Some(cli), profile, global).width == w,
        args.height matches Some(h) ==> resolved(Some(cli), profile, global).height == h,
        args.refresh_rate matches Some(r) ==> resolved(Some(cli), profile, global).refresh_rate
            == r,
{
}

fn given(o: &Option<String>) -> (r: Option<String>)
    ensures
        r.deep_view() == given_name(o.deep_view()),
{
    match o {
        Some(n) => if n.as_str().is_empty() {
            None
        } else {
            copy_opt(o)
        },
        None => None,
    }
}

/// The command-line layer that the flags of `glaunch run` make.
pub fn cli_overrides_from_run_args(args: &RunArgs) -> (r: CliOverrides)
    ensures
        r@ == run_overrides(args),
{
    CliOverrides {
        width: args.width,
        height: args.height,
        refresh_rate: args.refresh_rate,
        hdr: if args.no_hdr {
            Some(false)
        } else {
            None
        },
        vrr: if args.no_vrr {
            Some(false)
        } else {
            None
        },
        gamescope: if args.no_gamescope {
            Some(false)
        } else {
            None
        },
        itm: if args.itm {
            Some(true)
        } else {
            None
        },
        fsr4: if args.fsr4 {
            Some(true)
        } else {
            None
        },
        vcache: if args.vcache {
            Some(true)
        } else if args.no_vcache {
            Some(false)
        } else {
            None
        },
        fix_mouse: if args.fix_mouse {
            Some(true)
        } else {
            None
        },
        mangohud: if args.mangohud.is_some() {
            Some(true)
        } else {
            None
        },
        mangohud_config: given(&args.mangohud),
        vkbasalt: if args.vkbasalt.is_some() {
            Some(true)
        } else {
            None
        },
        vkbasalt_profile: given(&args.vkbasalt),
    }
}

} // verus!
