//! Configuration model: the global config, per-game profiles, command-line overrides,
//! and the layered resolution CLI > profile > global > hardcoded.
use vstd::prelude::*;

use crate::split::str_views;
use crate::text::{char_vec, concat, copy_opt, parse_u64, parse_unsigned, push_chars, string_of};

verus! {

// ----- Configuration files (every field optional, for layered resolution) -----

#[derive(Debug, Clone, PartialEq, Eq)]
pub struct GlobalConfig {
    pub defaults: Option<DefaultsConfig>,
    pub mangohud: Option<MangoHudConfig>,
    pub hardware: Option<HardwareConfig>,
}

#[derive(Debug, Clone, PartialEq, Eq)]
pub struct DefaultsConfig {
    pub width: Option<u32>,
    pub height: Option<u32>,
    pub hdr: Option<bool>,
    pub vrr: Option<bool>,
    pub gamescope: Option<bool>,
}

#[derive(Debug, Clone, PartialEq, Eq)]
pub struct MangoHudConfig {
    pub enabled: Option<bool>,
    pub config: Option<String>,
}

#[derive(Debug, Clone, PartialEq, Eq)]
pub struct HardwareConfig {
    pub vcache_cpus: Option<String>,
}

#[derive(Debug, Clone, PartialEq, Eq)]
pub struct Profile {
    pub name: Option<String>,
    pub steam_app_id: Option<u64>,
    pub settings: Option<ProfileSettings>,
    pub mangohud: Option<MangoHudConfig>,
    pub vkbasalt: Option<VkBasaltConfig>,
}

#[derive(Debug, Clone, PartialEq, Eq)]
pub struct ProfileSettings {
    pub width: Option<u32>,
    pub height: Option<u32>,
    pub refresh_rate: Option<u32>,
    pub hdr: Option<bool>,
    pub vrr: Option<bool>,
    pub gamescope: Option<bool>,
    pub itm: Option<bool>,
    pub fsr4: Option<bool>,
    pub vcache: Option<bool>,
    pub fix_mouse: Option<bool>,
}

#[derive(Debug, Clone, PartialEq, Eq)]
pub struct VkBasaltConfig {
    pub enabled: Option<bool>,
    pub profile: Option<String>,
}

/// The command-line layer: what the user asked for on this launch.
#[derive(Debug, Clone, PartialEq, Eq)]
pub struct CliOverrides {
    pub width: Option<u32>,
    pub height: Option<u32>,
    pub refresh_rate: Option<u32>,
    pub hdr: Option<bool>,
    pub vrr: Option<bool>,
    pub gamescope: Option<bool>,
    pub itm: Option<bool>,
    pub fsr4: Option<bool>,
    pub vcache: Option<bool>,
    pub fix_mouse: Option<bool>,
    pub mangohud: Option<bool>,
    pub mangohud_config: Option<String>,
    pub vkbasalt: Option<bool>,
    pub vkbasalt_profile: Option<String>,
}

/// Fully resolved settings: every field decided.
#[derive(Debug, Clone, PartialEq, Eq)]
pub struct ResolvedSettings {
    pub width: u32,
    pub height: u32,
    pub refresh_rate: u32,
    pub hdr: bool,
    pub vrr: bool,
    pub gamescope: bool,
    pub itm: bool,
    pub fsr4: bool,
    pub vcache: bool,
    pub fix_mouse: bool,
    pub mangohud: bool,
    pub mangohud_config: Option<String>,
    pub vkbasalt: bool,
    pub vkbasalt_profile: Option<String>,
}

// ----- Mathematical model -----

/// A layer of settings: each field set or left to the layers below.
pub ghost struct SettingsLayer {
    pub width: Option<u32>,
    pub height: Option<u32>,
    pub refresh_rate: Option<u32>,
    pub hdr: Option<bool>,
    pub vrr: Option<bool>,
    pub gamescope: Option<bool>,
    pub itm: Option<bool>,
    pub fsr4: Option<bool>,
    pub vcache: Option<bool>,
    pub fix_mouse: Option<bool>,
    pub mangohud: Option<bool>,
    pub mangohud_config: Option<Seq<char>>,
    pub vkbasalt: Option<bool>,
    pub vkbasalt_profile: Option<Seq<char>>,
}

/// Resolved settings, with strings as character sequences.
pub ghost struct SettingsView {
    pub width: u32,
    pub height: u32,
    pub refresh_rate: u32,
    pub hdr: bool,
    pub vrr: bool,
    pub gamescope: bool,
    pub itm: bool,
    pub fsr4: bool,
    pub vcache: bool,
    pub fix_mouse: bool,
    pub mangohud: bool,
    pub mangohud_config: Option<Seq<char>>,
    pub vkbasalt: bool,
    pub vkbasalt_profile: Option<Seq<char>>,
}

pub ghost struct MangoHudView {
    pub enabled: Option<bool>,
    pub config: Option<Seq<char>>,
}

pub ghost struct VkBasaltView {
    pub enabled: Option<bool>,
    pub profile: Option<Seq<char>>,
}

pub ghost struct ProfileView {
    pub name: Option<Seq<char>>,
    pub steam_app_id: Option<u64>,
    pub settings: Option<ProfileSettings>,
    pub mangohud: Option<MangoHudView>,
    pub vkbasalt: Option<VkBasaltView>,
}

impl View for CliOverrides {
    type V = SettingsLayer;

    open spec fn view(&self) -> SettingsLayer {
        SettingsLayer {
            width: self.width,
            height: self.height,
            refresh_rate: self.refresh_rate,
            hdr: self.hdr,
            vrr: self.vrr,
            gamescope: self.gamescope,
            itm: self.itm,
            fsr4: self.fsr4,
            vcache: self.vcache,
            fix_mouse: self.fix_mouse,
            mangohud: self.mangohud,
            mangohud_config: self.mangohud_config.deep_view(),
            vkbasalt: self.vkbasalt,
            vkbasalt_profile: self.vkbasalt_profile.deep_view(),
        }
    }
}

impl View for ResolvedSettings {
    type V = SettingsView;

    open spec fn view(&self) -> SettingsView {
        SettingsView {
            width: self.width,
            height: self.height,
            refresh_rate: self.refresh_rate,
            hdr: self.hdr,
            vrr: self.vrr,
            gamescope: self.gamescope,
            itm: self.itm,
            fsr4: self.fsr4,
            vcache: self.vcache,
            fix_mouse: self.fix_mouse,
            mangohud: self.mangohud,
            mangohud_config: self.mangohud_config.deep_view(),
            vkbasalt: self.vkbasalt,
            vkbasalt_profile: self.vkbasalt_profile.deep_view(),
        }
    }
}

impl View for MangoHudConfig {
    type V = MangoHudView;

    open spec fn view(&self) -> MangoHudView {
        MangoHudView { enabled: self.enabled, config: self.config.deep_view() }
    }
}

impl View for VkBasaltConfig {
    type V = VkBasaltView;

    open spec fn view(&self) -> VkBasaltView {
        VkBasaltView { enabled: self.enabled, profile: self.profile.deep_view() }
    }
}

impl View for Profile {
    type V = ProfileView;

    open spec fn view(&self) -> ProfileView {
        ProfileView {
            name: self.name.deep_view(),
            steam_app_id: self.steam_app_id,
            settings: self.settings,
            mangohud: match self.mangohud {
                Some(m) => Some(m@),
                None => None,
            },
            vkbasalt: match self.vkbasalt {
                Some(v) => Some(v@),
                None => None,
            },
        }
    }
}

/// `a` if it is set, else `b` (`Option::or`).
pub open spec fn either<T>(a: Option<T>, b: Option<T>) -> Option<T> {
    if a is Some {
        a
    } else {
        b
    }
}

/// The value in `a`, else `d` (`Option::unwrap_or`).
pub open spec fn value_or<T>(a: Option<T>, d: T) -> T {
    match a {
        Some(v) => v,
        None => d,
    }
}

/// The layer that sets nothing.
pub open spec fn empty_layer() -> SettingsLayer {
    SettingsLayer {
        width: None,
        height: None,
        refresh_rate: None,
        hdr: None,
        vrr: None,
        gamescope: None,
        itm: None,
        fsr4: None,
        vcache: None,
        fix_mouse: None,
        mangohud: None,
        mangohud_config: None,
        vkbasalt: None,
        vkbasalt_profile: None,
    }
}

/// `top` laid over `below`: each field from `top` where `top` sets it, else from `below`.
pub open spec fn over(top: SettingsLayer, below: SettingsLayer) -> SettingsLayer {
    SettingsLayer {
        width: either(top.width, below.width),
        height: either(top.height, below.height),
        refresh_rate: either(top.refresh_rate, below.refresh_rate),
        hdr: either(top.hdr, below.hdr),
        vrr: either(top.vrr, below.vrr),
        gamescope: either(top.gamescope, below.gamescope),
        itm: either(top.itm, below.itm),
        fsr4: either(top.fsr4, below.fsr4),
        vcache: either(top.vcache, below.vcache),
        fix_mouse: either(top.fix_mouse, below.fix_mouse),
        mangohud: either(top.mangohud, below.mangohud),
        mangohud_config: either(top.mangohud_config, below.mangohud_config),
        vkbasalt: either(top.vkbasalt, below.vkbasalt),
        vkbasalt_profile: either(top.vkbasalt_profile, below.vkbasalt_profile),
    }
}

/// The command-line layer, or nothing when there is none.
pub open spec fn cli_layer(cli: Option<&CliOverrides>) -> SettingsLayer {
    match cli {
        Some(c) => c@,
        None => empty_layer(),
    }
}

/// What a profile sets: its `[settings]`, `[mangohud]` and `[vkbasalt]` tables.
pub open spec fn profile_layer(profile: Option<&Profile>) -> SettingsLayer {
    match profile {
        None => empty_layer(),
        Some(p) => {
            let s = p.settings;
            let m = p.mangohud;
            let v = p.vkbasalt;
            SettingsLayer {
                width: if let Some(s) = s { s.width } else { None },
                height: if let Some(s) = s { s.height } else { None },
                refresh_rate: if let Some(s) = s { s.refresh_rate } else { None },
                hdr: if let Some(s) = s { s.hdr } else { None },
                vrr: if let Some(s) = s { s.vrr } else { None },
                gamescope: if let Some(s) = s { s.gamescope } else { None },
                itm: if let Some(s) = s { s.itm } else { None },
                fsr4: if let Some(s) = s { s.fsr4 } else { None },
                vcache: if let Some(s) = s { s.vcache } else { None },
                fix_mouse: if let Some(s) = s { s.fix_mouse } else { None },
                mangohud: if let Some(m) = m { m.enabled } else { None },
                mangohud_config: if let Some(m) = m { m.config.deep_view() } else { None },
                vkbasalt: if let Some(v) = v { v.enabled } else { None },
                vkbasalt_profile: if let Some(v) = v { v.profile.deep_view() } else { None },
            }
        },
    }
}

/// What the global config sets: its `[defaults]` and `[mangohud]` tables.
pub open spec fn global_layer(global: &GlobalConfig) -> SettingsLayer {
    let d = global.defaults;
    let m = global.mangohud;
    SettingsLayer {
        width: if let Some(d) = d { d.width } else { None },
        height: if let Some(d) = d { d.height } else { None },
        refresh_rate: None,
        hdr: if let Some(d) = d { d.hdr } else { None },
        vrr: if let Some(d) = d { d.vrr } else { None },
        gamescope: if let Some(d) = d { d.gamescope } else { None },
        itm: None,
        fsr4: None,
        vcache: None,
        fix_mouse: None,
        mangohud: if let Some(m) = m { m.enabled } else { None },
        mangohud_config: if let Some(m) = m { m.config.deep_view() } else { None },
        vkbasalt: None,
        vkbasalt_profile: None,
    }
}

/// The hardcoded defaults for what no layer sets: 3840x2160 at 240 Hz, HDR, VRR and gamescope
/// on, everything else off.
pub open spec fn with_defaults(l: SettingsLayer) -> SettingsView {
    SettingsView {
        width: value_or(l.width, 3840u32),
        height: value_or(l.height, 2160u32),
        refresh_rate: value_or(l.refresh_rate, 240u32),
        hdr: value_or(l.hdr, true),
        vrr: value_or(l.vrr, true),
        gamescope: value_or(l.gamescope, true),
        itm: value_or(l.itm, false),
        fsr4: value_or(l.fsr4, false),
        vcache: value_or(l.vcache, false),
        fix_mouse: value_or(l.fix_mouse, false),
        mangohud: value_or(l.mangohud, false),
        mangohud_config: l.mangohud_config,
        vkbasalt: value_or(l.vkbasalt, false),
        vkbasalt_profile: l.vkbasalt_profile,
    }
}

/// The settings that CLI, profile and global config resolve to.
pub open spec fn resolved(
    cli: Option<&CliOverrides>,
    profile: Option<&Profile>,
    global: &GlobalConfig,
) -> SettingsView {
    with_defaults(over(cli_layer(cli), over(profile_layer(profile), global_layer(global))))
}

// ----- Defaults -----

impl Default for GlobalConfig {
    fn default() -> (r: Self)
        ensures
            r.defaults is None && r.mangohud is None && r.hardware is None,
    {
        GlobalConfig { defaults: None, mangohud: None, hardware: None }
    }
}

impl Default for DefaultsConfig {
    fn default() -> (r: Self)
        ensures
            r.width is None && r.height is None && r.hdr is None && r.vrr is None
                && r.gamescope is None,
    {
        DefaultsConfig { width: None, height: None, hdr: None, vrr: None, gamescope: None }
    }
}

impl Default for MangoHudConfig {
    fn default() -> (r: Self)
        ensures
            r.enabled is None && r.config is None,
    {
        MangoHudConfig { enabled: None, config: None }
    }
}

impl Default for HardwareConfig {
    fn default() -> (r: Self)
        ensures
            r.vcache_cpus is None,
    {
        HardwareConfig { vcache_cpus: None }
    }
}

impl Default for VkBasaltConfig {
    fn default() -> (r: Self)
        ensures
            r.enabled is None && r.profile is None,
    {
        VkBasaltConfig { enabled: None, profile: None }
    }
}

/// A `[settings]` table that sets nothing.
pub open spec fn no_settings() -> ProfileSettings {
    ProfileSettings {
        width: None,
        height: None,
        refresh_rate: None,
        hdr: None,
        vrr: None,
        gamescope: None,
        itm: None,
        fsr4: None,
        vcache: None,
        fix_mouse: None,
    }
}

impl Default for ProfileSettings {
    fn default() -> (r: Self)
        ensures
            r == no_settings(),
    {
        ProfileSettings {
            width: None,
            height: None,
            refresh_rate: None,
            hdr: None,
            vrr: None,
            gamescope: None,
            itm: None,
            fsr4: None,
            vcache: None,
            fix_mouse: None,
        }
    }
}

impl Default for Profile {
    fn default() -> (r: Self)
        ensures
            r.name is None && r.steam_app_id is None && r.settings is None && r.mangohud is None
                && r.vkbasalt is None,
    {
        Profile { name: None, steam_app_id: None, settings: None, mangohud: None, vkbasalt: None }
    }
}

impl Default for CliOverrides {
    fn default() -> (r: Self)
        ensures
            r@ == empty_layer(),
    {
        CliOverrides {
            width: None,
            height: None,
            refresh_rate: None,
            hdr: None,
            vrr: None,
            gamescope: None,
            itm: None,
            fsr4: None,
            vcache: None,
            fix_mouse: None,
            mangohud: None,
            mangohud_config: None,
            vkbasalt: None,
            vkbasalt_profile: None,
        }
    }
}

// ----- Layered resolution -----

fn either_u32(a: Option<u32>, b: Option<u32>) -> (r: Option<u32>)
    ensures
        r == either(a, b),
{
    if a.is_some() {
        a
    } else {
        b
    }
}

fn either_bool(a: Option<bool>, b: Option<bool>) -> (r: Option<bool>)
    ensures
        r == either(a, b),
{
    if a.is_some() {
        a
    } else {
        b
    }
}

fn either_string(a: &Option<String>, b: &Option<String>) -> (r: Option<String>)
    ensures
        r.deep_view() == either(a.deep_view(), b.deep_view()),
{
    if a.is_some() {
        copy_opt(a)
    } else {
        copy_opt(b)
    }
}

impl CliOverrides {
    /// This layer laid over `below`.
    pub fn over(&self, below: &CliOverrides) -> (r: CliOverrides)
        ensures
            r@ == over(self@, below@),
    {
        CliOverrides {
            width: either_u32(self.width, below.width),
            height: either_u32(self.height, below.height),
            refresh_rate: either_u32(self.refresh_rate, below.refresh_rate),
            hdr: either_bool(self.hdr, below.hdr),
            vrr: either_bool(self.vrr, below.vrr),
            gamescope: either_bool(self.gamescope, below.gamescope),
            itm: either_bool(self.itm, below.itm),
            fsr4: either_bool(self.fsr4, below.fsr4),
            vcache: either_bool(self.vcache, below.vcache),
            fix_mouse: either_bool(self.fix_mouse, below.fix_mouse),
            mangohud: either_bool(self.mangohud, below.mangohud),
            mangohud_config: either_string(&self.mangohud_config, &below.mangohud_config),
            vkbasalt: either_bool(self.vkbasalt, below.vkbasalt),
            vkbasalt_profile: either_string(&self.vkbasalt_profile, &below.vkbasalt_profile),
        }
    }

    /// A copy of this layer.
    pub fn copy(&self) -> (r: CliOverrides)
        ensures
            r@ == self@,
    {
        CliOverrides {
            width: self.width,
            height: self.height,
            refresh_rate: self.refresh_rate,
            hdr: self.hdr,
            vrr: self.vrr,
            gamescope: self.gamescope,
            itm: self.itm,
            fsr4: self.fsr4,
            vcache: self.vcache,
            fix_mouse: self.fix_mouse,
            mangohud: self.mangohud,
            mangohud_config: copy_opt(&self.mangohud_config),
            vkbasalt: self.vkbasalt,
            vkbasalt_profile: copy_opt(&self.vkbasalt_profile),
        }
    }
}

/// What `profile` sets, as a layer.
fn layer_of_profile(profile: Option<&Profile>) -> (r: CliOverrides)
    ensures
        r@ == profile_layer(profile),
{
    match profile {
        None => CliOverrides::default(),
        Some(p) => {
            let (width, height, refresh_rate, hdr, vrr, gamescope, itm, fsr4, vcache, fix_mouse) = match &p.settings {
                Some(s) => (
                    s.width,
                    s.height,
                    s.refresh_rate,
                    s.hdr,
                    s.vrr,
                    s.gamescope,
                    s.itm,
                    s.fsr4,
                    s.vcache,
                    s.fix_mouse,
                ),
                None => (None, None, None, None, None, None, None, None, None, None),
            };
            let (mangohud, mangohud_config) = match &p.mangohud {
                Some(m) => (m.enabled, copy_opt(&m.config)),
                None => (None, None),
            };
            let (vkbasalt, vkbasalt_profile) = match &p.vkbasalt {
                Some(v) => (v.enabled, copy_opt(&v.profile)),
                None => (None, None),
            };
            CliOverrides {
                width,
                height,
                refresh_rate,
                hdr,
                vrr,
                gamescope,
                itm,
                fsr4,
                vcache,
                fix_mouse,
                mangohud,
                mangohud_config,
                vkbasalt,
                vkbasalt_profile,
            }
        },
    }
}

/// What `global` sets, as a layer.
fn layer_of_global(global: &GlobalConfig) -> (r: CliOverrides)
    ensures
        r@ == global_layer(global),
{
    let (width, height, hdr, vrr, gamescope) = match &global.defaults {
        Some(d) => (d.width, d.height, d.hdr, d.vrr, d.gamescope),
        None => (None, None, None, None, None),
    };
    let (mangohud, mangohud_config) = match &global.mangohud {
        Some(m) => (m.enabled, copy_opt(&m.config)),
        None => (None, None),
    };
    CliOverrides {
        width,
        height,
        refresh_rate: None,
        hdr,
        vrr,
        gamescope,
        itm: None,
        fsr4: None,
        vcache: None,
        fix_mouse: None,
        mangohud,
        mangohud_config,
        vkbasalt: None,
        vkbasalt_profile: None,
    }
}

/// Resolve settings with layered precedence: CLI > profile > global > hardcoded.
pub fn resolve_settings_from_layers(
    cli: Option<&CliOverrides>,
    profile: Option<&Profile>,
    global: &GlobalConfig,
) -> (r: ResolvedSettings)
    ensures
        r@ == resolved(cli, profile, global),
{
    let top = match cli {
        Some(c) => c.copy(),
        None => CliOverrides::default(),
    };
    let below = layer_of_profile(profile).over(&layer_of_global(global));
    let l = top.over(&below);
    ResolvedSettings {
        width: match l.width {
            Some(v) => v,
            None => 3840,
        },
        height: match l.height {
            Some(v) => v,
            None => 2160,
        },
        refresh_rate: match l.refresh_rate {
            Some(v) => v,
            None => 240,
        },
        hdr: match l.hdr {
            Some(v) => v,
            None => true,
        },
        vrr: match l.vrr {
            Some(v) => v,
            None => true,
        },
        gamescope: match l.gamescope {
            Some(v) => v,
            None => true,
        },
        itm: match l.itm {
            Some(v) => v,
            None => false,
        },
        fsr4: match l.fsr4 {
            Some(v) => v,
            None => false,
        },
        vcache: match l.vcache {
            Some(v) => v,
            None => false,
        },
        fix_mouse: match l.fix_mouse {
            Some(v) => v,
            None => false,
        },
        mangohud: match l.mangohud {
            Some(v) => v,
            None => false,
        },
        mangohud_config: l.mangohud_config,
        vkbasalt: match l.vkbasalt {
            Some(v) => v,
            None => false,
        },
        vkbasalt_profile: l.vkbasalt_profile,
    }
}

// ----- Laws of the layered resolution -----

/// A setting given on the command line is the one used, whatever the profile and the global
/// config say.
pub proof fn lemma_cli_overrides_everything(
    cli: &CliOverrides,
    profile: Option<&Profile>,
    global: &GlobalConfig,
)
    ensures
        ({
            let r = resolved(Some(cli), profile, global);
            &&& cli.width matches Some(v) ==> r.width == v
            &&& cli.height matches Some(v) ==> r.height == v
            &&& cli.refresh_rate matches Some(v) ==> r.refresh_rate == v
            &&& cli.hdr matches Some(v) ==> r.hdr == v
            &&& cli.vrr matches Some(v) ==> r.vrr == v
            &&& cli.gamescope matches Some(v) ==> r.gamescope == v
            &&& cli.itm matches Some(v) ==> r.itm == v
            &&& cli.fsr4 matches Some(v) ==> r.fsr4 == v
            &&& cli.vcache matches Some(v) ==> r.vcache == v
            &&& cli.fix_mouse matches Some(v) ==> r.fix_mouse == v
            &&& cli.mangohud matches Some(v) ==> r.mangohud == v
            &&& cli.mangohud_config is Some ==> r.mangohud_config == cli@.mangohud_config
            &&& cli.vkbasalt matches Some(v) ==> r.vkbasalt == v
            &&& cli.vkbasalt_profile is Some ==> r.vkbasalt_profile == cli@.vkbasalt_profile
        }),
{
}

/// A setting the command line leaves unset falls through: it resolves as if there were no
/// command-line layer at all.
pub proof fn lemma_unset_cli_falls_through(
    cli: &CliOverrides,
    profile: Option<&Profile>,
    global: &GlobalConfig,
)
    ensures
        ({
            let r = resolved(Some(cli), profile, global);
            let n = resolved(None, profile, global);
            &&& cli.width is None ==> r.width == n.width
            &&& cli.height is None ==> r.height == n.height
            &&& cli.refresh_rate is None ==> r.refresh_rate == n.refresh_rate
            &&& cli.hdr is None ==> r.hdr == n.hdr
            &&& cli.vrr is None ==> r.vrr == n.vrr
            &&& cli.gamescope is None ==> r.gamescope == n.gamescope
            &&& cli.itm is None ==> r.itm == n.itm
            &&& cli.fsr4 is None ==> r.fsr4 == n.fsr4
            &&& cli.vcache is None ==> r.vcache == n.vcache
            &&& cli.fix_mouse is None ==> r.fix_mouse == n.fix_mouse
            &&& cli.mangohud is None ==> r.mangohud == n.mangohud
            &&& cli.mangohud_config is None ==> r.mangohud_config == n.mangohud_config
            &&& cli.vkbasalt is None ==> r.vkbasalt == n.vkbasalt
            &&& cli.vkbasalt_profile is None ==> r.vkbasalt_profile == n.vkbasalt_profile
        }),
        cli@ == empty_layer() ==> resolved(Some(cli), profile, global) == resolved(
            None,
            profile,
            global,
        ),
{
}

/// Where the command line is silent, a setting in the profile wins over the global config.
pub proof fn lemma_profile_overrides_global(
    cli: Option<&CliOverrides>,
    profile: &Profile,
    global: &GlobalConfig,
)
    ensures
        ({
            let c = cli_layer(cli);
            let p = profile_layer(Some(profile));
            let r = resolved(cli, Some(profile), global);
            &&& c.width is None ==> (p.width matches Some(v) ==> r.width == v)
            &&& c.height is None ==> (p.height matches Some(v) ==> r.height == v)
            &&& c.refresh_rate is None ==> (p.refresh_rate matches Some(v) ==> r.refresh_rate == v)
            &&& c.hdr is None ==> (p.hdr matches Some(v) ==> r.hdr == v)
            &&& c.vrr is None ==> (p.vrr matches Some(v) ==> r.vrr == v)
            &&& c.gamescope is None ==> (p.gamescope matches Some(v) ==> r.gamescope == v)
            &&& c.itm is None ==> (p.itm matches Some(v) ==> r.itm == v)
            &&& c.fsr4 is None ==> (p.fsr4 matches Some(v) ==> r.fsr4 == v)
            &&& c.vcache is None ==> (p.vcache matches Some(v) ==> r.vcache == v)
            &&& c.fix_mouse is None ==> (p.fix_mouse matches Some(v) ==> r.fix_mouse == v)
            &&& c.mangohud is None ==> (p.mangohud matches Some(v) ==> r.mangohud == v)
            &&& c.mangohud_config is None && p.mangohud_config is Some ==> r.mangohud_config
                == p.mangohud_config
            &&& c.vkbasalt is None ==> (p.vkbasalt matches Some(v) ==> r.vkbasalt == v)
            &&& c.vkbasalt_profile is None && p.vkbasalt_profile is Some ==> r.vkbasalt_profile
                == p.vkbasalt_profile
        }),
{
}

/// Where neither the command line nor the profile sets it, a setting in the global config wins
/// over the hardcoded default.
pub proof fn lemma_global_overrides_hardcoded(
    cli: Option<&CliOverrides>,
    profile: Option<&Profile>,
    global: &GlobalConfig,
)
    ensures
        ({
            let c = cli_layer(cli);
            let p = profile_layer(profile);
            let g = global_layer(global);
            let r = resolved(cli, profile, global);
            &&& c.width is None && p.width is None ==> (g.width matches Some(v) ==> r.width == v)
            &&& c.height is None && p.height is None ==> (g.height matches Some(v) ==> r.height == v)
            &&& c.hdr is None && p.hdr is None ==> (g.hdr matches Some(v) ==> r.hdr == v)
            &&& c.vrr is None && p.vrr is None ==> (g.vrr matches Some(v) ==> r.vrr == v)
            &&& c.gamescope is None && p.gamescope is None ==> (g.gamescope matches Some(v) ==> r.gamescope == v)
            &&& c.mangohud is None && p.mangohud is None ==> (g.mangohud matches Some(v) ==> r.mangohud == v)
            &&& c.mangohud_config is None && p.mangohud_config is None ==> r.mangohud_config
                == g.mangohud_config
        }),
{
}

/// What no layer sets takes the hardcoded default: 3840x2160 at 240 Hz, HDR, VRR and gamescope on,
/// ITM, FSR4, V-Cache pinning, the mouse fix, MangoHud and vkBasalt off, no config names.
pub proof fn lemma_hardcoded_defaults(
    cli: Option<&CliOverrides>,
    profile: Option<&Profile>,
    global: &GlobalConfig,
)
    ensures
        ({
            let l = over(cli_layer(cli), over(profile_layer(profile), global_layer(global)));
            let r = resolved(cli, profile, global);
            &&& l.width is None ==> r.width == 3840
            &&& l.height is None ==> r.height == 2160
            &&& l.refresh_rate is None ==> r.refresh_rate == 240
            &&& l.hdr is None ==> r.hdr
            &&& l.vrr is None ==> r.vrr
            &&& l.gamescope is None ==> r.gamescope
            &&& l.itm is None ==> !r.itm
            &&& l.fsr4 is None ==> !r.fsr4
            &&& l.vcache is None ==> !r.vcache
            &&& l.fix_mouse is None ==> !r.fix_mouse
            &&& l.mangohud is None ==> !r.mangohud
            &&& l.mangohud_config is None ==> r.mangohud_config is None
            &&& l.vkbasalt is None ==> !r.vkbasalt
            &&& l.vkbasalt_profile is None ==> r.vkbasalt_profile is None
        }),
{
}

/// The global config never decides the refresh rate, ITM, FSR4, V-Cache pinning, the mouse fix
/// or vkBasalt:
/// those come from the command line or the profile alone.
pub proof fn lemma_global_has_no_say(
    cli: Option<&CliOverrides>,
    profile: Option<&Profile>,
    g1: &GlobalConfig,
    g2: &GlobalConfig,
)
    ensures
        ({
            let r1 = resolved(cli, profile, g1);
            let r2 = resolved(cli, profile, g2);
            &&& r1.refresh_rate == r2.refresh_rate
            &&& r1.itm == r2.itm
            &&& r1.fsr4 == r2.fsr4
            &&& r1.vcache == r2.vcache
            &&& r1.fix_mouse == r2.fix_mouse
            &&& r1.vkbasalt == r2.vkbasalt
            &&& r1.vkbasalt_profile == r2.vkbasalt_profile
        }),
{
}

// ----- Paths -----

/// `PathBuf::join` on Unix: an absolute `part` replaces `base`; otherwise `part` is appended,
/// after a `/` unless `base` is empty or already ends in one.
pub open spec fn path_join(base: Seq<char>, part: Seq<char>) -> Seq<char> {
    if part.len() > 0 && part[0] == '/' {
        part
    } else if base.len() == 0 {
        part
    } else if base.last() == '/' {
        base + part
    } else {
        base + seq!['/'] + part
    }
}

/// `base.join(part)`, as strings.
pub fn join_path(base: &str, part: &str) -> (r: String)
    ensures
        r@ == path_join(base@, part@),
{
    let b = char_vec(base);
    let p = char_vec(part);
    if p.len() > 0 && p[0] == '/' {
        return string_of(&p);
    }
    if b.len() == 0 {
        return string_of(&p);
    }
    let mut r = string_of(&b);
    if b[b.len() - 1] != '/' {
        r.push('/');
    }
    push_chars(&mut r, &p);
    r
}

/// The application's directory under the user's configuration directory `xdg`.
pub open spec fn config_dir_under(xdg: Seq<char>) -> Seq<char> {
    path_join(xdg, "glaunch"@)
}

/// The profile directory under the user's configuration directory `xdg`.
pub open spec fn profiles_dir_under(xdg: Seq<char>) -> Seq<char> {
    path_join(config_dir_under(xdg), "profiles"@)
}

/// The file of the profile `slug` under the user's configuration directory `xdg`.
pub open spec fn profile_path_under(xdg: Seq<char>, slug: Seq<char>) -> Seq<char> {
    path_join(profiles_dir_under(xdg), slug + ".toml"@)
}

/// Calls `dirs::config_dir`; what comes back depends on the environment, and no claim is made
/// of it.
#[verifier::external_body]
fn user_config_dir() -> (r: Option<String>) {
    dirs::config_dir().map(|p| p.to_string_lossy().into_owned())
}

/// The application's configuration directory, `<XDG config>/glaunch`; `None` where the user's
/// configuration directory cannot be determined.
pub fn config_dir() -> (r: Option<String>)
    ensures
        r matches Some(d) ==> exists|xdg: Seq<char>| d@ == config_dir_under(xdg),
{
    match user_config_dir() {
        Some(x) => {
            let d = join_path(x.as_str(), "glaunch");
            assert(d@ == config_dir_under(x@));
            Some(d)
        },
        None => None,
    }
}

/// The profiles directory under the user's configuration directory `xdg`.
pub fn profiles_dir_in(xdg: &str) -> (r: String)
    ensures
        r@ == profiles_dir_under(xdg@),
{
    let c = join_path(xdg, "glaunch");
    join_path(c.as_str(), "profiles")
}

/// The file of the profile `slug` under the user's configuration directory `xdg`.
pub fn profile_path_in(xdg: &str, slug: &str) -> (r: String)
    ensures
        r@ == profile_path_under(xdg@, slug@),
{
    let d = profiles_dir_in(xdg);
    let f = concat(slug, ".toml");
    join_path(d.as_str(), f.as_str())
}

/// `<config dir>/profiles`.
pub fn profiles_dir() -> (r: Option<String>)
    ensures
        r matches Some(d) ==> exists|xdg: Seq<char>| d@ == profiles_dir_under(xdg),
{
    match user_config_dir() {
        Some(x) => {
            let d = profiles_dir_in(x.as_str());
            assert(d@ == profiles_dir_under(x@));
            Some(d)
        },
        None => None,
    }
}

/// `<config dir>/profiles/<slug>.toml`.
pub fn profile_path(slug: &str) -> (r: Option<String>)
    ensures
        r matches Some(p) ==> exists|xdg: Seq<char>| p@ == profile_path_under(xdg, slug@),
{
    match user_config_dir() {
        Some(x) => {
            let p = profile_path_in(x.as_str(), slug);
            assert(p@ == profile_path_under(x@, slug@));
            Some(p)
        },
        None => None,
    }
}

/// The name a profile is listed under: its name, else its slug.
pub open spec fn listed_name(slug: Seq<char>, p: Profile) -> Seq<char> {
    match p.name {
        Some(n) => n@,
        None => slug,
    }
}

// ----- Finding a game's profile by its Steam app ID -----

/// The marker of the argument by which Steam passes a game's app ID.
pub open spec fn app_id_marker() -> Seq<char> {
    "AppId="@
}

/// The app ID that an argument `AppId=<n>` gives: `<n>` read as a `u64` (an optional `+`,
/// then decimal digits); none for any other argument.
pub open spec fn app_id_arg(arg: Seq<char>) -> Option<u64> {
    let m = app_id_marker();
    if m.len() <= arg.len() && arg.take(m.len() as int) == m {
        match parse_unsigned(arg.skip(m.len() as int), u64::MAX as int) {
            Some(v) => Some(v as u64),
            None => None,
        }
    } else {
        None
    }
}

/// The app ID of the first argument of the command that gives one.
pub open spec fn first_app_id_arg(cmd: Seq<Seq<char>>) -> Option<u64>
    decreases cmd.len(),
{
    if cmd.len() == 0 {
        None
    } else {
        match first_app_id_arg(cmd.drop_last()) {
            Some(v) => Some(v),
            None => app_id_arg(cmd.last()),
        }
    }
}

/// The app ID that one argument gives (see `app_id_arg`).
fn app_id_of_arg(arg: &str) -> (r: Option<u64>)
    ensures
        r == app_id_arg(arg@),
{
    let cs = char_vec(arg);
    let marker = char_vec("AppId=");
    proof {
        reveal_strlit("AppId=");
    }
    let m = marker.len();
    if m > cs.len() {
        return None;
    }
    let mut i: usize = 0;
    while i < m
        invariant
            i <= m,
            m == marker@.len(),
            m <= cs@.len(),
            marker@ == app_id_marker(),
            cs@ == arg@,
            cs@.take(i as int) == marker@.take(i as int),
        decreases m - i,
    {
        if cs[i] != marker[i] {
            assert(cs@.take(m as int)[i as int] != marker@[i as int]);
            assert(cs@.take(m as int) != app_id_marker());
            return None;
        }
        assert(cs@.take(i + 1) =~= cs@.take(i as int).push(cs@[i as int]));
        assert(marker@.take(i + 1) =~= marker@.take(i as int).push(marker@[i as int]));
        i = i + 1;
    }
    assert(marker@.take(m as int) =~= marker@);
    let mut rest: Vec<char> = Vec::new();
    let n = cs.len();
    let mut j: usize = m;
    while j < n
        invariant
            m <= j <= n,
            n == cs@.len(),
            rest@ == cs@.subrange(m as int, j as int),
        decreases n - j,
    {
        rest.push(cs[j]);
        assert(cs@.subrange(m as int, j + 1) =~= cs@.subrange(m as int, j as int).push(cs@[j as int]));
        j = j + 1;
    }
    assert(rest@ =~= cs@.skip(m as int));
    let text = string_of(&rest);
    parse_u64(text.as_str())
}

/// The Steam app ID that the game command carries: that of its first `AppId=<n>` argument.
pub fn extract_steam_app_id(command: &[String]) -> (r: Option<u64>)
    ensures
        r == first_app_id_arg(str_views(command@)),
{
    let ghost cmd = str_views(command@);
    let n = command.len();
    assert(cmd.take(0) =~= Seq::<Seq<char>>::empty());
    for i in 0..n
        invariant
            n == command@.len(),
            cmd == str_views(command@),
            first_app_id_arg(cmd.take(i as int)) is None,
    {
        let found = app_id_of_arg(command[i].as_str());
        assert(cmd.take(i + 1).drop_last() =~= cmd.take(i as int));
        if found.is_some() {
            proof {
                lemma_first_app_id_prefix(cmd, i + 1);
            }
            return found;
        }
    }
    assert(cmd.take(n as int) =~= cmd);
    None
}

/// Once a prefix of the command gives an app ID, the whole command gives that one.
proof fn lemma_first_app_id_prefix(cmd: Seq<Seq<char>>, k: int)
    requires
        0 <= k <= cmd.len(),
        first_app_id_arg(cmd.take(k)) is Some,
    ensures
        first_app_id_arg(cmd) == first_app_id_arg(cmd.take(k)),
    decreases cmd.len() - k,
{
    if k < cmd.len() {
        assert(cmd.take(k + 1).drop_last() =~= cmd.take(k));
        lemma_first_app_id_prefix(cmd, k + 1);
    } else {
        assert(cmd.take(k) =~= cmd);
    }
}

/// The index of the first profile whose Steam app ID is `app_id`, if there is one.
pub fn find_profile_by_app_id(profiles: &Vec<(String, Profile)>, app_id: u64) -> (r: Option<usize>)
    ensures
        match r {
            Some(i) => {
                &&& i < profiles@.len()
                &&& profiles@[i as int].1.steam_app_id == Some(app_id)
                &&& forall|j: int| 0 <= j < i ==> #[trigger] profiles@[j].1.steam_app_id != Some(app_id)
            },
            None => forall|j: int|
                0 <= j < profiles@.len() ==> #[trigger] profiles@[j].1.steam_app_id != Some(app_id),
        },
{
    let n = profiles.len();
    for i in 0..n
        invariant
            n == profiles@.len(),
            forall|j: int| 0 <= j < i ==> #[trigger] profiles@[j].1.steam_app_id != Some(app_id),
    {
        if profiles[i].1.steam_app_id == Some(app_id) {
            return Some(i);
        }
    }
    None
}

// ----- Copies -----

impl ProfileSettings {
    /// A copy of these settings.
    pub fn copy(&self) -> (r: ProfileSettings)
        ensures
            r == *self,
    {
        ProfileSettings {
            width: self.width,
            height: self.height,
            refresh_rate: self.refresh_rate,
            hdr: self.hdr,
            vrr: self.vrr,
            gamescope: self.gamescope,
            itm: self.itm,
            fsr4: self.fsr4,
            vcache: self.vcache,
            fix_mouse: self.fix_mouse,
        }
    }
}

impl Profile {
    /// A copy of this profile.
    pub fn copy(&self) -> (r: Profile)
        ensures
            r@ == self@,
    {
        Profile {
            name: copy_opt(&self.name),
            steam_app_id: self.steam_app_id,
            settings: match &self.settings {
                Some(s) => Some(s.copy()),
                None => None,
            },
            mangohud: match &self.mangohud {
                Some(m) => Some(MangoHudConfig { enabled: m.enabled, config: copy_opt(&m.config) }),
                None => None,
            },
            vkbasalt: match &self.vkbasalt {
                Some(v) => Some(VkBasaltConfig { enabled: v.enabled, profile: copy_opt(&v.profile) }),
                None => None,
            },
        }
    }
}

// ----- Profiles made from a name -----

/// `s` with every `from` replaced by `to` (`str::replace` with single characters).
pub open spec fn replace_char(s: Seq<char>, from: char, to: char) -> Seq<char> {
    s.map_values(|c: char| if c == from { to } else { c })
}

/// The display name of a slug: its dashes read as spaces.
pub fn display_name_from_slug(slug: &str) -> (r: String)
    ensures
        r@ == replace_char(slug@, '-', ' '),
{
    let cs = char_vec(slug);
    let mut r = String::new();
    let n = cs.len();
    for i in 0..n
        invariant
            n == cs@.len(),
            cs@ == slug@,
            r@ == replace_char(slug@, '-', ' ').take(i as int),
    {
        let c = cs[i];
        r.push(if c == '-' { ' ' } else { c });
        assert(replace_char(slug@, '-', ' ').take(i + 1) =~= replace_char(slug@, '-', ' ').take(
            i as int,
        ).push(if c == '-' { ' ' } else { c }));
    }
    assert(replace_char(slug@, '-', ' ').take(n as int) =~= replace_char(slug@, '-', ' '));
    r
}

/// The profile that `glaunch profile create <slug>` writes: named after the slug, with an
/// empty `[settings]` table and nothing else.
pub fn new_profile_named(slug: &str) -> (r: Profile)
    ensures
        r@.name == Some(replace_char(slug@, '-', ' ')),
        r.steam_app_id is None,
        r.settings == Some(no_settings()),
        r.mangohud is None,
        r.vkbasalt is None,
{
    Profile {
        name: Some(display_name_from_slug(slug)),
        steam_app_id: None,
        settings: Some(ProfileSettings::default()),
        mangohud: None,
        vkbasalt: None,
    }
}

} // verus!
