//! The profile editor's form: one text or toggle field per profile setting, filled from a
//! profile and read back into one.
use vstd::prelude::*;

use crate::config::{no_settings, MangoHudConfig, MangoHudView, Profile, ProfileSettings, ProfileView, VkBasaltConfig, VkBasaltView};
use crate::order::str_eq;
use crate::split::{push_line, str_views};
use crate::text::{
    concat, concat3, pad_right, pad_to,
    copy_opt, copy_str, decimal, decimal_string, lemma_parse_decimal, parse_u32, parse_u64,
    parse_unsigned, pop_char, without_last,
};
use vstd::arithmetic::div_mod::{lemma_mod_self_0, lemma_small_mod};

use crate::tui::{editor_wf, list_wf, App, Key, Screen};

verus! {

/// The editor's state: the form, the selected field, and whether a text field is being typed
/// into.
#[derive(Debug, Clone)]
pub struct EditState {
    pub is_new: bool,
    pub fields: Vec<Field>,
    pub selected: usize,
    pub editing_text: bool,
}

/// One field of the form: free text, or a toggle that is on, off, or left to inherit (`None`).
#[derive(Debug, Clone)]
pub enum Field {
    Text { label: String, value: String },
    Toggle { label: String, value: Option<bool> },
}

pub ghost enum FieldView {
    Text { label: Seq<char>, value: Seq<char> },
    Toggle { label: Seq<char>, value: Option<bool> },
}

impl View for Field {
    type V = FieldView;

    open spec fn view(&self) -> FieldView {
        match self {
            Field::Text { label, value } => FieldView::Text { label: label@, value: value@ },
            Field::Toggle { label, value } => FieldView::Toggle { label: label@, value: *value },
        }
    }
}

pub open spec fn field_views(v: Seq<Field>) -> Seq<FieldView> {
    v.map_values(|f: Field| f@)
}

/// The value of the first text field with this label, or empty.
pub open spec fn text_value(fields: Seq<FieldView>, label: Seq<char>) -> Seq<char>
    decreases fields.len(),
{
    if fields.len() == 0 {
        Seq::empty()
    } else {
        match fields[0] {
            FieldView::Text { label: l, value } => if l == label {
                value
            } else {
                text_value(fields.drop_first(), label)
            },
            _ => text_value(fields.drop_first(), label),
        }
    }
}

/// The value of the first toggle with this label, or inherit.
pub open spec fn toggle_value(fields: Seq<FieldView>, label: Seq<char>) -> Option<bool>
    decreases fields.len(),
{
    if fields.len() == 0 {
        None
    } else {
        match fields[0] {
            FieldView::Toggle { label: l, value } => if l == label {
                value
            } else {
                toggle_value(fields.drop_first(), label)
            },
            _ => toggle_value(fields.drop_first(), label),
        }
    }
}

pub open spec fn text_field(label: Seq<char>, value: Seq<char>) -> FieldView {
    FieldView::Text { label, value }
}

pub open spec fn toggle_field(label: Seq<char>, value: Option<bool>) -> FieldView {
    FieldView::Toggle { label, value }
}

/// The number as the form shows it: decimal, or empty when unset.
pub open spec fn shown_number(n: Option<u64>) -> Seq<char> {
    match n {
        Some(v) => decimal(v as nat),
        None => Seq::empty(),
    }
}

/// The form, in order: slug, name, Steam app ID, width, height, refresh rate as text; HDR, ITM,
/// VRR, FSR4,
/// gamescope, V-Cache, mouse fix, MangoHud, vkBasalt as toggles; the vkBasalt profile as text.
pub open spec fn form(
    slug: Seq<char>,
    name: Seq<char>,
    app_id: Seq<char>,
    width: Seq<char>,
    height: Seq<char>,
    refresh_rate: Seq<char>,
    s: Option<ProfileSettings>,
    mangohud: Option<bool>,
    vkbasalt: Option<bool>,
    vkbasalt_profile: Seq<char>,
) -> Seq<FieldView> {
    let g = |f: spec_fn(ProfileSettings) -> Option<bool>|
        match s {
            Some(x) => f(x),
            None => None,
        };
    seq![
        text_field("Slug"@, slug),
        text_field("Name"@, name),
        text_field("Steam App ID"@, app_id),
        text_field("Width"@, width),
        text_field("Height"@, height),
        text_field("Refresh Rate"@, refresh_rate),
        toggle_field("HDR"@, g(|x: ProfileSettings| x.hdr)),
        toggle_field("ITM"@, g(|x: ProfileSettings| x.itm)),
        toggle_field("VRR"@, g(|x: ProfileSettings| x.vrr)),
        toggle_field("FSR4"@, g(|x: ProfileSettings| x.fsr4)),
        toggle_field("Gamescope"@, g(|x: ProfileSettings| x.gamescope)),
        toggle_field("V-Cache"@, g(|x: ProfileSettings| x.vcache)),
        toggle_field("Fix Mouse"@, g(|x: ProfileSettings| x.fix_mouse)),
        toggle_field("MangoHud"@, mangohud),
        toggle_field("vkBasalt"@, vkbasalt),
        text_field("vkBasalt Profile"@, vkbasalt_profile),
    ]
}

/// The form of a new profile: everything empty or inherited, but 3840x2160.
pub open spec fn new_form() -> Seq<FieldView> {
    form(
        Seq::empty(),
        Seq::empty(),
        Seq::empty(),
        "3840"@,
        "2160"@,
        Seq::empty(),
        None,
        None,
        None,
        Seq::empty(),
    )
}

/// The form of an existing profile.
pub open spec fn profile_form(slug: Seq<char>, p: ProfileView) -> Seq<FieldView> {
    form(
        slug,
        match p.name {
            Some(n) => n,
            None => Seq::empty(),
        },
        shown_number(p.steam_app_id),
        shown_number(
            match p.settings {
                Some(s) => match s.width {
                    Some(w) => Some(w as u64),
                    None => None,
                },
                None => None,
            },
        ),
        shown_number(
            match p.settings {
                Some(s) => match s.height {
                    Some(h) => Some(h as u64),
                    None => None,
                },
                None => None,
            },
        ),
        shown_number(
            match p.settings {
                Some(s) => match s.refresh_rate {
                    Some(r) => Some(r as u64),
                    None => None,
                },
                None => None,
            },
        ),
        p.settings,
        match p.mangohud {
            Some(m) => m.enabled,
            None => None,
        },
        match p.vkbasalt {
            Some(v) => v.enabled,
            None => None,
        },
        match p.vkbasalt {
            Some(v) => match v.profile {
                Some(x) => x,
                None => Seq::empty(),
            },
            None => Seq::empty(),
        },
    )
}

/// A number typed into the form: read as `str::parse` reads it, unset where that fails.
pub open spec fn typed_number(s: Seq<char>, max: int) -> Option<int> {
    parse_unsigned(s, max)
}

/// The profile that a form describes (empty texts and unreadable numbers become unset; a
/// table is written only where one of its fields is set; MangoHud keeps no config name).
pub open spec fn form_profile(f: Seq<FieldView>) -> ProfileView {
    let name = text_value(f, "Name"@);
    let width = match typed_number(text_value(f, "Width"@), u32::MAX as int) {
        Some(v) => Some(v as u32),
        None => None,
    };
    let height = match typed_number(text_value(f, "Height"@), u32::MAX as int) {
        Some(v) => Some(v as u32),
        None => None,
    };
    let refresh_rate = match typed_number(text_value(f, "Refresh Rate"@), u32::MAX as int) {
        Some(v) => Some(v as u32),
        None => None,
    };
    let settings = ProfileSettings {
        width,
        height,
        refresh_rate,
        hdr: toggle_value(f, "HDR"@),
        vrr: toggle_value(f, "VRR"@),
        gamescope: toggle_value(f, "Gamescope"@),
        itm: toggle_value(f, "ITM"@),
        fsr4: toggle_value(f, "FSR4"@),
        vcache: toggle_value(f, "V-Cache"@),
        fix_mouse: toggle_value(f, "Fix Mouse"@),
    };
    let has_settings = settings.width is Some || settings.height is Some
        || settings.refresh_rate is Some || settings.hdr is Some
        || settings.vrr is Some || settings.gamescope is Some || settings.itm is Some
        || settings.fsr4 is Some || settings.vcache is Some || settings.fix_mouse is Some;
    let vk_profile = text_value(f, "vkBasalt Profile"@);
    let vk_prof = if vk_profile.len() == 0 {
        None
    } else {
        Some(vk_profile)
    };
    let vk_enabled = toggle_value(f, "vkBasalt"@);
    ProfileView {
        name: if name.len() == 0 {
            None
        } else {
            Some(name)
        },
        steam_app_id: match typed_number(text_value(f, "Steam App ID"@), u64::MAX as int) {
            Some(v) => Some(v as u64),
            None => None,
        },
        settings: if has_settings {
            Some(settings)
        } else {
            None
        },
        mangohud: match toggle_value(f, "MangoHud"@) {
            Some(e) => Some(MangoHudView { enabled: Some(e), config: None }),
            None => None,
        },
        vkbasalt: if vk_enabled is Some || vk_prof is Some {
            Some(VkBasaltView { enabled: vk_enabled, profile: vk_prof })
        } else {
            None
        },
    }
}

fn text(label: &str, value: String) -> (r: Field)
    ensures
        r@ == text_field(label@, value@),
{
    Field::Text { label: label.to_owned(), value }
}

fn toggle(label: &str, value: Option<bool>) -> (r: Field)
    ensures
        r@ == toggle_field(label@, value),
{
    Field::Toggle { label: label.to_owned(), value }
}

fn push_field(v: &mut Vec<Field>, f: Field)
    ensures
        field_views(final(v)@) == field_views(old(v)@).push(f@),
{
    let ghost before = v@;
    v.push(f);
    assert(field_views(v@) =~= field_views(before).push(f@));
}

fn number_text(n: Option<u64>) -> (r: String)
    ensures
        r@ == shown_number(n),
{
    match n {
        Some(v) => decimal_string(v),
        None => String::new(),
    }
}

fn build_form(
    slug: String,
    name: String,
    app_id: String,
    width: String,
    height: String,
    refresh_rate: String,
    s: Option<&ProfileSettings>,
    mangohud: Option<bool>,
    vkbasalt: Option<bool>,
    vkbasalt_profile: String,
) -> (r: Vec<Field>)
    ensures
        field_views(r@) == form(
            slug@,
            name@,
            app_id@,
            width@,
            height@,
            refresh_rate@,
            match s {
                Some(x) => Some(*x),
                None => None,
            },
            mangohud,
            vkbasalt,
            vkbasalt_profile@,
        ),
{
    let (hdr, itm, vrr, fsr4, gamescope, vcache, fix_mouse) = match s {
        Some(x) => (x.hdr, x.itm, x.vrr, x.fsr4, x.gamescope, x.vcache, x.fix_mouse),
        None => (None, None, None, None, None, None, None),
    };
    let mut v: Vec<Field> = Vec::new();
    assert(field_views(v@) =~= Seq::<FieldView>::empty());
    push_field(&mut v, text("Slug", slug));
    push_field(&mut v, text("Name", name));
    push_field(&mut v, text("Steam App ID", app_id));
    push_field(&mut v, text("Width", width));
    push_field(&mut v, text("Height", height));
    push_field(&mut v, text("Refresh Rate", refresh_rate));
    push_field(&mut v, toggle("HDR", hdr));
    push_field(&mut v, toggle("ITM", itm));
    push_field(&mut v, toggle("VRR", vrr));
    push_field(&mut v, toggle("FSR4", fsr4));
    push_field(&mut v, toggle("Gamescope", gamescope));
    push_field(&mut v, toggle("V-Cache", vcache));
    push_field(&mut v, toggle("Fix Mouse", fix_mouse));
    push_field(&mut v, toggle("MangoHud", mangohud));
    push_field(&mut v, toggle("vkBasalt", vkbasalt));
    push_field(&mut v, text("vkBasalt Profile", vkbasalt_profile));
    assert(field_views(v@) =~= form(
        slug@,
        name@,
        app_id@,
        width@,
        height@,
        refresh_rate@,
        match s {
            Some(x) => Some(*x),
            None => None,
        },
        mangohud,
        vkbasalt,
        vkbasalt_profile@,
    ));
    v
}

impl EditState {
    /// The form for a new profile.
    pub fn new_profile() -> (r: EditState)
        ensures
            r.is_new,
            field_views(r.fields@) == new_form(),
            r.selected == 0,
            !r.editing_text,
    {
        let fields = build_form(
            String::new(),
            String::new(),
            String::new(),
            "3840".to_owned(),
            "2160".to_owned(),
            String::new(),
            None,
            None,
            None,
            String::new(),
        );
        EditState { is_new: true, fields, selected: 0, editing_text: false }
    }

    /// The form for an existing profile.
    pub fn from_profile(slug: String, profile: Profile, is_new: bool) -> (r: EditState)
        ensures
            r.is_new == is_new,
            field_views(r.fields@) == profile_form(slug@, profile@),
            r.selected == 0,
            !r.editing_text,
    {
        let ghost pv = profile@;
        let name = match &profile.name {
            Some(n) => n.clone(),
            None => String::new(),
        };
        let app_id = number_text(profile.steam_app_id);
        let (w, h, rr) = match &profile.settings {
            Some(s) => (
                match s.width {
                    Some(w) => Some(w as u64),
                    None => None,
                },
                match s.height {
                    Some(h) => Some(h as u64),
                    None => None,
                },
                match s.refresh_rate {
                    Some(r) => Some(r as u64),
                    None => None,
                },
            ),
            None => (None, None, None),
        };
        let width = number_text(w);
        let height = number_text(h);
        let refresh_rate = number_text(rr);
        let mangohud = match &profile.mangohud {
            Some(m) => m.enabled,
            None => None,
        };
        let (vkbasalt, vk_profile) = match &profile.vkbasalt {
            Some(v) => (
                v.enabled,
                match &v.profile {
                    Some(p) => p.clone(),
                    None => String::new(),
                },
            ),
            None => (None, String::new()),
        };
        let s: Option<&ProfileSettings> = match &profile.settings {
            Some(s) => Some(s),
            None => None,
        };
        let fields = build_form(
            slug,
            name,
            app_id,
            width,
            height,
            refresh_rate,
            s,
            mangohud,
            vkbasalt,
            vk_profile,
        );
        EditState { is_new, fields, selected: 0, editing_text: false }
    }
}

impl EditState {
    /// The value of the first text field labelled `label`, or empty.
    fn field_val(&self, label: &str) -> (r: String)
        ensures
            r@ == text_value(field_views(self.fields@), label@),
    {
        let ghost fv = field_views(self.fields@);
        let n = self.fields.len();
        let mut i: usize = 0;
        assert(fv.skip(0) =~= fv);
        while i < n
            invariant
                i <= n,
                n == self.fields@.len(),
                fv == field_views(self.fields@),
                text_value(fv.skip(i as int), label@) == text_value(fv, label@),
            decreases n - i,
        {
            assert(fv.skip(i as int)[0] == self.fields@[i as int]@);
            assert(fv.skip(i as int).drop_first() =~= fv.skip(i + 1));
            match &self.fields[i] {
                Field::Text { label: l, value } => {
                    if str_eq(l.as_str(), label) {
                        return value.clone();
                    }
                },
                _ => {},
            }
            i = i + 1;
        }
        assert(fv.skip(n as int) =~= Seq::<FieldView>::empty());
        String::new()
    }

    /// The value of the first toggle labelled `label`, or inherit.
    fn field_opt_bool(&self, label: &str) -> (r: Option<bool>)
        ensures
            r == toggle_value(field_views(self.fields@), label@),
    {
        let ghost fv = field_views(self.fields@);
        let n = self.fields.len();
        let mut i: usize = 0;
        assert(fv.skip(0) =~= fv);
        while i < n
            invariant
                i <= n,
                n == self.fields@.len(),
                fv == field_views(self.fields@),
                toggle_value(fv.skip(i as int), label@) == toggle_value(fv, label@),
            decreases n - i,
        {
            assert(fv.skip(i as int)[0] == self.fields@[i as int]@);
            assert(fv.skip(i as int).drop_first() =~= fv.skip(i + 1));
            match &self.fields[i] {
                Field::Toggle { label: l, value } => {
                    if str_eq(l.as_str(), label) {
                        return *value;
                    }
                },
                _ => {},
            }
            i = i + 1;
        }
        assert(fv.skip(n as int) =~= Seq::<FieldView>::empty());
        None
    }

    /// The slug and the profile that the form describes.
    pub fn to_profile(&self) -> (r: (String, Profile))
        ensures
            r.0@ == text_value(field_views(self.fields@), "Slug"@),
            r.1@ == form_profile(field_views(self.fields@)),
    {
        let slug = self.field_val("Slug");
        let name = self.field_val("Name");
        let app_id_str = self.field_val("Steam App ID");
        let width_str = self.field_val("Width");
        let height_str = self.field_val("Height");
        let refresh_rate_str = self.field_val("Refresh Rate");
        let vkbasalt_profile = self.field_val("vkBasalt Profile");
        let settings = ProfileSettings {
            width: parse_u32(width_str.as_str()),
            height: parse_u32(height_str.as_str()),
            refresh_rate: parse_u32(refresh_rate_str.as_str()),
            hdr: self.field_opt_bool("HDR"),
            vrr: self.field_opt_bool("VRR"),
            gamescope: self.field_opt_bool("Gamescope"),
            itm: self.field_opt_bool("ITM"),
            fsr4: self.field_opt_bool("FSR4"),
            vcache: self.field_opt_bool("V-Cache"),
            fix_mouse: self.field_opt_bool("Fix Mouse"),
        };
        let has_settings = settings.width.is_some() || settings.height.is_some()
            || settings.refresh_rate.is_some() || settings.hdr.is_some() || settings.vrr.is_some() || settings.gamescope.is_some()
            || settings.itm.is_some() || settings.fsr4.is_some() || settings.vcache.is_some()
            || settings.fix_mouse.is_some();
        let mangohud_enabled = self.field_opt_bool("MangoHud");
        let vkbasalt_enabled = self.field_opt_bool("vkBasalt");
        let vkbasalt_prof = if vkbasalt_profile.as_str().is_empty() {
            None
        } else {
            Some(vkbasalt_profile)
        };
        let profile = Profile {
            name: if name.as_str().is_empty() {
                None
            } else {
                Some(name)
            },
            steam_app_id: parse_u64(app_id_str.as_str()),
            settings: if has_settings {
                Some(settings)
            } else {
                None
            },
            mangohud: match mangohud_enabled {
                Some(enabled) => Some(MangoHudConfig { enabled: Some(enabled), config: None }),
                None => None,
            },
            vkbasalt: if vkbasalt_enabled.is_some() || vkbasalt_prof.is_some() {
                Some(VkBasaltConfig { enabled: vkbasalt_enabled, profile: vkbasalt_prof })
            } else {
                None
            },
        };
        (slug, profile)
    }
}

/// What a profile becomes after a trip through the editor: an empty name and an empty vkBasalt
/// profile become unset, a `[settings]` table that sets nothing is dropped, the MangoHud table
/// keeps only a set `enabled`, and a vkBasalt table that then sets nothing is dropped.
pub open spec fn edited_profile(p: ProfileView) -> ProfileView {
    let settings_set = match p.settings {
        Some(s) => s.width is Some || s.height is Some || s.refresh_rate is Some || s.hdr is Some
            || s.vrr is Some
            || s.gamescope is Some || s.itm is Some || s.fsr4 is Some || s.vcache is Some
            || s.fix_mouse is Some,
        None => false,
    };
    ProfileView {
        name: match p.name {
            Some(n) => if n.len() > 0 {
                Some(n)
            } else {
                None
            },
            None => None,
        },
        steam_app_id: p.steam_app_id,
        settings: if settings_set {
            p.settings
        } else {
            None
        },
        mangohud: match p.mangohud {
            Some(m) => match m.enabled {
                Some(e) => Some(MangoHudView { enabled: Some(e), config: None }),
                None => None,
            },
            None => None,
        },
        vkbasalt: match p.vkbasalt {
            Some(v) => {
                let prof = match v.profile {
                    Some(x) => if x.len() > 0 {
                        Some(x)
                    } else {
                        None
                    },
                    None => None,
                };
                if v.enabled is Some || prof is Some {
                    Some(VkBasaltView { enabled: v.enabled, profile: prof })
                } else {
                    None
                }
            },
            None => None,
        },
    }
}

proof fn lemma_labels_distinct()
    ensures
        "Slug"@ != "Name"@,
        "Slug"@ != "Steam App ID"@,
        "Slug"@ != "Width"@,
        "Slug"@ != "Height"@,
        "Slug"@ != "vkBasalt Profile"@,
        "Name"@ != "Steam App ID"@,
        "Name"@ != "Width"@,
        "Name"@ != "Height"@,
        "Name"@ != "vkBasalt Profile"@,
        "Steam App ID"@ != "Width"@,
        "Steam App ID"@ != "Height"@,
        "Steam App ID"@ != "vkBasalt Profile"@,
        "Width"@ != "Height"@,
        "Width"@ != "vkBasalt Profile"@,
        "Height"@ != "vkBasalt Profile"@,
        "Slug"@ != "Refresh Rate"@,
        "Name"@ != "Refresh Rate"@,
        "Steam App ID"@ != "Refresh Rate"@,
        "Width"@ != "Refresh Rate"@,
        "Height"@ != "Refresh Rate"@,
        "Refresh Rate"@ != "vkBasalt Profile"@,
        "HDR"@ != "ITM"@,
        "HDR"@ != "VRR"@,
        "ITM"@ != "VRR"@,
        "HDR"@ != "FSR4"@,
        "ITM"@ != "FSR4"@,
        "VRR"@ != "FSR4"@,
        "HDR"@ != "Gamescope"@,
        "ITM"@ != "Gamescope"@,
        "VRR"@ != "Gamescope"@,
        "FSR4"@ != "Gamescope"@,
        "HDR"@ != "V-Cache"@,
        "ITM"@ != "V-Cache"@,
        "VRR"@ != "V-Cache"@,
        "FSR4"@ != "V-Cache"@,
        "Gamescope"@ != "V-Cache"@,
        "HDR"@ != "Fix Mouse"@,
        "ITM"@ != "Fix Mouse"@,
        "VRR"@ != "Fix Mouse"@,
        "FSR4"@ != "Fix Mouse"@,
        "Gamescope"@ != "Fix Mouse"@,
        "V-Cache"@ != "Fix Mouse"@,
        "HDR"@ != "MangoHud"@,
        "ITM"@ != "MangoHud"@,
        "VRR"@ != "MangoHud"@,
        "FSR4"@ != "MangoHud"@,
        "Gamescope"@ != "MangoHud"@,
        "V-Cache"@ != "MangoHud"@,
        "Fix Mouse"@ != "MangoHud"@,
        "HDR"@ != "vkBasalt"@,
        "ITM"@ != "vkBasalt"@,
        "VRR"@ != "vkBasalt"@,
        "FSR4"@ != "vkBasalt"@,
        "Gamescope"@ != "vkBasalt"@,
        "V-Cache"@ != "vkBasalt"@,
        "Fix Mouse"@ != "vkBasalt"@,
        "MangoHud"@ != "vkBasalt"@,
{
    reveal_strlit("Slug");
    reveal_strlit("Name");
    reveal_strlit("Steam App ID");
    reveal_strlit("Width");
    reveal_strlit("Height");
    reveal_strlit("Refresh Rate");
    reveal_strlit("HDR");
    reveal_strlit("ITM");
    reveal_strlit("VRR");
    reveal_strlit("FSR4");
    reveal_strlit("Gamescope");
    reveal_strlit("V-Cache");
    reveal_strlit("Fix Mouse");
    reveal_strlit("MangoHud");
    reveal_strlit("vkBasalt");
    reveal_strlit("vkBasalt Profile");
    assert("Slug"@.len() == 4 && "Name"@.len() == 4 && "Steam App ID"@.len() == 12);
    assert("Width"@.len() == 5 && "Height"@.len() == 6 && "vkBasalt Profile"@.len() == 16);
    assert("HDR"@.len() == 3 && "FSR4"@.len() == 4 && "Gamescope"@.len() == 9);
    assert("V-Cache"@.len() == 7 && "Fix Mouse"@.len() == 9 && "MangoHud"@.len() == 8);
    assert("vkBasalt"@.len() == 8 && "ITM"@.len() == 3 && "VRR"@.len() == 3);
    assert("Slug"@[0] != "Name"@[0]);
    assert("Refresh Rate"@.len() == 12 && "Refresh Rate"@[0] != "Steam App ID"@[0]);
    assert("HDR"@[0] != "ITM"@[0] && "HDR"@[0] != "VRR"@[0] && "ITM"@[0] != "VRR"@[0]);
    assert("MangoHud"@[0] != "vkBasalt"@[0]);
    assert("Gamescope"@[0] != "Fix Mouse"@[0]);
}

/// One step of a lookup: a field that is not a text field with this label is passed over.
proof fn lemma_text_step(f: Seq<FieldView>, k: int, l: Seq<char>)
    requires
        0 <= k < f.len(),
    ensures
        text_value(f.skip(k), l) == match f[k] {
            FieldView::Text { label, value } => if label == l {
                value
            } else {
                text_value(f.skip(k + 1), l)
            },
            _ => text_value(f.skip(k + 1), l),
        },
{
    assert(f.skip(k).drop_first() =~= f.skip(k + 1));
    assert(f.skip(k)[0] == f[k]);
}

proof fn lemma_toggle_step(f: Seq<FieldView>, k: int, l: Seq<char>)
    requires
        0 <= k < f.len(),
    ensures
        toggle_value(f.skip(k), l) == match f[k] {
            FieldView::Toggle { label, value } => if label == l {
                value
            } else {
                toggle_value(f.skip(k + 1), l)
            },
            _ => toggle_value(f.skip(k + 1), l),
        },
{
    assert(f.skip(k).drop_first() =~= f.skip(k + 1));
    assert(f.skip(k)[0] == f[k]);
}

/// Every field of the form is found under its own label.
proof fn lemma_form_lookups(
    slug: Seq<char>,
    name: Seq<char>,
    app_id: Seq<char>,
    width: Seq<char>,
    height: Seq<char>,
    refresh_rate: Seq<char>,
    s: Option<ProfileSettings>,
    mangohud: Option<bool>,
    vkbasalt: Option<bool>,
    vkbasalt_profile: Seq<char>,
)
    ensures
        ({
            let f = form(
                slug,
                name,
                app_id,
                width,
                height,
                refresh_rate,
                s,
                mangohud,
                vkbasalt,
                vkbasalt_profile,
            );
            let g = |sel: spec_fn(ProfileSettings) -> Option<bool>|
                match s {
                    Some(x) => sel(x),
                    None => None,
                };
            &&& text_value(f, "Slug"@) == slug
            &&& text_value(f, "Name"@) == name
            &&& text_value(f, "Steam App ID"@) == app_id
            &&& text_value(f, "Width"@) == width
            &&& text_value(f, "Height"@) == height
            &&& text_value(f, "Refresh Rate"@) == refresh_rate
            &&& text_value(f, "vkBasalt Profile"@) == vkbasalt_profile
            &&& toggle_value(f, "HDR"@) == g(|x: ProfileSettings| x.hdr)
            &&& toggle_value(f, "ITM"@) == g(|x: ProfileSettings| x.itm)
            &&& toggle_value(f, "VRR"@) == g(|x: ProfileSettings| x.vrr)
            &&& toggle_value(f, "FSR4"@) == g(|x: ProfileSettings| x.fsr4)
            &&& toggle_value(f, "Gamescope"@) == g(|x: ProfileSettings| x.gamescope)
            &&& toggle_value(f, "V-Cache"@) == g(|x: ProfileSettings| x.vcache)
            &&& toggle_value(f, "Fix Mouse"@) == g(|x: ProfileSettings| x.fix_mouse)
            &&& toggle_value(f, "MangoHud"@) == mangohud
            &&& toggle_value(f, "vkBasalt"@) == vkbasalt
        }),
{
    let f = form(
        slug,
        name,
        app_id,
        width,
        height,
        refresh_rate,
        s,
        mangohud,
        vkbasalt,
        vkbasalt_profile,
    );
    lemma_labels_distinct();
    assert(f.skip(0) =~= f);
    assert(f.skip(16) =~= Seq::<FieldView>::empty());
    let labels: Seq<Seq<char>> = seq![
        "Slug"@,
        "Name"@,
        "Steam App ID"@,
        "Width"@,
        "Height"@,
        "Refresh Rate"@,
        "vkBasalt Profile"@,
        "HDR"@,
        "ITM"@,
        "VRR"@,
        "FSR4"@,
        "Gamescope"@,
        "V-Cache"@,
        "Fix Mouse"@,
        "MangoHud"@,
        "vkBasalt"@,
    ];
    assert forall|li: int, k: int| 0 <= li < 16 && 0 <= k < 16 implies text_value(
        #[trigger] f.skip(k),
        #[trigger] labels[li],
    ) == match f[k] {
        FieldView::Text { label, value } => if label == labels[li] {
            value
        } else {
            text_value(f.skip(k + 1), labels[li])
        },
        _ => text_value(f.skip(k + 1), labels[li]),
    } && toggle_value(f.skip(k), labels[li]) == match f[k] {
        FieldView::Toggle { label, value } => if label == labels[li] {
            value
        } else {
            toggle_value(f.skip(k + 1), labels[li])
        },
        _ => toggle_value(f.skip(k + 1), labels[li]),
    } by {
        lemma_text_step(f, k, labels[li]);
        lemma_toggle_step(f, k, labels[li]);
    }
    assert(labels[0] == "Slug"@);
    assert(labels[1] == "Name"@);
    assert(labels[2] == "Steam App ID"@);
    assert(labels[3] == "Width"@);
    assert(labels[4] == "Height"@);
    assert(labels[5] == "Refresh Rate"@);
    assert(labels[6] == "vkBasalt Profile"@);
    assert(labels[7] == "HDR"@);
    assert(labels[8] == "ITM"@);
    assert(labels[9] == "VRR"@);
    assert(labels[10] == "FSR4"@);
    assert(labels[11] == "Gamescope"@);
    assert(labels[12] == "V-Cache"@);
    assert(labels[13] == "Fix Mouse"@);
    assert(labels[14] == "MangoHud"@);
    assert(labels[15] == "vkBasalt"@);
    assert forall|li: int| 0 <= li < 16 implies text_value(#[trigger] f.skip(16), labels[li])
        == Seq::<char>::empty() && toggle_value(f.skip(16), labels[li]) is None by {}
    assert(text_value(f.skip(0), labels[0]) == slug);
    assert(text_value(f.skip(1), labels[1]) == name);
    assert(text_value(f.skip(2), labels[2]) == app_id);
    assert(text_value(f.skip(3), labels[3]) == width);
    assert(text_value(f.skip(4), labels[4]) == height);
    assert(text_value(f.skip(5), labels[5]) == refresh_rate);
    assert(text_value(f.skip(15), labels[6]) == vkbasalt_profile);
    assert(text_value(f.skip(0), labels[6]) == vkbasalt_profile);
}

/// Opening a profile in the editor and saving it without a change gives back its slug and the
/// profile itself, up to what the form cannot hold (see `edited_profile`).
pub proof fn lemma_form_round_trip(slug: Seq<char>, p: ProfileView)
    ensures
        text_value(profile_form(slug, p), "Slug"@) == slug,
        form_profile(profile_form(slug, p)) == edited_profile(p),
{
    let f = profile_form(slug, p);
    lemma_form_lookups(
        slug,
        match p.name {
            Some(n) => n,
            None => Seq::empty(),
        },
        shown_number(p.steam_app_id),
        shown_number(
            match p.settings {
                Some(s) => match s.width {
                    Some(w) => Some(w as u64),
                    None => None,
                },
                None => None,
            },
        ),
        shown_number(
            match p.settings {
                Some(s) => match s.height {
                    Some(h) => Some(h as u64),
                    None => None,
                },
                None => None,
            },
        ),
        shown_number(
            match p.settings {
                Some(s) => match s.refresh_rate {
                    Some(r) => Some(r as u64),
                    None => None,
                },
                None => None,
            },
        ),
        p.settings,
        match p.mangohud {
            Some(m) => m.enabled,
            None => None,
        },
        match p.vkbasalt {
            Some(v) => v.enabled,
            None => None,
        },
        match p.vkbasalt {
            Some(v) => match v.profile {
                Some(x) => x,
                None => Seq::empty(),
            },
            None => Seq::empty(),
        },
    );
    if let Some(id) = p.steam_app_id {
        lemma_parse_decimal(id as nat, u64::MAX as int);
    }
    assert(parse_unsigned(Seq::<char>::empty(), u64::MAX as int) is None);
    if let Some(s) = p.settings {
        if let Some(w) = s.width {
            lemma_parse_decimal(w as nat, u32::MAX as int);
        }
        if let Some(h) = s.height {
            lemma_parse_decimal(h as nat, u32::MAX as int);
        }
        if let Some(r) = s.refresh_rate {
            lemma_parse_decimal(r as nat, u32::MAX as int);
        }
    }
    assert(parse_unsigned(Seq::<char>::empty(), u32::MAX as int) is None);
    assert(form_profile(f) =~= edited_profile(p));
}

/// Where a profile holds nothing that the form cannot hold (a name, if any, that is not
/// empty; a `[settings]` table, if any, that sets something; a `[mangohud]` table, if any,
/// that sets `enabled` and no config name; a `[vkbasalt]` table, if any, that sets something,
/// with a profile name, if any, that is not empty), opening it in the editor and saving it
/// without a change gives it back exactly.
pub proof fn lemma_form_round_trip_exact(slug: Seq<char>, p: ProfileView)
    requires
        p.name matches Some(n) ==> n.len() > 0,
        p.settings matches Some(s) ==> s != no_settings(),
        p.mangohud matches Some(m) ==> m.enabled is Some && m.config is None,
        p.vkbasalt matches Some(v) ==> (v.enabled is Some || v.profile is Some) && (
        v.profile matches Some(x) ==> x.len() > 0),
    ensures
        text_value(profile_form(slug, p), "Slug"@) == slug,
        form_profile(profile_form(slug, p)) == p,
{
    lemma_form_round_trip(slug, p);
    if let Some(m) = p.mangohud {
        assert(m == MangoHudView { enabled: m.enabled, config: None });
    }
    assert(edited_profile(p) == p);
}

// ----- Keys -----

/// What the editor asks of its caller after a key: nothing, or to save the profile under the
/// slug (and then to report the outcome with `App::on_save_result`).
#[derive(Debug, Clone, PartialEq, Eq)]
pub enum EditAction {
    Nothing,
    Save(String, Profile),
}

pub open spec fn is_close_key(key: Key) -> bool {
    key == Key::Esc || key == Key::Char('q')
}

pub open spec fn is_press_key(key: Key) -> bool {
    key == Key::Enter || key == Key::Char(' ')
}

/// A toggle's next state: inherit, on, off, and round again.
pub open spec fn next_toggle(v: Option<bool>) -> Option<bool> {
    match v {
        None => Some(true),
        Some(true) => Some(false),
        Some(false) => None,
    }
}

/// A text field after a key typed into it: Backspace drops the last character, a character is
/// appended; a toggle, and any other key, leave the field.
pub open spec fn typed(f: FieldView, key: Key) -> FieldView {
    match f {
        FieldView::Text { label, value } => FieldView::Text {
            label,
            value: match key {
                Key::Backspace => without_last(value),
                Key::Char(c) => value.push(c),
                _ => value,
            },
        },
        _ => f,
    }
}

/// A field after Enter or space: a toggle moves to its next state, a text field stays.
pub open spec fn pressed(f: FieldView) -> FieldView {
    match f {
        FieldView::Toggle { label, value } => FieldView::Toggle { label, value: next_toggle(value) },
        _ => f,
    }
}

/// The selected row after a step down (`down`) or up among `n` rows, wrapping around.
pub open spec fn stepped(i: int, n: int, down: bool) -> int {
    if down {
        (i + 1) % n
    } else if i == 0 {
        n - 1
    } else {
        i - 1
    }
}

/// The editor's answer to a key, with editor `e` open in `a`: while a text field is typed,
/// keys go to it and Esc or Enter end the typing; else q or Esc close the editor, j/k or the
/// arrows move the selection with wrap-around, Enter or space cycle a toggle or start typing
/// into a text field, and s asks to save the form (refused with a message when its slug is
/// empty).
pub open spec fn editor_key_effect(e: EditState, a: App, b: App, key: Key, act: EditAction) -> bool {
    let fv = field_views(e.fields@);
    let i = e.selected as int;
    if e.editing_text {
        &&& b.view == a.view
        &&& b.status_message == a.status_message
        &&& act == EditAction::Nothing
        &&& b.edit_state matches Some(e2) && {
            &&& e2.is_new == e.is_new
            &&& e2.selected == e.selected
            &&& e2.editing_text == !(key == Key::Esc || key == Key::Enter)
            &&& field_views(e2.fields@) == fv.update(i, typed(fv[i], key))
        }
    } else if is_close_key(key) {
        &&& b.edit_state is None
        &&& b.view == Screen::List
        &&& b.status_message == a.status_message
        &&& act == EditAction::Nothing
    } else if key == Key::Char('s') {
        let slug = text_value(fv, "Slug"@);
        &&& b.view == a.view
        &&& b.edit_state == a.edit_state
        &&& if slug.len() == 0 {
            &&& b.status_message matches Some(m) && m@ == "Slug cannot be empty"@
            &&& act == EditAction::Nothing
        } else {
            &&& b.status_message == a.status_message
            &&& act matches EditAction::Save(s, p) && s@ == slug && p@ == form_profile(fv)
        }
    } else {
        let down = key == Key::Down || key == Key::Char('j');
        let up = key == Key::Up || key == Key::Char('k');
        &&& b.view == a.view
        &&& b.status_message == a.status_message
        &&& act == EditAction::Nothing
        &&& b.edit_state matches Some(e2) && {
            &&& e2.is_new == e.is_new
            &&& e2.selected == (if down || up {
                stepped(i, fv.len() as int, down)
            } else {
                i
            })
            &&& e2.editing_text == (is_press_key(key) && fv[i] is Text)
            &&& field_views(e2.fields@) == (if is_press_key(key) {
                fv.update(i, pressed(fv[i]))
            } else {
                fv
            })
        }
    }
}

/// The editor's answer to a key; without an open editor nothing changes.
pub open spec fn edit_key_effect(a: App, b: App, key: Key, act: EditAction) -> bool {
    &&& b.profiles == a.profiles
    &&& b.hardware == a.hardware
    &&& b.list_state == a.list_state
    &&& b.should_quit == a.should_quit
    &&& match a.edit_state {
        None => b == a && act == EditAction::Nothing,
        Some(e) => editor_key_effect(e, a, b, key, act),
    }
}

/// A copy of the field with `key` typed into it (see `typed`).
fn typed_field(f: &Field, key: Key) -> (r: Field)
    ensures
        r@ == typed(f@, key),
{
    match f {
        Field::Text { label, value } => {
            let mut v = value.clone();
            match key {
                Key::Backspace => pop_char(&mut v),
                Key::Char(c) => v.push(c),
                _ => {},
            }
            Field::Text { label: label.clone(), value: v }
        },
        Field::Toggle { label, value } => Field::Toggle { label: label.clone(), value: *value },
    }
}

/// A copy of the field after Enter or space (see `pressed`).
fn pressed_field(f: &Field) -> (r: Field)
    ensures
        r@ == pressed(f@),
{
    match f {
        Field::Toggle { label, value } => Field::Toggle {
            label: label.clone(),
            value: match *value {
                None => Some(true),
                Some(true) => Some(false),
                Some(false) => None,
            },
        },
        Field::Text { label, value } => Field::Text { label: label.clone(), value: value.clone() },
    }
}

/// Replaces the selected field of `st` by `f`.
fn replace_selected(st: &mut EditState, f: Field)
    requires
        old(st).selected < old(st).fields@.len(),
    ensures
        final(st).is_new == old(st).is_new,
        final(st).selected == old(st).selected,
        final(st).editing_text == old(st).editing_text,
        final(st).fields@.len() == old(st).fields@.len(),
        field_views(final(st).fields@) == field_views(old(st).fields@).update(
            old(st).selected as int,
            f@,
        ),
{
    let i = st.selected;
    st.fields.set(i, f);
    assert(field_views(st.fields@) =~= field_views(old(st).fields@).update(i as int, f@));
}

/// The editor's answer to a key (see `edit_key_effect`); the selected field must be one of
/// the form's, as the editor reads it.
pub fn handle_input(app: &mut App, key: Key) -> (r: EditAction)
    requires
        editor_wf(old(app)),
    ensures
        editor_wf(final(app)),
        list_wf(old(app)) ==> list_wf(final(app)),
        edit_key_effect(*old(app), *final(app), key, r),
{
    let mut st = match app.edit_state.take() {
        Some(s) => s,
        None => return EditAction::Nothing,
    };
    let ghost e = st;
    let ghost fv = field_views(st.fields@);
    let n = st.fields.len();
    let i = st.selected;
    assert(fv[i as int] == st.fields@[i as int]@);
    if st.editing_text {
        match key {
            Key::Esc | Key::Enter => {
                st.editing_text = false;
                assert(fv.update(i as int, typed(fv[i as int], key)) =~= fv);
            },
            _ => {
                let f = typed_field(&st.fields[i], key);
                replace_selected(&mut st, f);
            },
        }
        app.edit_state = Some(st);
        return EditAction::Nothing;
    }
    let close = match key {
        Key::Esc => true,
        Key::Char(c) => c == 'q',
        _ => false,
    };
    if close {
        app.view = Screen::List;
        return EditAction::Nothing;
    }
    let save = match key {
        Key::Char(c) => c == 's',
        _ => false,
    };
    if save {
        let (slug, profile) = st.to_profile();
        app.edit_state = Some(st);
        if slug.as_str().is_empty() {
            app.status_message = Some(copy_str("Slug cannot be empty"));
            return EditAction::Nothing;
        }
        return EditAction::Save(slug, profile);
    }
    let down = match key {
        Key::Down => true,
        Key::Char(c) => c == 'j',
        _ => false,
    };
    let up = match key {
        Key::Up => true,
        Key::Char(c) => c == 'k',
        _ => false,
    };
    let press = match key {
        Key::Enter => true,
        Key::Char(c) => c == ' ',
        _ => false,
    };
    if down {
        st.selected = (i + 1) % n;
    } else if up {
        st.selected = if i == 0 {
            n - 1
        } else {
            i - 1
        };
    } else if press {
        let is_text = match &st.fields[i] {
            Field::Text { .. } => true,
            Field::Toggle { .. } => false,
        };
        if is_text {
            st.editing_text = true;
            assert(fv.update(i as int, pressed(fv[i as int])) =~= fv);
        } else {
            let f = pressed_field(&st.fields[i]);
            replace_selected(&mut st, f);
        }
    }
    app.edit_state = Some(st);
    EditAction::Nothing
}

// ----- What the editor shows -----

/// A toggle as the form shows it: `[x]` on, `[ ]` off, `[-]` inherit.
pub open spec fn indicator(v: Option<bool>) -> Seq<char> {
    match v {
        Some(true) => "[x]"@,
        Some(false) => "[ ]"@,
        None => "[-]"@,
    }
}

/// The line of a field: its label padded to 18 characters, then its value (with a `|` cursor
/// while it is typed into) or its toggle's indicator.
pub open spec fn field_text(f: FieldView, typing: bool) -> Seq<char> {
    match f {
        FieldView::Text { label, value } => "  "@ + pad_right(label, 18) + " "@ + value + if typing {
            "|"@
        } else {
            ""@
        },
        FieldView::Toggle { label, value } => "  "@ + pad_right(label, 18) + " "@ + indicator(value),
    }
}

/// The editor's title.
pub open spec fn editor_title_text(is_new: bool) -> Seq<char> {
    if is_new {
        " New Profile "@
    } else {
        " Edit Profile "@
    }
}

/// The help line under the form.
pub open spec fn help_text(typing: bool) -> Seq<char> {
    if typing {
        "  Enter: confirm | Esc: cancel"@
    } else {
        "  j/k: navigate | Enter/Space: edit/toggle ([x]/[ ]/[-]=inherit) | s: save | Esc: cancel"@
    }
}

/// The lines the editor shows: one per field (the selected one with a cursor while typed
/// into), then the help line.
pub open spec fn editor_lines(e: EditState) -> Seq<Seq<char>> {
    Seq::new(
        e.fields@.len(),
        |i: int| field_text(e.fields@[i]@, i == e.selected && e.editing_text),
    ).push(help_text(e.editing_text))
}

impl EditState {
    /// The editor's title (see `editor_title_text`).
    pub fn title(&self) -> (r: String)
        ensures
            r@ == editor_title_text(self.is_new),
    {
        if self.is_new {
            copy_str(" New Profile ")
        } else {
            copy_str(" Edit Profile ")
        }
    }

    /// The lines the editor shows (see `editor_lines`).
    pub fn lines(&self) -> (r: Vec<String>)
        ensures
            str_views(r@) == editor_lines(*self),
    {
        let mut lines: Vec<String> = Vec::new();
        let n = self.fields.len();
        for i in 0..n
            invariant
                n == self.fields@.len(),
                str_views(lines@) == Seq::new(
                    i as nat,
                    |k: int| field_text(self.fields@[k]@, k == self.selected && self.editing_text),
                ),
        {
            let typing = i == self.selected && self.editing_text;
            let line = match &self.fields[i] {
                Field::Text { label, value } => {
                    let a = concat3("  ", pad_to(label.as_str(), 18).as_str(), " ");
                    concat3(a.as_str(), value.as_str(), if typing { "|" } else { "" })
                },
                Field::Toggle { label, value } => {
                    let a = concat3("  ", pad_to(label.as_str(), 18).as_str(), " ");
                    concat(
                        a.as_str(),
                        match value {
                            Some(true) => "[x]",
                            Some(false) => "[ ]",
                            None => "[-]",
                        },
                    )
                },
            };
            proof {
                reveal_strlit("|");
                reveal_strlit("");
            }
            push_line(&mut lines, line);
            assert(str_views(lines@) =~= Seq::new(
                (i + 1) as nat,
                |k: int| field_text(self.fields@[k]@, k == self.selected && self.editing_text),
            ));
        }
        let help = if self.editing_text {
            copy_str("  Enter: confirm | Esc: cancel")
        } else {
            copy_str(
                "  j/k: navigate | Enter/Space: edit/toggle ([x]/[ ]/[-]=inherit) | s: save | Esc: cancel",
            )
        };
        push_line(&mut lines, help);
        lines
    }
}

/// Pressing a toggle three times brings it back to where it was.
pub proof fn lemma_toggle_cycle(v: Option<bool>)
    ensures
        next_toggle(next_toggle(next_toggle(v))) == v,
{
}

/// Typing a character into a field and then Backspace leaves the field as it was.
pub proof fn lemma_type_then_erase(f: FieldView, c: char)
    ensures
        typed(typed(f, Key::Char(c)), Key::Backspace) == f,
{
    if let FieldView::Text { label, value } = f {
        assert(value.push(c).drop_last() =~= value);
    }
}

/// Stepping the selection down and then up, or up and then down, comes back to the same row.
pub proof fn lemma_steps_undo(i: int, n: int)
    requires
        0 <= i < n,
    ensures
        stepped(stepped(i, n, true), n, false) == i,
        stepped(stepped(i, n, false), n, true) == i,
{
    if i + 1 < n {
        lemma_small_mod((i + 1) as nat, n as nat);
    } else {
        lemma_mod_self_0(n);
    }
    if i == 0 {
        lemma_mod_self_0(n);
    } else {
        lemma_small_mod(i as nat, n as nat);
    }
}

} // verus!
