//! Launch history: naming a game by a slug derived from its command, remembering the last
//! launches of each game, and turning a remembered launch into a profile.
use std::fmt::Write;

use vstd::prelude::*;

use crate::config::{
    config_dir, config_dir_under, display_name_from_slug, either, empty_layer, join_path,
    path_join, replace_char, profile_layer, resolved, CliOverrides,
    GlobalConfig, MangoHudConfig, MangoHudView, Profile, ProfileSettings, ProfileView,
    SettingsLayer, VkBasaltConfig, VkBasaltView,
};
use crate::split::{
    file_stem, first_occurrence, lemma_file_stem_drops_extension, lemma_split_piece,
    lemma_split_then_piece, join, nonempty_parts, path_file_stem, split, split_chars,
    str_views, views, nonempty_only, join_chars, find_chars,
};
use crate::split::{join_strings, push_line};
use crate::text::{
    ascii_lower, ascii_lower_seq, char_vec, concat, concat3, copy_opt, copy_str, decimal,
    decimal_string, is_ascii_upper, pad_right, pad_to, repeat_char, repeated, string_of,
    to_ascii_lower,
};
use crate::order::{chars_eq, chars_lt, lemma_lt_irreflexive, lemma_lt_total, lemma_lt_transitive, seq_lt};
use crate::unicode::{alphanumeric, is_alphanumeric};

verus! {

// ----- Slugs -----

/// What one character of a name becomes in a slug: letters and digits in lower case,
/// spaces, underscores and dashes a dash, anything else nothing.
pub open spec fn slug_char(c: char) -> Option<char> {
    if alphanumeric(c) {
        Some(ascii_lower(c))
    } else if c == ' ' || c == '_' || c == '-' {
        Some('-')
    } else {
        None
    }
}

/// The characters of `s` mapped by `slug_char`.
pub open spec fn slug_chars(s: Seq<char>) -> Seq<char>
    decreases s.len(),
{
    if s.len() == 0 {
        Seq::empty()
    } else {
        match slug_char(s.last()) {
            Some(c) => slug_chars(s.drop_last()).push(c),
            None => slug_chars(s.drop_last()),
        }
    }
}

/// The slug of a name: the mapped characters split at dashes, the empty pieces dropped,
/// the rest joined with single dashes.
pub open spec fn slug_of(name: Seq<char>) -> Seq<char> {
    join(nonempty_parts(split(slug_chars(name), '-')), seq!['-'])
}

// ----- The shape of a slug -----

/// A character that a slug keeps as it is: a letter or digit, not an ASCII capital.
pub open spec fn slug_letter(c: char) -> bool {
    alphanumeric(c) && !is_ascii_upper(c)
}

/// Every character is a slug letter.
pub open spec fn letters_only(w: Seq<char>) -> bool {
    forall|j: int| 0 <= j < w.len() ==> slug_letter(#[trigger] w[j])
}

/// Every character is a slug letter or a dash.
pub open spec fn letters_or_dashes(s: Seq<char>) -> bool {
    forall|j: int| 0 <= j < s.len() ==> s[j] == '-' || slug_letter(#[trigger] s[j])
}

/// The shape of a slug: slug letters in words joined by single dashes, with no dash at
/// either end (the empty slug included).
pub open spec fn is_slug(r: Seq<char>) -> bool {
    &&& letters_or_dashes(r)
    &&& r.len() > 0 ==> slug_letter(r[0]) && slug_letter(r.last())
    &&& forall|i: int| 0 <= i < r.len() - 1 && #[trigger] r[i] == '-' ==> r[i + 1] != '-'
}

/// Every slug has the shape of a slug, and the slug of a slug is that slug again (making a
/// slug twice changes nothing).
pub proof fn lemma_slug_laws(name: Seq<char>)
    ensures
        is_slug(slug_of(name)),
        slug_of(slug_of(name)) == slug_of(name),
{
    let t = slug_chars(name);
    lemma_slug_chars_letters(name);
    let p = split(t, '-');
    lemma_split_letters(t);
    let q = nonempty_parts(p);
    lemma_nonempty_letters(p);
    let r = join(q, seq!['-']);
    lemma_join_shape(q);
    lemma_slug_chars_fixed(r);
    if q.len() == 0 {
        assert(r =~= Seq::<char>::empty());
        let e = seq![Seq::<char>::empty()];
        assert(split(r, '-') =~= e);
        assert(e.drop_last() =~= Seq::<Seq<char>>::empty());
        assert(nonempty_parts(e.drop_last()) =~= Seq::<Seq<char>>::empty());
        assert(nonempty_parts(split(r, '-')) =~= Seq::<Seq<char>>::empty());
    } else {
        lemma_split_join(q);
        lemma_nonempty_keeps(q);
    }
}

/// What `slug_char` keeps is a slug letter or a dash.
proof fn lemma_slug_chars_letters(name: Seq<char>)
    ensures
        letters_or_dashes(slug_chars(name)),
    decreases name.len(),
{
    if name.len() > 0 {
        lemma_slug_chars_letters(name.drop_last());
        let c = name.last();
        if alphanumeric(c) && is_ascii_upper(c) {
            let l = ascii_lower(c);
            assert((l as u32) < 128 && 'a' <= l && l <= 'z');
            assert(slug_letter(l));
        }
        let prev = slug_chars(name.drop_last());
        match slug_char(c) {
            Some(x) => {
                assert forall|j: int| 0 <= j < prev.push(x).len() implies prev.push(x)[j] == '-'
                    || slug_letter(#[trigger] prev.push(x)[j]) by {
                    if j < prev.len() {
                        assert(prev.push(x)[j] == prev[j]);
                    }
                }
            },
            None => {},
        }
    }
}

/// The pieces that a dash splits letters and dashes into hold letters only.
proof fn lemma_split_letters(s: Seq<char>)
    requires
        letters_or_dashes(s),
    ensures
        forall|k: int| 0 <= k < split(s, '-').len() ==> letters_only(#[trigger] split(s, '-')[k]),
    decreases s.len(),
{
    if s.len() > 0 {
        assert(letters_or_dashes(s.drop_last())) by {
            assert forall|j: int| 0 <= j < s.drop_last().len() implies s.drop_last()[j] == '-'
                || slug_letter(#[trigger] s.drop_last()[j]) by {
                assert(s.drop_last()[j] == s[j]);
            }
        }
        lemma_split_letters(s.drop_last());
        let p = split(s.drop_last(), '-');
        lemma_split_nonempty(s.drop_last());
        if s.last() != '-' {
            assert(slug_letter(s[s.len() - 1]));
            let w = p.last().push(s.last());
            assert(letters_only(p[p.len() - 1]));
            assert forall|j: int| 0 <= j < w.len() implies slug_letter(#[trigger] w[j]) by {
                if j < w.len() - 1 {
                    assert(w[j] == p.last()[j]);
                }
            }
            assert forall|k: int| 0 <= k < split(s, '-').len() implies letters_only(
                #[trigger] split(s, '-')[k],
            ) by {
                if k < p.len() - 1 {
                    assert(split(s, '-')[k] == p[k]);
                }
            }
        } else {
            assert forall|k: int| 0 <= k < split(s, '-').len() implies letters_only(
                #[trigger] split(s, '-')[k],
            ) by {
                if k < p.len() {
                    assert(split(s, '-')[k] == p[k]);
                }
            }
        }
    }
}

proof fn lemma_split_nonempty(s: Seq<char>)
    ensures
        split(s, '-').len() >= 1,
    decreases s.len(),
{
    if s.len() > 0 {
        lemma_split_nonempty(s.drop_last());
    }
}

/// The pieces kept by `nonempty_parts` are not empty and hold letters only.
proof fn lemma_nonempty_letters(p: Seq<Seq<char>>)
    requires
        forall|k: int| 0 <= k < p.len() ==> letters_only(#[trigger] p[k]),
    ensures
        forall|k: int|
            0 <= k < nonempty_parts(p).len() ==> #[trigger] nonempty_parts(p)[k].len() > 0
                && letters_only(nonempty_parts(p)[k]),
    decreases p.len(),
{
    if p.len() > 0 {
        lemma_nonempty_letters(p.drop_last());
        assert(letters_only(p[p.len() - 1]));
        let q = nonempty_parts(p.drop_last());
        if p.last().len() > 0 {
            assert forall|k: int| 0 <= k < q.push(p.last()).len() implies #[trigger] q.push(
                p.last(),
            )[k].len() > 0 && letters_only(q.push(p.last())[k]) by {
                if k < q.len() {
                    assert(q.push(p.last())[k] == q[k]);
                }
            }
        }
    }
}

/// Words of letters joined by single dashes have the shape of a slug.
proof fn lemma_join_shape(q: Seq<Seq<char>>)
    requires
        forall|k: int| 0 <= k < q.len() ==> #[trigger] q[k].len() > 0 && letters_only(q[k]),
    ensures
        is_slug(join(q, seq!['-'])),
        q.len() > 0 ==> join(q, seq!['-']).len() > 0,
    decreases q.len(),
{
    let r = join(q, seq!['-']);
    if q.len() == 1 {
        assert(r == q[0]);
        assert(q[0].len() > 0 && letters_only(q[0]));
        assert(slug_letter(r[0]));
        assert(slug_letter(r[r.len() - 1]));
        assert forall|i: int| 0 <= i < r.len() - 1 && #[trigger] r[i] == '-' implies r[i + 1]
            != '-' by {
            assert(slug_letter(r[i]));
        }
    } else if q.len() > 1 {
        let a = join(q.drop_last(), seq!['-']);
        let b = q.last();
        assert forall|k: int| 0 <= k < q.drop_last().len() implies #[trigger] q.drop_last()[k].len()
            > 0 && letters_only(q.drop_last()[k]) by {
            assert(q.drop_last()[k] == q[k]);
        }
        lemma_join_shape(q.drop_last());
        assert(b.len() > 0 && letters_only(b)) by {
            assert(q[q.len() - 1] == b);
        }
        assert(r == a + seq!['-'] + b);
        let n = a.len();
        assert(n > 0);
        assert forall|i: int| 0 <= i < r.len() implies r[i] == '-' || slug_letter(#[trigger] r[i]) by {
            if i < n {
                assert(r[i] == a[i]);
            } else if i > n {
                assert(r[i] == b[i - n - 1]);
            }
        }
        assert(r[0] == a[0]);
        assert(r[r.len() - 1] == b[b.len() - 1]);
        assert forall|i: int| 0 <= i < r.len() - 1 && #[trigger] r[i] == '-' implies r[i + 1]
            != '-' by {
            if i < n - 1 {
                assert(r[i] == a[i] && r[i + 1] == a[i + 1]);
            } else if i == n - 1 {
                assert(r[i] == a[n - 1]);
                assert(slug_letter(a.last()));
            } else if i == n {
                assert(r[i + 1] == b[0]);
                assert(slug_letter(b[0]));
            } else {
                assert(r[i] == b[i - n - 1]);
                assert(slug_letter(b[i - n - 1]));
            }
        }
    }
}

/// The slug letters and dashes are what `slug_char` keeps as they are.
proof fn lemma_slug_chars_fixed(s: Seq<char>)
    requires
        letters_or_dashes(s),
    ensures
        slug_chars(s) == s,
    decreases s.len(),
{
    if s.len() > 0 {
        assert(letters_or_dashes(s.drop_last())) by {
            assert forall|j: int| 0 <= j < s.drop_last().len() implies s.drop_last()[j] == '-'
                || slug_letter(#[trigger] s.drop_last()[j]) by {
                assert(s.drop_last()[j] == s[j]);
            }
        }
        lemma_slug_chars_fixed(s.drop_last());
        assert(s[s.len() - 1] == '-' || slug_letter(s[s.len() - 1]));
        assert(s.drop_last().push(s.last()) =~= s);
    }
}

/// Splitting at dashes words of letters joined by dashes gives the words back.
proof fn lemma_split_join(q: Seq<Seq<char>>)
    requires
        q.len() > 0,
        forall|k: int| 0 <= k < q.len() ==> #[trigger] q[k].len() > 0 && letters_only(q[k]),
    ensures
        split(join(q, seq!['-']), '-') == q,
    decreases q.len(),
{
    let w = q.last();
    assert(w.len() > 0 && letters_only(w)) by {
        assert(q[q.len() - 1] == w);
    }
    assert forall|j: int| 0 <= j < w.len() implies #[trigger] w[j] != '-' by {
        assert(slug_letter(w[j]));
    }
    if q.len() == 1 {
        lemma_split_piece(w, '-');
        assert(q =~= seq![w]);
    } else {
        assert forall|k: int| 0 <= k < q.drop_last().len() implies #[trigger] q.drop_last()[k].len()
            > 0 && letters_only(q.drop_last()[k]) by {
            assert(q.drop_last()[k] == q[k]);
        }
        lemma_split_join(q.drop_last());
        lemma_split_then_piece(join(q.drop_last(), seq!['-']), '-', w);
        assert(q.drop_last().push(w) =~= q);
    }
}

/// `nonempty_parts` keeps pieces that are all non-empty as they are.
proof fn lemma_nonempty_keeps(q: Seq<Seq<char>>)
    requires
        forall|k: int| 0 <= k < q.len() ==> #[trigger] q[k].len() > 0,
    ensures
        nonempty_parts(q) == q,
    decreases q.len(),
{
    if q.len() > 0 {
        assert forall|k: int| 0 <= k < q.drop_last().len() implies #[trigger] q.drop_last()[k].len()
            > 0 by {
            assert(q.drop_last()[k] == q[k]);
        }
        lemma_nonempty_keeps(q.drop_last());
        assert(q[q.len() - 1].len() > 0);
        assert(q.drop_last().push(q.last()) =~= q);
    }
}

/// The marker of a game folder in a Steam library path.
pub open spec fn steam_marker() -> Seq<char> {
    "steamapps/common/"@
}

/// The slug of the game folder that follows the first `steamapps/common/` in `arg`
/// (matched without regard to ASCII case), if that folder and its slug are not empty.
pub open spec fn steamapps_slug(arg: Seq<char>) -> Option<Seq<char>> {
    match first_occurrence(ascii_lower_seq(arg), steam_marker()) {
        None => None,
        Some(idx) => {
            let folder = split(arg.skip(idx + steam_marker().len()), '/')[0];
            if folder.len() == 0 || slug_of(folder).len() == 0 {
                None
            } else {
                Some(slug_of(folder))
            }
        },
    }
}

/// The Steam folder slug of the first argument that has one.
pub open spec fn first_steamapps_slug(cmd: Seq<Seq<char>>) -> Option<Seq<char>>
    decreases cmd.len(),
{
    if cmd.len() == 0 {
        None
    } else {
        match first_steamapps_slug(cmd.drop_last()) {
            Some(s) => Some(s),
            None => steamapps_slug(cmd.last()),
        }
    }
}

/// The slug of the executable: the slug of the file stem of the command's first word.
pub open spec fn executable_slug(cmd: Seq<Seq<char>>) -> Option<Seq<char>> {
    if cmd.len() == 0 {
        None
    } else {
        match file_stem(cmd[0]) {
            Some(stem) => if slug_of(stem).len() > 0 {
                Some(slug_of(stem))
            } else {
                None
            },
            None => None,
        }
    }
}

/// The slug that names the game a command launches: from the Steam folder of the first
/// argument inside `steamapps/common/`, else from the executable's name, else `unknown`.
pub open spec fn app_slug(cmd: Seq<Seq<char>>) -> Seq<char> {
    match first_steamapps_slug(cmd) {
        Some(s) => s,
        None => match executable_slug(cmd) {
            Some(s) => s,
            None => "unknown"@,
        },
    }
}

/// The executable of a command whose first word is a path to `name.ext` (`name` not empty,
/// `ext` free of dots) is named by the slug of `name`, where that slug is not empty; a command
/// outside any Steam library folder is then named by it.
pub proof fn lemma_executable_slug_of_stem(
    cmd: Seq<Seq<char>>,
    dir: Seq<char>,
    name: Seq<char>,
    ext: Seq<char>,
)
    requires
        cmd.len() > 0,
        cmd[0] == dir + name + seq!['.'] + ext,
        dir.len() == 0 || dir.last() == '/',
        name.len() > 0,
        forall|j: int| 0 <= j < name.len() ==> #[trigger] name[j] != '/',
        forall|j: int| 0 <= j < ext.len() ==> #[trigger] ext[j] != '/' && ext[j] != '.',
        name != seq!['.'] || ext.len() > 0,
        slug_of(name).len() > 0,
    ensures
        executable_slug(cmd) == Some(slug_of(name)),
        first_steamapps_slug(cmd) is None ==> app_slug(cmd) == slug_of(name),
{
    lemma_file_stem_drops_extension(dir, name, ext);
}

fn slug_chars_of(s: &Vec<char>) -> (r: Vec<char>)
    ensures
        r@ == slug_chars(s@),
{
    let mut r: Vec<char> = Vec::new();
    let n = s.len();
    assert(s@.take(0) =~= Seq::<char>::empty());
    for i in 0..n
        invariant
            n == s@.len(),
            r@ == slug_chars(s@.take(i as int)),
    {
        let ghost t = s@.take(i + 1);
        assert(t.drop_last() =~= s@.take(i as int));
        assert(t.last() == s@[i as int]);
        let c = s[i];
        if is_alphanumeric(c) {
            r.push(to_ascii_lower(c));
        } else if c == ' ' || c == '_' || c == '-' {
            r.push('-');
        }
    }
    assert(s@.take(n as int) =~= s@);
    r
}

fn slug_of_chars(name: &Vec<char>) -> (r: Vec<char>)
    ensures
        r@ == slug_of(name@),
{
    let mapped = slug_chars_of(name);
    let parts = split_chars(&mapped, '-');
    let kept = nonempty_only(&parts);
    let dash = vec!['-'];
    assert(dash@ =~= seq!['-']);
    join_chars(&kept, &dash)
}

/// The slug of a name (`normalize_to_slug`).
pub fn normalize_to_slug(name: &str) -> (r: String)
    ensures
        r@ == slug_of(name@),
{
    let cs = char_vec(name);
    string_of(&slug_of_chars(&cs))
}

fn steamapps_slug_of(arg: &Vec<char>) -> (r: Option<Vec<char>>)
    ensures
        r matches Some(v) ==> steamapps_slug(arg@) == Some(v@),
        r is None ==> steamapps_slug(arg@) is None,
{
    let mut lower: Vec<char> = Vec::new();
    let n = arg.len();
    for i in 0..n
        invariant
            n == arg@.len(),
            lower@ == ascii_lower_seq(arg@.take(i as int)),
    {
        lower.push(to_ascii_lower(arg[i]));
        assert(ascii_lower_seq(arg@.take(i + 1)) =~= ascii_lower_seq(arg@.take(i as int)).push(
            ascii_lower(arg@[i as int]),
        ));
    }
    assert(arg@.take(n as int) =~= arg@);
    let marker = char_vec("steamapps/common/");
    match find_chars(&lower, &marker) {
        None => {
            assert(first_occurrence(ascii_lower_seq(arg@), steam_marker()) is None);
            None
        },
        Some(idx) => {
            proof {
                let w = choose|c: int|
                    crate::split::occurs_at(lower@, marker@, c) && forall|j: int|
                        0 <= j < c ==> !crate::split::occurs_at(lower@, marker@, j);
                assert(crate::split::occurs_at(lower@, marker@, w));
                if w < idx {
                } else if w > idx {
                }
                assert(first_occurrence(ascii_lower_seq(arg@), steam_marker()) == Some(
                    idx as int,
                ));
            }
            let start = idx + marker.len();
            let mut after: Vec<char> = Vec::new();
            let mut j = start;
            while j < n
                invariant
                    start <= j <= n,
                    n == arg@.len(),
                    after@ == arg@.subrange(start as int, j as int),
                decreases n - j,
            {
                after.push(arg[j]);
                assert(arg@.subrange(start as int, j + 1) =~= arg@.subrange(
                    start as int,
                    j as int,
                ).push(arg@[j as int]));
                j = j + 1;
            }
            assert(after@ =~= arg@.skip(start as int));
            let parts = split_chars(&after, '/');
            let folder = &parts[0];
            assert(folder@ == split(after@, '/')[0]);
            if folder.len() == 0 {
                return None;
            }
            let slug = slug_of_chars(folder);
            if slug.len() == 0 {
                None
            } else {
                Some(slug)
            }
        },
    }
}

/// The slug of the Steam game folder that `arg` points into, if it points into one.
pub fn extract_slug_from_steamapps_path(arg: &str) -> (r: Option<String>)
    ensures
        r matches Some(s) ==> steamapps_slug(arg@) == Some(s@),
        r is None ==> steamapps_slug(arg@) is None,
{
    let cs = char_vec(arg);
    match steamapps_slug_of(&cs) {
        Some(v) => Some(string_of(&v)),
        None => None,
    }
}

/// The slug that names the game `command` launches.
#[verifier::rlimit(40)]
pub fn derive_app_slug(command: &[String]) -> (r: String)
    ensures
        r@ == app_slug(str_views(command@)),
{
    let n = command.len();
    let ghost cmd = str_views(command@);
    assert(cmd.take(0) =~= Seq::<Seq<char>>::empty());
    for i in 0..n
        invariant
            n == command@.len(),
            cmd == str_views(command@),
            first_steamapps_slug(cmd.take(i as int)) is None,
    {
        let ghost t = cmd.take(i + 1);
        assert(t.drop_last() =~= cmd.take(i as int));
        assert(t.last() == command@[i as int]@);
        match extract_slug_from_steamapps_path(command[i].as_str()) {
            Some(s) => {
                proof {
                    lemma_first_steamapps_slug_prefix(cmd, i + 1);
                }
                return s;
            },
            None => {},
        }
    }
    assert(cmd.take(n as int) =~= cmd);
    if n > 0 {
        let first = char_vec(command[0].as_str());
        assert(first@ == cmd[0]);
        match path_file_stem(&first) {
            Some(stem) => {
                let slug = slug_of_chars(&stem);
                if slug.len() > 0 {
                    return string_of(&slug);
                }
            },
            None => {},
        }
    }
    "unknown".to_owned()
}

/// Once an argument yields a Steam slug, later arguments do not change which one is used.
proof fn lemma_first_steamapps_slug_prefix(cmd: Seq<Seq<char>>, i: int)
    requires
        0 < i <= cmd.len(),
        first_steamapps_slug(cmd.take(i)) is Some,
    ensures
        first_steamapps_slug(cmd) == first_steamapps_slug(cmd.take(i)),
    decreases cmd.len() - i,
{
    if i < cmd.len() {
        let t = cmd.take(i + 1);
        assert(t.drop_last() =~= cmd.take(i));
        lemma_first_steamapps_slug_prefix(cmd, i + 1);
    } else {
        assert(cmd.take(i) =~= cmd);
    }
}

// ----- Overrides and profiles -----

/// Whether the command line set anything at all.
pub fn has_overrides(cli: &CliOverrides) -> (r: bool)
    ensures
        r == (cli@ != empty_layer()),
{
    let r = cli.width.is_some() || cli.height.is_some() || cli.refresh_rate.is_some()
        || cli.hdr.is_some() || cli.vrr.is_some()
        || cli.gamescope.is_some() || cli.itm.is_some() || cli.fsr4.is_some()
        || cli.vcache.is_some() || cli.fix_mouse.is_some() || cli.mangohud.is_some()
        || cli.mangohud_config.is_some() || cli.vkbasalt.is_some()
        || cli.vkbasalt_profile.is_some();
    proof {
        if !r {
            assert(cli@ =~= empty_layer());
        }
    }
    r
}

/// The profile that keeps exactly what a set of command-line overrides set: a `[settings]`
/// table when any of its fields is set, a `[mangohud]` or `[vkbasalt]` table when any of
/// theirs is.
pub open spec fn profile_from_overrides(
    o: SettingsLayer,
    steam_app_id: Option<u64>,
    name: Seq<char>,
) -> ProfileView {
    let has_settings = o.width is Some || o.height is Some || o.refresh_rate is Some
        || o.hdr is Some || o.vrr is Some
        || o.gamescope is Some || o.itm is Some || o.fsr4 is Some || o.vcache is Some
        || o.fix_mouse is Some;
    ProfileView {
        name: Some(name),
        steam_app_id: steam_app_id,
        settings: if has_settings {
            Some(
                ProfileSettings {
                    width: o.width,
                    height: o.height,
                    refresh_rate: o.refresh_rate,
                    hdr: o.hdr,
                    vrr: o.vrr,
                    gamescope: o.gamescope,
                    itm: o.itm,
                    fsr4: o.fsr4,
                    vcache: o.vcache,
                    fix_mouse: o.fix_mouse,
                },
            )
        } else {
            None
        },
        mangohud: if o.mangohud is Some || o.mangohud_config is Some {
            Some(MangoHudView { enabled: o.mangohud, config: o.mangohud_config })
        } else {
            None
        },
        vkbasalt: if o.vkbasalt is Some || o.vkbasalt_profile is Some {
            Some(VkBasaltView { enabled: o.vkbasalt, profile: o.vkbasalt_profile })
        } else {
            None
        },
    }
}

/// A profile that records the given overrides under the given name and Steam app ID.
pub fn build_profile_from_overrides(
    overrides: &CliOverrides,
    steam_app_id: Option<u64>,
    display_name: &str,
) -> (r: Profile)
    ensures
        r@ == profile_from_overrides(overrides@, steam_app_id, display_name@),
{
    let has_settings = overrides.width.is_some() || overrides.height.is_some()
        || overrides.refresh_rate.is_some() || overrides.hdr.is_some() || overrides.vrr.is_some()
        || overrides.gamescope.is_some()
        || overrides.itm.is_some() || overrides.fsr4.is_some() || overrides.vcache.is_some()
        || overrides.fix_mouse.is_some();
    let settings = if has_settings {
        Some(
            ProfileSettings {
                width: overrides.width,
                height: overrides.height,
                refresh_rate: overrides.refresh_rate,
                hdr: overrides.hdr,
                vrr: overrides.vrr,
                gamescope: overrides.gamescope,
                itm: overrides.itm,
                fsr4: overrides.fsr4,
                vcache: overrides.vcache,
                fix_mouse: overrides.fix_mouse,
            },
        )
    } else {
        None
    };
    let mangohud = if overrides.mangohud.is_some() || overrides.mangohud_config.is_some() {
        Some(
            MangoHudConfig {
                enabled: overrides.mangohud,
                config: copy_opt(&overrides.mangohud_config),
            },
        )
    } else {
        None
    };
    let vkbasalt = if overrides.vkbasalt.is_some() || overrides.vkbasalt_profile.is_some() {
        Some(
            VkBasaltConfig {
                enabled: overrides.vkbasalt,
                profile: copy_opt(&overrides.vkbasalt_profile),
            },
        )
    } else {
        None
    };
    Profile {
        name: Some(display_name.to_owned()),
        steam_app_id,
        settings,
        mangohud,
        vkbasalt,
    }
}

/// A profile built from a launch's overrides sets exactly what those overrides set: launching
/// with that profile and no command-line flags resolves to the same settings as the remembered
/// launch, under any global config.
pub proof fn lemma_profile_from_overrides_resolves_alike(
    overrides: &CliOverrides,
    steam_app_id: Option<u64>,
    name: Seq<char>,
    profile: &Profile,
    global: &GlobalConfig,
)
    requires
        profile@ == profile_from_overrides(overrides@, steam_app_id, name),
    ensures
        profile_layer(Some(profile)) == overrides@,
        resolved(None, Some(profile), global) == resolved(Some(overrides), None, global),
{
    let p = profile_layer(Some(profile));
    assert(p =~= overrides@) by {
        if profile.mangohud is Some {
            assert(profile@.mangohud == Some(profile.mangohud->0@));
        }
        if profile.vkbasalt is Some {
            assert(profile@.vkbasalt == Some(profile.vkbasalt->0@));
        }
    }
}

// ----- The history store -----

/// How many launches are remembered per game.
pub const MAX_LAUNCHES_PER_APP: usize = 3;

/// A point in time, as seconds and nanoseconds since the Unix epoch (UTC).
#[derive(Debug, Clone, Copy, PartialEq, Eq)]
pub struct Timestamp {
    pub secs: i64,
    pub nanos: u32,
}

#[verifier::external_type_specification]
#[verifier::external_body]
pub struct ExSystemTime(std::time::SystemTime);

/// `SystemTime::now`: the system clock; nothing is claimed of what it reads.
pub assume_specification[ std::time::SystemTime::now ]() -> std::time::SystemTime;

/// Calls `SystemTime::duration_since(UNIX_EPOCH)` and reads the distance to the epoch as whole
/// seconds and nanoseconds: `Ok` for an instant at or after the epoch, `Err` for one before
/// it. The nanoseconds are below one billion (`Duration::subsec_nanos`); nothing else is
/// claimed.
#[verifier::external_body]
fn since_epoch(t: &std::time::SystemTime) -> (r: Result<(u64, u32), (u64, u32)>)
    ensures
        match r {
            Ok((_, n)) => n < 1_000_000_000,
            Err((_, n)) => n < 1_000_000_000,
        },
{
    match t.duration_since(std::time::UNIX_EPOCH) {
        Ok(d) => Ok((d.as_secs(), d.subsec_nanos())),
        Err(e) => Err((e.duration().as_secs(), e.duration().subsec_nanos())),
    }
}

/// The number of nanoseconds after the epoch that a timestamp stands for.
pub open spec fn instant_nanos(t: Timestamp) -> int {
    t.secs * 1_000_000_000 + t.nanos
}

/// The timestamp of an instant `s` seconds and `n` nanoseconds after the epoch (`Ok`) or
/// before it (`Err`), with its nanoseconds below one billion; seconds beyond what an `i64`
/// holds are cut to its bounds.
pub fn timestamp_since_epoch(since: Result<(u64, u32), (u64, u32)>) -> (t: Timestamp)
    requires
        match since {
            Ok((_, n)) => n < 1_000_000_000,
            Err((_, n)) => n < 1_000_000_000,
        },
    ensures
        t.nanos < 1_000_000_000,
        match since {
            Ok((s, n)) => if s <= i64::MAX {
                instant_nanos(t) == s * 1_000_000_000 + n
            } else {
                t.secs == i64::MAX && t.nanos == n
            },
            Err((s, n)) => if s <= i64::MAX {
                instant_nanos(t) == -(s * 1_000_000_000 + n)
            } else {
                t.secs == i64::MIN && t.nanos == 0
            },
        },
{
    match since {
        Ok((s, n)) => if s <= i64::MAX as u64 {
            Timestamp { secs: s as i64, nanos: n }
        } else {
            Timestamp { secs: i64::MAX, nanos: n }
        },
        Err((s, n)) => if s <= i64::MAX as u64 {
            let neg: i64 = -(s as i64);
            if n == 0 {
                Timestamp { secs: neg, nanos: 0 }
            } else {
                Timestamp { secs: neg - 1, nanos: 1_000_000_000 - n }
            }
        } else {
            Timestamp { secs: i64::MIN, nanos: 0 }
        },
    }
}

/// What the system clock reads now, as a timestamp (see `timestamp_since_epoch`); what time it
/// is, is not claimed.
pub fn now() -> (t: Timestamp)
    ensures
        t.nanos < 1_000_000_000,
{
    let clock = std::time::SystemTime::now();
    timestamp_since_epoch(since_epoch(&clock))
}

/// One launch: when, the game command, and what the command line overrode.
#[derive(Debug, Clone)]
pub struct LaunchRecord {
    pub timestamp: Timestamp,
    pub command: Vec<String>,
    pub overrides: CliOverrides,
}

/// What is remembered of one game: its Steam app ID if known, and its last launches, newest
/// first.
#[derive(Debug, Clone)]
pub struct AppHistory {
    pub steam_app_id: Option<u64>,
    pub launches: Vec<LaunchRecord>,
}

/// The history of all games, keyed by slug, in ascending order of slug.
#[derive(Debug)]
pub struct History {
    entries: Vec<(String, AppHistory)>,
}

/// Why a request about the history was refused.
#[derive(Debug, Clone, PartialEq, Eq)]
pub enum HistoryError {
    /// Nothing is remembered under this slug.
    NoHistory(String),
    /// The 1-based launch index is not among the `count` remembered launches.
    LaunchIndexOutOfRange { index: usize, count: usize },
}

/// The keys of an association list are in strictly ascending order (so no key occurs twice).
pub open spec fn sorted_keys(s: Seq<(Seq<char>, AppHistory)>) -> bool {
    forall|i: int, j: int| 0 <= i < j < s.len() ==> seq_lt(#[trigger] s[i].0, #[trigger] s[j].0)
}

/// The value stored under `k`.
pub open spec fn lookup(s: Seq<(Seq<char>, AppHistory)>, k: Seq<char>) -> Option<AppHistory>
    decreases s.len(),
{
    if s.len() == 0 {
        None
    } else if s.last().0 == k {
        Some(s.last().1)
    } else {
        lookup(s.drop_last(), k)
    }
}

pub open spec fn entry_views(v: Seq<(String, AppHistory)>) -> Seq<(Seq<char>, AppHistory)> {
    v.map_values(|e: (String, AppHistory)| (e.0@, e.1))
}

impl View for History {
    type V = Seq<(Seq<char>, AppHistory)>;

    /// The entries, as (slug, history) pairs in ascending order of slug.
    closed spec fn view(&self) -> Seq<(Seq<char>, AppHistory)> {
        entry_views(self.entries@)
    }
}

proof fn lemma_lookup_absent(s: Seq<(Seq<char>, AppHistory)>, k: Seq<char>)
    requires
        forall|j: int| 0 <= j < s.len() ==> #[trigger] s[j].0 != k,
    ensures
        lookup(s, k) is None,
    decreases s.len(),
{
    if s.len() > 0 {
        lemma_lookup_absent(s.drop_last(), k);
    }
}

proof fn lemma_lookup_at(s: Seq<(Seq<char>, AppHistory)>, i: int)
    requires
        0 <= i < s.len(),
        forall|j: int| i < j < s.len() ==> #[trigger] s[j].0 != s[i].0,
    ensures
        lookup(s, s[i].0) == Some(s[i].1),
    decreases s.len(),
{
    if i < s.len() - 1 {
        lemma_lookup_at(s.drop_last(), i);
    }
}

proof fn lemma_lookup_insert_other(
    s: Seq<(Seq<char>, AppHistory)>,
    i: int,
    x: (Seq<char>, AppHistory),
    k: Seq<char>,
)
    requires
        0 <= i <= s.len(),
        x.0 != k,
    ensures
        lookup(s.insert(i, x), k) == lookup(s, k),
    decreases s.len(),
{
    if i == s.len() {
        assert(s.insert(i, x).drop_last() =~= s);
    } else {
        assert(s.insert(i, x).drop_last() =~= s.drop_last().insert(i, x));
        lemma_lookup_insert_other(s.drop_last(), i, x, k);
    }
}

proof fn lemma_lookup_remove_other(s: Seq<(Seq<char>, AppHistory)>, i: int, k: Seq<char>)
    requires
        0 <= i < s.len(),
        s[i].0 != k,
    ensures
        lookup(s.remove(i), k) == lookup(s, k),
    decreases s.len(),
{
    if i == s.len() - 1 {
        assert(s.remove(i) =~= s.drop_last());
    } else {
        assert(s.remove(i).drop_last() =~= s.drop_last().remove(i));
        lemma_lookup_remove_other(s.drop_last(), i, k);
    }
}

proof fn lemma_sorted_distinct(s: Seq<(Seq<char>, AppHistory)>, i: int, j: int)
    requires
        sorted_keys(s),
        0 <= i < s.len(),
        0 <= j < s.len(),
        i != j,
    ensures
        s[i].0 != s[j].0,
{
    if i < j {
        assert(seq_lt(s[i].0, s[j].0));
    } else {
        assert(seq_lt(s[j].0, s[i].0));
    }
    lemma_lt_irreflexive(s[i].0);
}

impl History {
    #[verifier::type_invariant]
    spec fn keys_ascend(&self) -> bool {
        sorted_keys(self@)
    }

    /// An empty history.
    pub fn new() -> (r: History)
        ensures
            r@ == Seq::<(Seq<char>, AppHistory)>::empty(),
    {
        let r = History { entries: Vec::new() };
        assert(r@ =~= Seq::<(Seq<char>, AppHistory)>::empty());
        r
    }

    /// The number of games remembered.
    pub fn len(&self) -> (r: usize)
        ensures
            r == self@.len(),
    {
        self.entries.len()
    }

    /// Whether nothing is remembered.
    pub fn is_empty(&self) -> (r: bool)
        ensures
            r == (self@.len() == 0),
    {
        self.entries.len() == 0
    }

    /// The entries, in ascending order of slug.
    pub fn entries(&self) -> (r: &Vec<(String, AppHistory)>)
        ensures
            entry_views(r@) == self@,
            sorted_keys(self@),
    {
        proof {
            use_type_invariant(self);
        }
        &self.entries
    }

    /// The position at which `key` is stored, or before which it would be stored.
    fn position(&self, key: &Vec<char>) -> (r: (usize, bool))
        ensures
            r.0 <= self@.len(),
            forall|j: int| 0 <= j < r.0 ==> seq_lt(#[trigger] self@[j].0, key@),
            r.1 ==> r.0 < self@.len() && self@[r.0 as int].0 == key@,
            !r.1 ==> forall|j: int| r.0 <= j < self@.len() ==> seq_lt(key@, #[trigger] self@[j].0),
    {
        proof {
            use_type_invariant(self);
        }
        let n = self.entries.len();
        let mut i: usize = 0;
        while i < n
            invariant
                i <= n,
                n == self@.len(),
                sorted_keys(self@),
                forall|j: int| 0 <= j < i ==> seq_lt(#[trigger] self@[j].0, key@),
            decreases n - i,
        {
            let k = char_vec(self.entries[i].0.as_str());
            assert(k@ == self@[i as int].0);
            if !chars_lt(&k, key) {
                let same = chars_eq(&k, key);
                proof {
                    if !same {
                        lemma_lt_total(k@, key@);
                        assert forall|j: int| i <= j < self@.len() implies seq_lt(
                            key@,
                            #[trigger] self@[j].0,
                        ) by {
                            if j > i {
                                assert(seq_lt(self@[i as int].0, self@[j].0));
                                lemma_lt_transitive(key@, self@[i as int].0, self@[j].0);
                            }
                        }
                    }
                }
                return (i, same);
            }
            i = i + 1;
        }
        (n, false)
    }

    /// The history of `slug`, if any.
    pub fn get(&self, slug: &str) -> (r: Option<&AppHistory>)
        ensures
            r matches Some(a) ==> lookup(self@, slug@) == Some(*a),
            r is None ==> lookup(self@, slug@) is None,
    {
        proof {
            use_type_invariant(self);
        }
        let key = char_vec(slug);
        let (i, found) = self.position(&key);
        if found {
            proof {
                assert forall|j: int| i < j < self@.len() implies #[trigger] self@[j].0
                    != self@[i as int].0 by {
                    lemma_sorted_distinct(self@, i as int, j);
                }
                lemma_lookup_at(self@, i as int);
            }
            Some(&self.entries[i].1)
        } else {
            proof {
                assert forall|j: int| 0 <= j < self@.len() implies #[trigger] self@[j].0
                    != key@ by {
                    if j < i {
                        assert(seq_lt(self@[j].0, key@));
                        lemma_lt_irreflexive(key@);
                    } else {
                        assert(seq_lt(key@, self@[j].0));
                        lemma_lt_irreflexive(key@);
                    }
                }
                lemma_lookup_absent(self@, key@);
            }
            None
        }
    }

    /// Stores `app` under `slug`, replacing what was there; returns what was there.
    pub fn insert(&mut self, slug: String, app: AppHistory) -> (r: Option<AppHistory>)
        ensures
            lookup(final(self)@, slug@) == Some(app),
            forall|k: Seq<char>| k != slug@ ==> lookup(final(self)@, k) == lookup(old(self)@, k),
            r == lookup(old(self)@, slug@),
            final(self)@.len() == old(self)@.len() + (if r is Some {
                0int
            } else {
                1int
            }),
    {
        proof {
            use_type_invariant(&*self);
        }
        let key = char_vec(slug.as_str());
        let (i, found) = self.position(&key);
        let ghost s0 = self@;
        let mut v: Vec<(String, AppHistory)> = Vec::new();
        std::mem::swap(&mut v, &mut self.entries);
        assert(entry_views(v@) == s0);
        let prev = if found {
            let (_, old_app) = v.remove(i);
            proof {
                assert(entry_views(v@) =~= s0.remove(i as int));
            }
            Some(old_app)
        } else {
            None
        };
        let ghost s1 = entry_views(v@);
        v.insert(i, (slug, app));
        proof {
            let x = (key@, app);
            assert(entry_views(v@) =~= s1.insert(i as int, x));
            // The result is still in ascending order.
            assert forall|a: int, b: int|
                0 <= a < b < entry_views(v@).len() implies seq_lt(
                #[trigger] entry_views(v@)[a].0,
                #[trigger] entry_views(v@)[b].0,
            ) by {
                let t = entry_views(v@);
                let off: int = if found { 1 } else { 0 };
                if a < i && b < i {
                    assert(t[a] == s0[a] && t[b] == s0[b]);
                } else if a < i && b == i {
                    assert(t[a] == s0[a]);
                } else if a < i {
                    assert(t[a] == s0[a] && t[b] == s0[b - 1 + off]);
                    lemma_lt_transitive(s0[a].0, key@, s0[b - 1 + off].0);
                    if found {
                        assert(seq_lt(s0[a].0, s0[b].0));
                    }
                } else if a == i {
                    assert(t[b] == s0[b - 1 + off]);
                    if found {
                        assert(seq_lt(s0[i as int].0, s0[b].0));
                    }
                } else {
                    assert(t[a] == s0[a - 1 + off] && t[b] == s0[b - 1 + off]);
                }
            }
            // Lookups.
            assert forall|j: int| 0 <= j < s1.len() implies #[trigger] s1[j].0 != key@ by {
                lemma_lt_irreflexive(key@);
                if found {
                    let jj = if j < i { j } else { j + 1 };
                    assert(s1[j] == s0[jj]);
                    lemma_sorted_distinct(s0, jj, i as int);
                } else {
                    if j < i {
                        assert(seq_lt(s0[j].0, key@));
                    } else {
                        assert(seq_lt(key@, s0[j].0));
                    }
                }
            }
            let t = entry_views(v@);
            assert forall|j: int| i < j < t.len() implies #[trigger] t[j].0 != t[i as int].0 by {
                assert(t[j] == s1[j - 1]);
            }
            lemma_lookup_at(t, i as int);
            assert forall|k: Seq<char>| k != slug@ implies lookup(t, k) == lookup(s0, k) by {
                lemma_lookup_insert_other(s1, i as int, x, k);
                if found {
                    lemma_lookup_remove_other(s0, i as int, k);
                }
            }
            if found {
                assert forall|j: int| i < j < s0.len() implies #[trigger] s0[j].0
                    != s0[i as int].0 by {
                    lemma_sorted_distinct(s0, i as int, j);
                }
                lemma_lookup_at(s0, i as int);
            } else {
                assert forall|j: int| 0 <= j < s0.len() implies #[trigger] s0[j].0 != key@ by {
                    lemma_lt_irreflexive(key@);
                    if j < i {
                        assert(seq_lt(s0[j].0, key@));
                    } else {
                        assert(seq_lt(key@, s0[j].0));
                    }
                }
                lemma_lookup_absent(s0, key@);
            }
        }
        self.entries = v;
        prev
    }

    /// Forgets `slug`; returns what was remembered of it.
    pub fn remove(&mut self, slug: &str) -> (r: Option<AppHistory>)
        ensures
            lookup(final(self)@, slug@) is None,
            forall|k: Seq<char>| k != slug@ ==> lookup(final(self)@, k) == lookup(old(self)@, k),
            r == lookup(old(self)@, slug@),
            final(self)@.len() == old(self)@.len() - (if r is Some {
                1int
            } else {
                0int
            }),
    {
        proof {
            use_type_invariant(&*self);
        }
        let key = char_vec(slug);
        let (i, found) = self.position(&key);
        let ghost s0 = self@;
        proof {
            lemma_lt_irreflexive(key@);
        }
        if !found {
            proof {
                assert forall|j: int| 0 <= j < s0.len() implies #[trigger] s0[j].0 != key@ by {
                    if j < i {
                        assert(seq_lt(s0[j].0, key@));
                    } else {
                        assert(seq_lt(key@, s0[j].0));
                    }
                }
                lemma_lookup_absent(s0, key@);
            }
            return None;
        }
        let mut v: Vec<(String, AppHistory)> = Vec::new();
        std::mem::swap(&mut v, &mut self.entries);
        let (_, old_app) = v.remove(i);
        proof {
            let t = entry_views(v@);
            assert(t =~= s0.remove(i as int));
            assert forall|a: int, b: int| 0 <= a < b < t.len() implies seq_lt(
                #[trigger] t[a].0,
                #[trigger] t[b].0,
            ) by {
                let aa = if a < i { a } else { a + 1 };
                let bb = if b < i { b } else { b + 1 };
                assert(t[a] == s0[aa] && t[b] == s0[bb]);
            }
            assert forall|j: int| 0 <= j < t.len() implies #[trigger] t[j].0 != key@ by {
                let jj = if j < i { j } else { j + 1 };
                assert(t[j] == s0[jj]);
                lemma_sorted_distinct(s0, jj, i as int);
            }
            lemma_lookup_absent(t, key@);
            assert forall|k: Seq<char>| k != slug@ implies lookup(t, k) == lookup(s0, k) by {
                lemma_lookup_remove_other(s0, i as int, k);
            }
            assert forall|j: int| i < j < s0.len() implies #[trigger] s0[j].0 != s0[i as int].0 by {
                lemma_sorted_distinct(s0, i as int, j);
            }
            lemma_lookup_at(s0, i as int);
        }
        self.entries = v;
        Some(old_app)
    }
}

impl Default for History {
    fn default() -> (r: History)
        ensures
            r@ == Seq::<(Seq<char>, AppHistory)>::empty(),
    {
        History::new()
    }
}

// ----- Recording and using launches -----

/// Whether `a` is what `record_launch` leaves for a game that had `prev` before: the given
/// app ID if there is one, else the old one; the new launch first, then the older launches,
/// at most `MAX_LAUNCHES_PER_APP` in all.
pub open spec fn launch_recorded(
    prev: Option<AppHistory>,
    steam_app_id: Option<u64>,
    command: Vec<String>,
    overrides: CliOverrides,
    a: AppHistory,
) -> bool {
    let prev_launches = match prev {
        Some(p) => p.launches@,
        None => Seq::<LaunchRecord>::empty(),
    };
    let prev_id = match prev {
        Some(p) => p.steam_app_id,
        None => None,
    };
    &&& a.steam_app_id == either(steam_app_id, prev_id)
    &&& a.launches@.len() == if prev_launches.len() + 1 < MAX_LAUNCHES_PER_APP {
        prev_launches.len() + 1
    } else {
        MAX_LAUNCHES_PER_APP as nat
    }
    &&& a.launches@[0].command == command
    &&& a.launches@[0].overrides == overrides
    &&& forall|j: int| 1 <= j < a.launches@.len() ==> a.launches@[j] == prev_launches[j - 1]
}

/// Remembers a launch of `slug`, newest first, keeping at most `MAX_LAUNCHES_PER_APP`
/// launches; a given Steam app ID replaces the remembered one. Other games are untouched.
pub fn record_launch(
    history: &mut History,
    slug: &str,
    steam_app_id: Option<u64>,
    command: Vec<String>,
    overrides: CliOverrides,
)
    ensures
        lookup(final(history)@, slug@) matches Some(a) && launch_recorded(
            lookup(old(history)@, slug@),
            steam_app_id,
            command,
            overrides,
            a,
        ),
        forall|k: Seq<char>| k != slug@ ==> lookup(final(history)@, k) == lookup(old(history)@, k),
        final(history)@.len() == old(history)@.len() + (if lookup(old(history)@, slug@) is Some {
            0int
        } else {
            1int
        }),
{
    let t = now();
    record_launch_at(history, slug, steam_app_id, command, overrides, t);
}

/// `record_launch` with the launch's time given.
pub fn record_launch_at(
    history: &mut History,
    slug: &str,
    steam_app_id: Option<u64>,
    command: Vec<String>,
    overrides: CliOverrides,
    timestamp: Timestamp,
)
    ensures
        lookup(final(history)@, slug@) matches Some(a) && launch_recorded(
            lookup(old(history)@, slug@),
            steam_app_id,
            command,
            overrides,
            a,
        ) && a.launches@[0].timestamp == timestamp,
        forall|k: Seq<char>| k != slug@ ==> lookup(final(history)@, k) == lookup(old(history)@, k),
        final(history)@.len() == old(history)@.len() + (if lookup(old(history)@, slug@) is Some {
            0int
        } else {
            1int
        }),
{
    let ghost prev = lookup(history@, slug@);
    let record = LaunchRecord { timestamp, command, overrides };
    let (id, mut launches) = match history.remove(slug) {
        Some(a) => (if steam_app_id.is_some() {
            steam_app_id
        } else {
            a.steam_app_id
        }, a.launches),
        None => (steam_app_id, Vec::new()),
    };
    let ghost prev_launches = launches@;
    launches.insert(0, record);
    launches.truncate(MAX_LAUNCHES_PER_APP);
    let app = AppHistory { steam_app_id: id, launches };
    proof {
        assert forall|j: int| 1 <= j < app.launches@.len() implies app.launches@[j]
            == prev_launches[j - 1] by {
            assert(app.launches@[j] == prev_launches.insert(0, record)[j]);
        }
    }
    history.insert(slug.to_owned(), app);
}

/// The launch just recorded is launch number 1 of its game: promoting launch 1 right after
/// `record_launch` is accepted and builds the profile of the overrides just given, with the
/// app ID that the history now holds.
pub proof fn lemma_last_launch_promotes(
    prev: Option<AppHistory>,
    steam_app_id: Option<u64>,
    command: Vec<String>,
    overrides: CliOverrides,
    a: AppHistory,
    name: Seq<char>,
)
    requires
        launch_recorded(prev, steam_app_id, command, overrides, a),
    ensures
        1 <= a.launches@.len(),
        profile_from_overrides(a.launches@[1 - 1].overrides@, a.steam_app_id, name)
            == profile_from_overrides(
            overrides@,
            either(
                steam_app_id,
                match prev {
                    Some(p) => p.steam_app_id,
                    None => None,
                },
            ),
            name,
        ),
{
}

/// Whom a promoted launch is saved as: the given profile name, else the history's slug.
pub open spec fn promotion_target(slug: Seq<char>, profile_name: Option<&str>) -> Seq<char> {
    match profile_name {
        Some(n) => n@,
        None => slug,
    }
}

/// The profile that launch number `launch_index` (1 = newest) of `slug` becomes, and the slug
/// it is saved under; the caller writes it out if no profile of that slug exists yet.
pub fn promote_to_profile(
    history: &History,
    slug: &str,
    launch_index: usize,
    profile_name: Option<&str>,
) -> (r: Result<(String, Profile), HistoryError>)
    ensures
        match lookup(history@, slug@) {
            None => r matches Err(HistoryError::NoHistory(s)) && s@ == slug@,
            Some(a) => if launch_index == 0 || launch_index > a.launches@.len() {
                r == Err::<(String, Profile), HistoryError>(
                    HistoryError::LaunchIndexOutOfRange {
                        index: launch_index,
                        count: a.launches@.len() as usize,
                    },
                )
            } else {
                r matches Ok((t, p)) && t@ == promotion_target(slug@, profile_name) && p@
                    == profile_from_overrides(
                    a.launches@[launch_index - 1].overrides@,
                    a.steam_app_id,
                    replace_char(promotion_target(slug@, profile_name), '-', ' '),
                )
            },
        },
{
    let app = match history.get(slug) {
        Some(a) => a,
        None => {
            return Err(HistoryError::NoHistory(slug.to_owned()));
        },
    };
    if launch_index == 0 || launch_index > app.launches.len() {
        return Err(
            HistoryError::LaunchIndexOutOfRange { index: launch_index, count: app.launches.len() },
        );
    }
    let launch = &app.launches[launch_index - 1];
    let target: &str = match profile_name {
        Some(n) => n,
        None => slug,
    };
    let display_name = display_name_from_slug(target);
    let profile = build_profile_from_overrides(&launch.overrides, app.steam_app_id, display_name.as_str());
    Ok((target.to_owned(), profile))
}

/// Forgets the history of `slug`, or of every game when no slug is given.
pub fn clear_history(history: &mut History, slug: Option<&str>) -> (r: Result<(), HistoryError>)
    ensures
        match slug {
            Some(s) => {
                &&& (r is Ok <==> lookup(old(history)@, s@) is Some)
                &&& r matches Err(e) ==> e matches HistoryError::NoHistory(x) && x@ == s@
                &&& lookup(final(history)@, s@) is None
                &&& forall|k: Seq<char>|
                    k != s@ ==> lookup(final(history)@, k) == lookup(old(history)@, k)
            },
            None => r is Ok && final(history)@.len() == 0,
        },
{
    match slug {
        Some(s) => {
            if history.remove(s).is_some() {
                Ok(())
            } else {
                Err(HistoryError::NoHistory(s.to_owned()))
            }
        },
        None => {
            *history = History::new();
            Ok(())
        },
    }
}

// ----- Reports -----

/// The text of chrono's `format(fmt)` for the instant `secs` seconds and `nanos` nanoseconds
/// after the Unix epoch, in UTC; `None` where chrono has no such instant or cannot apply the
/// format.
pub uninterp spec fn utc_text(secs: i64, nanos: u32, fmt: Seq<char>) -> Option<Seq<char>>;

/// Calls `chrono::DateTime::from_timestamp(secs, nanos)` and writes the instant with
/// `format(fmt)`. The text is named `utc_text`; what it holds is not stated here.
#[verifier::external_body]
fn format_utc(secs: i64, nanos: u32, fmt: &str) -> (r: Option<String>)
    ensures
        r.deep_view() == utc_text(secs, nanos, fmt@),
{
    let t = chrono::DateTime::from_timestamp(secs, nanos)?;
    let mut s = String::new();
    match write!(s, "{}", t.format(fmt)) {
        Ok(()) => Some(s),
        Err(_) => None,
    }
}

/// A timestamp in a report: its text in the format `fmt`, or `-` where it has none.
pub open spec fn stamp_text(t: Timestamp, fmt: Seq<char>) -> Seq<char> {
    match utc_text(t.secs, t.nanos, fmt) {
        Some(x) => x,
        None => "-"@,
    }
}

/// The format of the last launch in the history table.
pub open spec fn minute_format() -> Seq<char> {
    "%Y-%m-%d %H:%M"@
}

/// The format of each launch in a game's history.
pub open spec fn second_format() -> Seq<char> {
    "%Y-%m-%d %H:%M:%S UTC"@
}

/// When a game was last launched, as the history table shows it (`-` for none).
pub open spec fn last_launched(a: AppHistory) -> Seq<char> {
    if a.launches@.len() == 0 {
        "-"@
    } else {
        stamp_text(a.launches@[0].timestamp, minute_format())
    }
}

/// An app ID as the reports show it, `-` when unknown.
pub open spec fn app_id_text(id: Option<u64>) -> Seq<char> {
    match id {
        Some(i) => decimal(i as nat),
        None => "-"@,
    }
}

/// One row of the history table: slug, app ID, number of launches, last launch.
pub open spec fn history_row(slug: Seq<char>, a: AppHistory, last: Seq<char>) -> Seq<char> {
    pad_right(slug, 25) + " "@ + pad_right(app_id_text(a.steam_app_id), 12) + " "@ + pad_right(
        decimal(a.launches@.len()),
        10,
    ) + " "@ + last
}

/// The history table with the given last-launch texts (`-` where none is given): a hint when
/// nothing is remembered; else a header, a rule of 65 dashes, and one row per game in order.
pub open spec fn history_table(
    entries: Seq<(Seq<char>, AppHistory)>,
    lasts: Seq<Seq<char>>,
) -> Seq<Seq<char>> {
    if entries.len() == 0 {
        seq!["No launch history. Run a game with CLI flags to start recording."@]
    } else {
        seq![
            pad_right("SLUG"@, 25) + " "@ + pad_right("APP ID"@, 12) + " "@ + pad_right(
                "LAUNCHES"@,
                10,
            ) + " LAST LAUNCHED"@,
            repeated('-', 65),
        ] + Seq::new(
            entries.len(),
            |i: int|
                history_row(
                    entries[i].0,
                    entries[i].1,
                    if i < lasts.len() {
                        lasts[i]
                    } else {
                        "-"@
                    },
                ),
        )
    }
}

/// The history table, with `lasts[i]` as the last launch of the `i`-th game (see
/// `history_table`).
pub fn history_table_lines(history: &History, lasts: &Vec<String>) -> (r: Vec<String>)
    ensures
        str_views(r@) == history_table(history@, str_views(lasts@)),
{
    let entries = history.entries();
    let n = entries.len();
    let mut lines: Vec<String> = Vec::new();
    if n == 0 {
        push_line(
            &mut lines,
            copy_str("No launch history. Run a game with CLI flags to start recording."),
        );
        return lines;
    }
    let h1 = concat3(pad_to("SLUG", 25).as_str(), " ", pad_to("APP ID", 12).as_str());
    let h2 = concat3(h1.as_str(), " ", pad_to("LAUNCHES", 10).as_str());
    push_line(&mut lines, concat(h2.as_str(), " LAST LAUNCHED"));
    push_line(&mut lines, repeat_char('-', 65));
    let ghost head = str_views(lines@);
    let ghost ls = str_views(lasts@);
    let ghost rows = Seq::new(
        n as nat,
        |i: int|
            history_row(
                history@[i].0,
                history@[i].1,
                if i < ls.len() {
                    ls[i]
                } else {
                    "-"@
                },
            ),
    );
    for i in 0..n
        invariant
            n == history@.len(),
            entry_views(entries@) == history@,
            ls == str_views(lasts@),
            rows.len() == n,
            rows == Seq::new(
                n as nat,
                |i: int|
                    history_row(
                        history@[i].0,
                        history@[i].1,
                        if i < ls.len() {
                            ls[i]
                        } else {
                            "-"@
                        },
                    ),
            ),
            str_views(lines@) == head + rows.take(i as int),
    {
        let (slug, a) = &entries[i];
        assert(history@[i as int] == (slug@, *a));
        let id = match a.steam_app_id {
            Some(x) => decimal_string(x),
            None => copy_str("-"),
        };
        let count = decimal_string(a.launches.len() as u64);
        let last = if i < lasts.len() {
            lasts[i].clone()
        } else {
            copy_str("-")
        };
        let c1 = concat3(pad_to(slug.as_str(), 25).as_str(), " ", pad_to(id.as_str(), 12).as_str());
        let c2 = concat3(c1.as_str(), " ", pad_to(count.as_str(), 10).as_str());
        let row = concat3(c2.as_str(), " ", last.as_str());
        push_line(&mut lines, row);
        assert(rows.take(i + 1) =~= rows.take(i as int).push(rows[i as int]));
    }
    assert(rows.take(n as int) =~= rows);
    assert(str_views(lines@) =~= history_table(history@, str_views(lasts@)));
    lines
}

/// The lines of `glaunch history list`: the history table with each game's last launch to the
/// minute.
pub fn list_history(history: &History) -> (r: Vec<String>)
    ensures
        str_views(r@) == history_table(
            history@,
            Seq::new(history@.len(), |i: int| last_launched(history@[i].1)),
        ),
{
    let entries = history.entries();
    let n = entries.len();
    let mut lasts: Vec<String> = Vec::new();
    for i in 0..n
        invariant
            n == history@.len(),
            entry_views(entries@) == history@,
            str_views(lasts@) == Seq::new(i as nat, |k: int| last_launched(history@[k].1)),
    {
        let a = &entries[i].1;
        assert(history@[i as int].1 == *a);
        let last = if a.launches.len() == 0 {
            copy_str("-")
        } else {
            let t = a.launches[0].timestamp;
            match format_utc(t.secs, t.nanos, "%Y-%m-%d %H:%M") {
                Some(x) => x,
                None => copy_str("-"),
            }
        };
        push_line(&mut lasts, last);
        assert(str_views(lasts@) =~= Seq::new((i + 1) as nat, |k: int| last_launched(history@[k].1)));
    }
    history_table_lines(history, &lasts)
}

/// The lines about one launch in a game's history: its number (from 1) and time, its command,
/// its overrides as JSON, and an empty line.
pub open spec fn launch_block(i: nat, stamp: Seq<char>, command: Seq<Seq<char>>, json: Seq<char>) -> Seq<
    Seq<char>,
> {
    seq![
        "  Launch "@ + decimal(i + 1) + " \u{2014} "@ + stamp,
        "    Command: "@ + join(command, " "@),
        "    Overrides: "@ + json,
        Seq::<char>::empty(),
    ]
}

/// The item at `i`, or `dflt` past the end.
pub open spec fn nth_or(s: Seq<Seq<char>>, i: int, dflt: Seq<char>) -> Seq<char> {
    if 0 <= i < s.len() {
        s[i]
    } else {
        dflt
    }
}

/// The blocks of the launches, numbered from 1, with the given times and override texts
/// (`-` and `{}` where none is given).
pub open spec fn launch_blocks(
    launches: Seq<LaunchRecord>,
    stamps: Seq<Seq<char>>,
    jsons: Seq<Seq<char>>,
) -> Seq<Seq<char>>
    decreases launches.len(),
{
    if launches.len() == 0 {
        Seq::empty()
    } else {
        let i = launches.len() - 1;
        launch_blocks(launches.drop_last(), stamps, jsons) + launch_block(
            i as nat,
            nth_or(stamps, i, "-"@),
            str_views(launches.last().command@),
            nth_or(jsons, i, "{}"@),
        )
    }
}

/// A game's history: a title naming the game and its Steam app ID if known, an empty line,
/// then each launch (see `launch_blocks`).
pub open spec fn history_detail(
    slug: Seq<char>,
    a: AppHistory,
    stamps: Seq<Seq<char>>,
    jsons: Seq<Seq<char>>,
) -> Seq<Seq<char>> {
    seq![
        match a.steam_app_id {
            Some(id) => "App: "@ + slug + " (Steam ID: "@ + decimal(id as nat) + ")"@,
            None => "App: "@ + slug,
        },
        Seq::<char>::empty(),
    ] + launch_blocks(a.launches@, stamps, jsons)
}

/// A game's history with the given launch times and override texts (see `history_detail`).
pub fn history_detail_lines(
    slug: &str,
    a: &AppHistory,
    stamps: &Vec<String>,
    jsons: &Vec<String>,
) -> (r: Vec<String>)
    ensures
        str_views(r@) == history_detail(slug@, *a, str_views(stamps@), str_views(jsons@)),
{
    let mut lines: Vec<String> = Vec::new();
    let title = match a.steam_app_id {
        Some(id) => {
            let t = concat3("App: ", slug, " (Steam ID: ");
            concat3(t.as_str(), decimal_string(id).as_str(), ")")
        },
        None => concat("App: ", slug),
    };
    push_line(&mut lines, title);
    push_line(&mut lines, String::new());
    let ghost head = str_views(lines@);
    let ghost sv = str_views(stamps@);
    let ghost jv = str_views(jsons@);
    let n = a.launches.len();
    assert(a.launches@.take(0) =~= Seq::<LaunchRecord>::empty());
    for i in 0..n
        invariant
            n == a.launches@.len(),
            sv == str_views(stamps@),
            jv == str_views(jsons@),
            str_views(lines@) == head + launch_blocks(a.launches@.take(i as int), sv, jv),
    {
        let l = &a.launches[i];
        let stamp = if i < stamps.len() {
            stamps[i].clone()
        } else {
            copy_str("-")
        };
        let json = if i < jsons.len() {
            jsons[i].clone()
        } else {
            copy_str("{}")
        };
        let num = decimal_string((i + 1) as u64);
        let t = concat3("  Launch ", num.as_str(), " \u{2014} ");
        push_line(&mut lines, concat(t.as_str(), stamp.as_str()));
        let cmd = join_strings(&l.command, " ");
        push_line(&mut lines, concat("    Command: ", cmd.as_str()));
        push_line(&mut lines, concat("    Overrides: ", json.as_str()));
        push_line(&mut lines, String::new());
        assert(a.launches@.take(i + 1).drop_last() =~= a.launches@.take(i as int));
        assert(a.launches@.take(i + 1).last() == *l);
    }
    assert(a.launches@.take(n as int) =~= a.launches@);
    lines
}

/// The lines of `glaunch history show <slug>`, each launch timed to the second, with
/// `overrides_json[i]` as the JSON text of the overrides of the `i`-th launch (`{}` where none
/// is given); refused when nothing is remembered under `slug`.
pub fn show_history(history: &History, slug: &str, overrides_json: &Vec<String>) -> (r: Result<
    Vec<String>,
    HistoryError,
>)
    ensures
        match lookup(history@, slug@) {
            None => r matches Err(HistoryError::NoHistory(s)) && s@ == slug@,
            Some(a) => r matches Ok(lines) && str_views(lines@) == history_detail(
                slug@,
                a,
                Seq::new(a.launches@.len(), |i: int| stamp_text(a.launches@[i].timestamp, second_format())),
                str_views(overrides_json@),
            ),
        },
{
    let a = match history.get(slug) {
        Some(a) => a,
        None => return Err(HistoryError::NoHistory(copy_str(slug))),
    };
    let n = a.launches.len();
    let mut stamps: Vec<String> = Vec::new();
    for i in 0..n
        invariant
            n == a.launches@.len(),
            str_views(stamps@) == Seq::new(
                i as nat,
                |k: int| stamp_text(a.launches@[k].timestamp, second_format()),
            ),
    {
        let t = a.launches[i].timestamp;
        let text = match format_utc(t.secs, t.nanos, "%Y-%m-%d %H:%M:%S UTC") {
            Some(x) => x,
            None => copy_str("-"),
        };
        push_line(&mut stamps, text);
        assert(str_views(stamps@) =~= Seq::new(
            (i + 1) as nat,
            |k: int| stamp_text(a.launches@[k].timestamp, second_format()),
        ));
    }
    Ok(history_detail_lines(slug, a, &stamps, overrides_json))
}

/// The history file under the user's configuration directory `xdg`.
pub open spec fn history_path_under(xdg: Seq<char>) -> Seq<char> {
    path_join(config_dir_under(xdg), "history.json"@)
}

/// `<config dir>/history.json`; `None` where the configuration directory cannot be determined.
pub fn history_path() -> (r: Option<String>)
    ensures
        r matches Some(p) ==> exists|xdg: Seq<char>| p@ == history_path_under(xdg),
{
    match config_dir() {
        Some(d) => {
            let p = join_path(d.as_str(), "history.json");
            proof {
                let xdg = choose|x: Seq<char>| d@ == config_dir_under(x);
                assert(p@ == history_path_under(xdg));
            }
            Some(p)
        },
        None => None,
    }
}

} // verus!
