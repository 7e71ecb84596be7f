//! What the `glaunch profile` commands decide: the table of profiles, which files in the
//! profiles directory are profiles, their order, and whether an answer confirms a deletion.
use vstd::prelude::*;

use crate::config::{listed_name, Profile};
use crate::order::{chars_lt, lemma_lt_irreflexive, lemma_lt_total, lemma_lt_transitive, seq_lt};
use crate::split::{join, join_strings, lemma_rfind_before_tail, push_line, rfind, str_views};
use crate::text::{
    ascii_lower, char_vec, copy_str, decimal, decimal_string, pad_right, pad_to, repeat_char, repeated,
    string_of, to_ascii_lower,
};
use crate::unicode::{trim, trim_chars};

verus! {

// ----- The table of `glaunch profile list` -----

/// The widths of the table's columns.
pub open spec fn column_widths() -> Seq<nat> {
    seq![20, 12, 5, 5, 7, 8, 9]
}

/// A row of the table: each cell padded to its column's width, cells separated by a space.
pub open spec fn table_row(cells: Seq<Seq<char>>) -> Seq<char> {
    join(Seq::new(cells.len(), |i: int| pad_right(cells[i], column_widths()[i])), " "@)
}

/// A flag as the table shows it: `yes`, `no`, or `-` when unset.
pub open spec fn yes_no(o: Option<bool>) -> Seq<char> {
    match o {
        Some(true) => "yes"@,
        Some(false) => "no"@,
        None => "-"@,
    }
}

/// The cells of a profile's row: listed name, Steam app ID (or `-`), HDR, VRR, V-Cache,
/// MangoHud, vkBasalt.
pub open spec fn profile_cells(slug: Seq<char>, p: Profile) -> Seq<Seq<char>> {
    let s = p.settings;
    seq![
        listed_name(slug, p),
        match p.steam_app_id {
            Some(id) => decimal(id as nat),
            None => "-"@,
        },
        yes_no(
            match s {
                Some(x) => x.hdr,
                None => None,
            },
        ),
        yes_no(
            match s {
                Some(x) => x.vrr,
                None => None,
            },
        ),
        yes_no(
            match s {
                Some(x) => x.vcache,
                None => None,
            },
        ),
        yes_no(
            match p.mangohud {
                Some(m) => m.enabled,
                None => None,
            },
        ),
        yes_no(
            match p.vkbasalt {
                Some(v) => v.enabled,
                None => None,
            },
        ),
    ]
}

pub open spec fn header_cells() -> Seq<Seq<char>> {
    seq!["NAME"@, "APP ID"@, "HDR"@, "VRR"@, "VCACHE"@, "MANGOHUD"@, "VKBASALT"@]
}

/// The lines of `glaunch profile list`: a hint when there is no profile; else a header, a rule
/// of 70 dashes, and one row per profile in the order given.
pub open spec fn table_lines(profiles: Seq<(String, Profile)>) -> Seq<Seq<char>> {
    if profiles.len() == 0 {
        seq!["No profiles found. Create one with: glaunch profile create <name>"@]
    } else {
        seq![table_row(header_cells()), repeated('-', 70)] + profiles.map_values(
            |e: (String, Profile)| table_row(profile_cells(e.0@, e.1)),
        )
    }
}

/// A row of the table from its seven cells.
fn row_of(cells: &Vec<String>) -> (r: String)
    requires
        cells@.len() == 7,
    ensures
        r@ == table_row(str_views(cells@)),
{
    let widths: Vec<usize> = vec![20, 12, 5, 5, 7, 8, 9];
    let mut padded: Vec<String> = Vec::new();
    for i in 0..7usize
        invariant
            cells@.len() == 7,
            widths@ == seq![20usize, 12, 5, 5, 7, 8, 9],
            str_views(padded@) == Seq::new(
                i as nat,
                |k: int| pad_right(str_views(cells@)[k], column_widths()[k]),
            ),
    {
        let p = pad_to(cells[i].as_str(), widths[i]);
        push_line(&mut padded, p);
        assert(str_views(padded@) =~= Seq::new(
            (i + 1) as nat,
            |k: int| pad_right(str_views(cells@)[k], column_widths()[k]),
        ));
    }
    join_strings(&padded, " ")
}

fn yes_no_text(o: Option<bool>) -> (r: String)
    ensures
        r@ == yes_no(o),
{
    match o {
        Some(true) => copy_str("yes"),
        Some(false) => copy_str("no"),
        None => copy_str("-"),
    }
}

/// The cells of a profile's row in the profile table (see `profile_cells`).
pub fn row_cells(slug: &String, p: &Profile) -> (r: Vec<String>)
    ensures
        r@.len() == 7,
        str_views(r@) == profile_cells(slug@, *p),
{
    let mut r: Vec<String> = Vec::new();
    push_line(
        &mut r,
        match &p.name {
            Some(n) => n.clone(),
            None => slug.clone(),
        },
    );
    push_line(
        &mut r,
        match p.steam_app_id {
            Some(id) => decimal_string(id),
            None => copy_str("-"),
        },
    );
    let (hdr, vrr, vcache) = match &p.settings {
        Some(s) => (s.hdr, s.vrr, s.vcache),
        None => (None, None, None),
    };
    push_line(&mut r, yes_no_text(hdr));
    push_line(&mut r, yes_no_text(vrr));
    push_line(&mut r, yes_no_text(vcache));
    push_line(
        &mut r,
        yes_no_text(
            match &p.mangohud {
                Some(m) => m.enabled,
                None => None,
            },
        ),
    );
    push_line(
        &mut r,
        yes_no_text(
            match &p.vkbasalt {
                Some(v) => v.enabled,
                None => None,
            },
        ),
    );
    assert(str_views(r@) =~= profile_cells(slug@, *p));
    r
}

/// The lines that `glaunch profile list` prints for these profiles (see `table_lines`).
pub fn list(profiles: &Vec<(String, Profile)>) -> (r: Vec<String>)
    ensures
        str_views(r@) == table_lines(profiles@),
{
    let mut lines: Vec<String> = Vec::new();
    let n = profiles.len();
    if n == 0 {
        push_line(
            &mut lines,
            copy_str("No profiles found. Create one with: glaunch profile create <name>"),
        );
        return lines;
    }
    let mut header: Vec<String> = Vec::new();
    push_line(&mut header, copy_str("NAME"));
    push_line(&mut header, copy_str("APP ID"));
    push_line(&mut header, copy_str("HDR"));
    push_line(&mut header, copy_str("VRR"));
    push_line(&mut header, copy_str("VCACHE"));
    push_line(&mut header, copy_str("MANGOHUD"));
    push_line(&mut header, copy_str("VKBASALT"));
    assert(str_views(header@) =~= header_cells());
    push_line(&mut lines, row_of(&header));
    push_line(&mut lines, repeat_char('-', 70));
    let ghost head = str_views(lines@);
    let ghost f = |e: (String, Profile)| table_row(profile_cells(e.0@, e.1));
    for i in 0..n
        invariant
            n == profiles@.len(),
            str_views(lines@) == head + profiles@.take(i as int).map_values(f),
            f == (|e: (String, Profile)| table_row(profile_cells(e.0@, e.1))),
    {
        let (slug, p) = &profiles[i];
        let cells = row_cells(slug, p);
        push_line(&mut lines, row_of(&cells));
        assert(profiles@.take(i + 1).map_values(f) =~= profiles@.take(i as int).map_values(f).push(
            f(profiles@[i as int]),
        ));
    }
    assert(profiles@.take(n as int) =~= profiles@);
    assert(str_views(lines@) =~= table_lines(profiles@));
    lines
}

// ----- Deleting -----

/// Whether the answer to `Delete profile ...? [y/N]` confirms: trimmed, it is `y` or `Y`.
pub open spec fn confirms(input: Seq<char>) -> bool {
    let t = trim(input);
    t.len() == 1 && ascii_lower(t[0]) == 'y'
}

/// Whether the answer confirms the deletion (see `confirms`).
pub fn confirms_deletion(input: &str) -> (r: bool)
    ensures
        r == confirms(input@),
{
    let t = trim_chars(&char_vec(input));
    t.len() == 1 && to_ascii_lower(t[0]) == 'y'
}

// ----- The profiles directory -----

/// The slug of a profile file, for the name of an entry of the profiles directory: the file
/// stem, where the extension (what follows the last `.` that is not the first character) is
/// `toml`; else the entry is no profile.
pub open spec fn profile_file_slug(name: Seq<char>) -> Option<Seq<char>> {
    match rfind(name, '.') {
        Some(k) => if k > 0 && name.skip(k + 1) == "toml"@ {
            Some(name.take(k))
        } else {
            None
        },
        None => None,
    }
}

/// A profile file is named by its slug and `.toml`: `<slug>.toml` holds the profile `<slug>`
/// for every slug that is not empty (dots in it included), and a name whose last extension is
/// another one holds no profile.
pub proof fn lemma_profile_file_names(slug: Seq<char>, ext: Seq<char>)
    requires
        slug.len() > 0,
        forall|j: int| 0 <= j < ext.len() ==> #[trigger] ext[j] != '.',
    ensures
        profile_file_slug(slug + ".toml"@) == Some(slug),
        ext != "toml"@ ==> profile_file_slug(slug + seq!['.'] + ext) is None,
{
    reveal_strlit(".toml");
    reveal_strlit("toml");
    let t = "toml"@;
    assert(".toml"@ =~= seq!['.'] + t);
    assert(slug + ".toml"@ =~= slug + seq!['.'] + t);
    assert forall|j: int| 0 <= j < t.len() implies #[trigger] t[j] != '.' by {}
    lemma_rfind_before_tail(slug, '.', t);
    lemma_rfind_before_tail(slug, '.', ext);
    assert((slug + seq!['.'] + t).skip(slug.len() as int + 1) =~= t);
    assert((slug + seq!['.'] + t).take(slug.len() as int) =~= slug);
    assert((slug + seq!['.'] + ext).skip(slug.len() as int + 1) =~= ext);
}

/// The slug of the profile in the directory entry `file_name`, if it is one (see
/// `profile_file_slug`).
pub fn profile_slug(file_name: &str) -> (r: Option<String>)
    ensures
        match profile_file_slug(file_name@) {
            Some(slug) => r matches Some(s) && s@ == slug,
            None => r is None,
        },
{
    let cs = char_vec(file_name);
    let m = cs.len();
    let mut k = m;
    assert(cs@.take(m as int) =~= cs@);
    while k > 0 && cs[k - 1] != '.'
        invariant
            k <= m,
            m == cs@.len(),
            cs@ == file_name@,
            rfind(cs@.take(k as int), '.') == rfind(cs@, '.'),
        decreases k,
    {
        assert(cs@.take(k as int).drop_last() =~= cs@.take(k - 1));
        k = k - 1;
    }
    proof {
        if k > 0 {
            assert(cs@.take(k as int).last() == '.');
        } else {
            assert(cs@.take(0) =~= Seq::<char>::empty());
        }
    }
    if k <= 1 {
        return None;
    }
    let dot = k - 1;
    let ext: Vec<char> = vec!['t', 'o', 'm', 'l'];
    proof {
        reveal_strlit("toml");
        assert(ext@ =~= "toml"@);
    }
    if m - k != 4 {
        assert(cs@.skip(k as int).len() != "toml"@.len());
        return None;
    }
    let mut same = true;
    let mut j: usize = 0;
    assert(cs@.skip(k as int).take(0) =~= ext@.take(0));
    while j < 4
        invariant
            j <= 4,
            k + 4 == m,
            m == cs@.len(),
            ext@ == "toml"@,
            ext@.len() == 4,
            same == (cs@.skip(k as int).take(j as int) == ext@.take(j as int)),
        decreases 4 - j,
    {
        proof {
            assert(cs@.skip(k as int).take(j + 1) =~= cs@.skip(k as int).take(j as int).push(
                cs@[k + j],
            ));
            assert(ext@.take(j + 1) =~= ext@.take(j as int).push(ext@[j as int]));
            if !same {
                assert(cs@.skip(k as int).take(j + 1).take(j as int) =~= cs@.skip(k as int).take(
                    j as int,
                ));
                assert(ext@.take(j + 1).take(j as int) =~= ext@.take(j as int));
            }
        }
        if cs[k + j] != ext[j] {
            same = false;
            assert(cs@.skip(k as int).take(j + 1)[j as int] != ext@.take(j + 1)[j as int]);
        }
        j = j + 1;
    }
    assert(cs@.skip(k as int).take(4) =~= cs@.skip(k as int));
    assert(ext@.take(4) =~= ext@);
    if !same {
        return None;
    }
    let mut stem: Vec<char> = Vec::new();
    let mut i: usize = 0;
    while i < dot
        invariant
            i <= dot,
            dot < m,
            m == cs@.len(),
            stem@ == cs@.take(i as int),
        decreases dot - i,
    {
        stem.push(cs[i]);
        assert(cs@.take(i + 1) =~= cs@.take(i as int).push(cs@[i as int]));
        i = i + 1;
    }
    Some(string_of(&stem))
}

/// `a` does not come after `b`.
pub open spec fn seq_le(a: Seq<char>, b: Seq<char>) -> bool {
    !seq_lt(b, a)
}

proof fn lemma_le_transitive(a: Seq<char>, b: Seq<char>, c: Seq<char>)
    requires
        seq_le(a, b),
        seq_le(b, c),
    ensures
        seq_le(a, c),
{
    if seq_lt(c, a) {
        lemma_lt_total(a, b);
        if seq_lt(a, b) {
            lemma_lt_transitive(c, a, b);
        }
    }
}

proof fn lemma_lt_asymmetric(a: Seq<char>, b: Seq<char>)
    requires
        seq_lt(a, b),
    ensures
        !seq_lt(b, a),
{
    if seq_lt(b, a) {
        lemma_lt_transitive(a, b, a);
        lemma_lt_irreflexive(a);
    }
}

/// Profiles in ascending order of their slugs.
pub open spec fn sorted_by_slug(v: Seq<(String, Profile)>) -> bool {
    forall|i: int, j: int| 0 <= i < j < v.len() ==> seq_le(#[trigger] v[i].0@, #[trigger] v[j].0@)
}

/// The profiles ordered by slug (the order in which they are listed); the same profiles,
/// rearranged.
pub fn sort_by_slug(profiles: Vec<(String, Profile)>) -> (r: Vec<(String, Profile)>)
    ensures
        r@.to_multiset() == profiles@.to_multiset(),
        sorted_by_slug(r@),
{
    let mut rest = profiles;
    let mut r: Vec<(String, Profile)> = Vec::new();
    assert(r@.to_multiset() =~= vstd::multiset::Multiset::empty()) by {
        broadcast use vstd::seq_lib::group_to_multiset_ensures;
    }
    while rest.len() > 0
        invariant
            r@.to_multiset().add(rest@.to_multiset()) == profiles@.to_multiset(),
            sorted_by_slug(r@),
        decreases rest@.len(),
    {
        let ghost before = rest@;
        let item = rest.pop().unwrap();
        proof {
            assert(before =~= rest@.push(item));
            vstd::seq_lib::to_multiset_build(rest@, item);
        }
        let key = char_vec(item.0.as_str());
        let n = r.len();
        let mut pos: usize = 0;
        while pos < n && chars_lt(&char_vec(r[pos].0.as_str()), &key)
            invariant
                pos <= n,
                n == r@.len(),
                key@ == item.0@,
                forall|k: int| 0 <= k < pos ==> seq_lt(#[trigger] r@[k].0@, item.0@),
            decreases n - pos,
        {
            pos = pos + 1;
        }
        let ghost old_r = r@;
        r.insert(pos, item);
        proof {
            vstd::seq_lib::to_multiset_insert(old_r, pos as int, item);
            assert(r@.to_multiset() =~= old_r.to_multiset().insert(item));
            assert forall|i: int, j: int| 0 <= i < j < r@.len() implies seq_le(
                #[trigger] r@[i].0@,
                #[trigger] r@[j].0@,
            ) by {
                let p = pos as int;
                if i < p && j < p {
                    assert(r@[i] == old_r[i] && r@[j] == old_r[j]);
                } else if i < p && j == p {
                    assert(r@[i] == old_r[i]);
                    lemma_lt_asymmetric(old_r[i].0@, item.0@);
                } else if i < p && j > p {
                    assert(r@[i] == old_r[i] && r@[j] == old_r[j - 1]);
                    lemma_lt_asymmetric(old_r[i].0@, item.0@);
                    assert(!seq_lt(old_r[p].0@, item.0@));
                    if p < j - 1 {
                        assert(seq_le(old_r[p].0@, old_r[j - 1].0@));
                        lemma_le_transitive(old_r[i].0@, item.0@, old_r[p].0@);
                        lemma_le_transitive(old_r[i].0@, old_r[p].0@, old_r[j - 1].0@);
                    } else {
                        lemma_le_transitive(old_r[i].0@, item.0@, old_r[p].0@);
                    }
                } else if i == p {
                    assert(r@[j] == old_r[j - 1]);
                    assert(!seq_lt(old_r[p].0@, item.0@));
                    if p < j - 1 {
                        assert(seq_le(old_r[p].0@, old_r[j - 1].0@));
                        lemma_le_transitive(item.0@, old_r[p].0@, old_r[j - 1].0@);
                    }
                } else {
                    assert(r@[i] == old_r[i - 1] && r@[j] == old_r[j - 1]);
                }
            }
        }
    }
    assert(rest@.to_multiset() =~= vstd::multiset::Multiset::empty()) by {
        broadcast use vstd::seq_lib::group_to_multiset_ensures;
    }
    assert(r@.to_multiset().add(vstd::multiset::Multiset::empty()) =~= r@.to_multiset());
    r
}

} // verus!
