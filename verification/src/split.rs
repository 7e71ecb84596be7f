//! Splitting, filtering and joining character sequences, and the pieces of a
//! Unix path that the library reads (its last component and that component's stem).
use vstd::prelude::*;

use crate::text::push_str;

verus! {

/// The views of a sequence of character vectors.
pub open spec fn views(v: Seq<Vec<char>>) -> Seq<Seq<char>> {
    v.map_values(|x: Vec<char>| x@)
}

/// The views of a sequence of strings.
pub open spec fn str_views(v: Seq<String>) -> Seq<Seq<char>> {
    v.map_values(|x: String| x@)
}

/// Appends a line to a list of lines.
pub fn push_line(v: &mut Vec<String>, line: String)
    ensures
        str_views(final(v)@) == str_views(old(v)@).push(line@),
{
    let ghost before = v@;
    v.push(line);
    assert(str_views(v@) =~= str_views(before).push(line@));
}


/// `str::split` on one separator character: the pieces between separators, in order;
/// there is always at least one piece.
pub open spec fn split(s: Seq<char>, sep: char) -> Seq<Seq<char>>
    decreases s.len(),
{
    if s.len() == 0 {
        seq![Seq::<char>::empty()]
    } else {
        let p = split(s.drop_last(), sep);
        if s.last() == sep {
            p.push(Seq::<char>::empty())
        } else {
            p.update(p.len() - 1, p.last().push(s.last()))
        }
    }
}

/// The pieces that are not empty, in order.
pub open spec fn nonempty_parts(p: Seq<Seq<char>>) -> Seq<Seq<char>>
    decreases p.len(),
{
    if p.len() == 0 {
        Seq::empty()
    } else if p.last().len() == 0 {
        nonempty_parts(p.drop_last())
    } else {
        nonempty_parts(p.drop_last()).push(p.last())
    }
}

/// The pieces written one after another with `sep` between each two (`join`).
pub open spec fn join(p: Seq<Seq<char>>, sep: Seq<char>) -> Seq<char>
    decreases p.len(),
{
    if p.len() == 0 {
        Seq::empty()
    } else if p.len() == 1 {
        p[0]
    } else {
        join(p.drop_last(), sep) + sep + p.last()
    }
}

pub proof fn lemma_split_len(s: Seq<char>, sep: char)
    ensures
        split(s, sep).len() >= 1,
    decreases s.len(),
{
    if s.len() > 0 {
        lemma_split_len(s.drop_last(), sep);
    }
}

proof fn lemma_views_push(v: Seq<Vec<char>>, x: Vec<char>)
    ensures
        views(v.push(x)) == views(v).push(x@),
{
    assert(views(v.push(x)) =~= views(v).push(x@));
}

/// `s.split(sep)`, collected.
pub fn split_chars(s: &Vec<char>, sep: char) -> (r: Vec<Vec<char>>)
    ensures
        views(r@) == split(s@, sep),
        r@.len() >= 1,
{
    let mut parts: Vec<Vec<char>> = Vec::new();
    let mut cur: Vec<char> = Vec::new();
    let n = s.len();
    assert(s@.take(0) =~= Seq::<char>::empty());
    assert(views(parts@).push(cur@) =~= split(s@.take(0), sep));
    for i in 0..n
        invariant
            n == s@.len(),
            views(parts@).push(cur@) == split(s@.take(i as int), sep),
    {
        let ghost t = s@.take(i + 1);
        assert(t.drop_last() =~= s@.take(i as int));
        assert(t.last() == s@[i as int]);
        let c = s[i];
        if c == sep {
            let ghost before = parts@;
            let done = cur;
            parts.push(done);
            cur = Vec::new();
            proof {
                lemma_views_push(before, done);
                assert(views(parts@).push(cur@) =~= split(s@.take(i as int), sep).push(
                    Seq::<char>::empty(),
                ));
            }
        } else {
            let ghost before = cur@;
            cur.push(c);
            proof {
                let p = split(s@.take(i as int), sep);
                assert(p.last() == before);
                assert(views(parts@).push(cur@) =~= p.update(p.len() - 1, before.push(c)));
            }
        }
    }
    assert(s@.take(n as int) =~= s@);
    let ghost before = parts@;
    parts.push(cur);
    proof {
        lemma_views_push(before, cur);
    }
    parts
}

/// The pieces of `p` that are not empty.
pub fn nonempty_only(p: &Vec<Vec<char>>) -> (r: Vec<Vec<char>>)
    ensures
        views(r@) == nonempty_parts(views(p@)),
{
    let mut r: Vec<Vec<char>> = Vec::new();
    let n = p.len();
    assert(views(p@).take(0) =~= Seq::<Seq<char>>::empty());
    for i in 0..n
        invariant
            n == p@.len(),
            views(r@) == nonempty_parts(views(p@).take(i as int)),
    {
        let ghost t = views(p@).take(i + 1);
        assert(t.drop_last() =~= views(p@).take(i as int));
        assert(t.last() == p@[i as int]@);
        if p[i].len() > 0 {
            let ghost before = r@;
            let piece = p[i].clone();
            r.push(piece);
            proof {
                lemma_views_push(before, piece);
            }
        }
    }
    assert(views(p@).take(n as int) =~= views(p@));
    r
}

/// The pieces of `p` joined with `sep`.
pub fn join_chars(p: &Vec<Vec<char>>, sep: &Vec<char>) -> (r: Vec<char>)
    ensures
        r@ == join(views(p@), sep@),
{
    let mut r: Vec<char> = Vec::new();
    let n = p.len();
    assert(views(p@).take(0) =~= Seq::<Seq<char>>::empty());
    for i in 0..n
        invariant
            n == p@.len(),
            r@ == join(views(p@).take(i as int), sep@),
    {
        let ghost t = views(p@).take(i + 1);
        assert(t.drop_last() =~= views(p@).take(i as int));
        assert(t.last() == p@[i as int]@);
        if i > 0 {
            let mut s2 = sep.clone();
            r.append(&mut s2);
        }
        let mut piece = p[i].clone();
        r.append(&mut piece);
        assert(i == 0 ==> t =~= seq![p@[0]@]);
    }
    assert(views(p@).take(n as int) =~= views(p@));
    r
}

/// The strings of `p` joined with `sep` (`p.join(sep)`).
pub fn join_strings(p: &Vec<String>, sep: &str) -> (r: String)
    ensures
        r@ == join(str_views(p@), sep@),
{
    let mut r = String::new();
    let n = p.len();
    assert(str_views(p@).take(0) =~= Seq::<Seq<char>>::empty());
    for i in 0..n
        invariant
            n == p@.len(),
            r@ == join(str_views(p@).take(i as int), sep@),
    {
        let ghost t = str_views(p@).take(i + 1);
        assert(t.drop_last() =~= str_views(p@).take(i as int));
        assert(t.last() == p@[i as int]@);
        if i > 0 {
            push_str(&mut r, sep);
        }
        push_str(&mut r, p[i].as_str());
        assert(i == 0 ==> t =~= seq![p@[0]@]);
        assert(i == 0 ==> r@ =~= p@[0]@);
    }
    assert(str_views(p@).take(n as int) =~= str_views(p@));
    r
}

// ----- Path components -----

/// The last piece that is neither empty nor `.`; these are the pieces that `Path::components`
/// drops.
pub open spec fn last_component(p: Seq<Seq<char>>) -> Option<Seq<char>>
    decreases p.len(),
{
    if p.len() == 0 {
        None
    } else if p.last().len() == 0 || p.last() == seq!['.'] {
        last_component(p.drop_last())
    } else {
        Some(p.last())
    }
}

/// `Path::file_name` for a Unix path: the last component, unless that is `..` or there is none.
pub open spec fn file_name(s: Seq<char>) -> Option<Seq<char>> {
    match last_component(split(s, '/')) {
        Some(c) => if c == seq!['.', '.'] {
            None
        } else {
            Some(c)
        },
        None => None,
    }
}

/// The index of the last occurrence of `c` in `s`.
pub open spec fn rfind(s: Seq<char>, c: char) -> Option<int>
    decreases s.len(),
{
    if s.len() == 0 {
        None
    } else if s.last() == c {
        Some(s.len() - 1)
    } else {
        rfind(s.drop_last(), c)
    }
}

/// The stem of a file name: the part before its last `.`, unless that `.` is the first
/// character or there is none, in which case the whole name.
pub open spec fn stem_of(name: Seq<char>) -> Seq<char> {
    match rfind(name, '.') {
        Some(k) => if k > 0 {
            name.take(k)
        } else {
            name
        },
        None => name,
    }
}

/// `Path::file_stem` for a Unix path.
pub open spec fn file_stem(s: Seq<char>) -> Option<Seq<char>> {
    match file_name(s) {
        Some(n) => Some(stem_of(n)),
        None => None,
    }
}

pub proof fn lemma_rfind_bounds(s: Seq<char>, c: char)
    ensures
        rfind(s, c) matches Some(k) ==> 0 <= k < s.len() && s[k] == c,
    decreases s.len(),
{
    if s.len() > 0 && s.last() != c {
        lemma_rfind_bounds(s.drop_last(), c);
    }
}

/// A piece without the separator splits into itself alone.
pub proof fn lemma_split_piece(w: Seq<char>, sep: char)
    requires
        forall|j: int| 0 <= j < w.len() ==> #[trigger] w[j] != sep,
    ensures
        split(w, sep) == seq![w],
    decreases w.len(),
{
    if w.len() > 0 {
        assert forall|j: int| 0 <= j < w.drop_last().len() implies #[trigger] w.drop_last()[j]
            != sep by {
            assert(w.drop_last()[j] == w[j]);
        }
        lemma_split_piece(w.drop_last(), sep);
        assert(w.last() == w[w.len() - 1]);
        assert(w.drop_last().push(w.last()) =~= w);
        let p = split(w.drop_last(), sep);
        assert(p.update(p.len() - 1, p.last().push(w.last())) =~= seq![w]);
    } else {
        assert(w =~= Seq::<char>::empty());
    }
}

/// Splitting `a`, a separator and a piece without separators gives the pieces of `a` and that
/// piece.
pub proof fn lemma_split_then_piece(a: Seq<char>, sep: char, w: Seq<char>)
    requires
        forall|j: int| 0 <= j < w.len() ==> #[trigger] w[j] != sep,
    ensures
        split(a + seq![sep] + w, sep) == split(a, sep).push(w),
    decreases w.len(),
{
    let s = a + seq![sep] + w;
    if w.len() == 0 {
        assert(s.drop_last() =~= a);
        assert(s.last() == sep);
        assert(w =~= Seq::<char>::empty());
        assert(split(s, sep) =~= split(a, sep).push(w));
    } else {
        assert forall|j: int| 0 <= j < w.drop_last().len() implies #[trigger] w.drop_last()[j]
            != sep by {
            assert(w.drop_last()[j] == w[j]);
        }
        lemma_split_then_piece(a, sep, w.drop_last());
        assert(s.drop_last() =~= a + seq![sep] + w.drop_last());
        assert(s.last() == w[w.len() - 1]);
        let p = split(a, sep).push(w.drop_last());
        assert(split(s.drop_last(), sep) == p);
        assert(w.drop_last().push(w.last()) =~= w);
        assert(p.update(p.len() - 1, p.last().push(s.last())) =~= split(a, sep).push(w));
    }
}

/// The last `c` of `a`, `c` and a tail without `c` is the one between them.
pub proof fn lemma_rfind_before_tail(a: Seq<char>, c: char, b: Seq<char>)
    requires
        forall|j: int| 0 <= j < b.len() ==> #[trigger] b[j] != c,
    ensures
        rfind(a + seq![c] + b, c) == Some(a.len() as int),
    decreases b.len(),
{
    let s = a + seq![c] + b;
    if b.len() == 0 {
        assert(s.last() == c);
    } else {
        assert forall|j: int| 0 <= j < b.drop_last().len() implies #[trigger] b.drop_last()[j]
            != c by {
            assert(b.drop_last()[j] == b[j]);
        }
        lemma_rfind_before_tail(a, c, b.drop_last());
        assert(s.drop_last() =~= a + seq![c] + b.drop_last());
        assert(s.last() == b[b.len() - 1]);
    }
}

/// The file name of a path is its last component: for a directory part that is empty or ends
/// with `/`, followed by a name without `/` that is neither `.` nor `..`, that name.
pub proof fn lemma_file_name_is_last_component(dir: Seq<char>, name: Seq<char>)
    requires
        dir.len() == 0 || dir.last() == '/',
        name.len() > 0,
        forall|j: int| 0 <= j < name.len() ==> #[trigger] name[j] != '/',
        name != seq!['.'],
        name != seq!['.', '.'],
    ensures
        file_name(dir + name) == Some(name),
{
    if dir.len() == 0 {
        assert(dir + name =~= name);
        lemma_split_piece(name, '/');
    } else {
        let d = dir.drop_last();
        assert(dir + name =~= d + seq!['/'] + name);
        lemma_split_then_piece(d, '/', name);
    }
}

/// The file stem of a path whose file name is `name.ext`, with `name` not empty and `ext` free
/// of dots, is `name`: the file name up to its last dot. So `dir/game.x86_64` has the stem
/// `game`, and `dir/archive.tar.gz` the stem `archive.tar`.
pub proof fn lemma_file_stem_drops_extension(dir: Seq<char>, name: Seq<char>, ext: Seq<char>)
    requires
        dir.len() == 0 || dir.last() == '/',
        name.len() > 0,
        forall|j: int| 0 <= j < name.len() ==> #[trigger] name[j] != '/',
        forall|j: int| 0 <= j < ext.len() ==> #[trigger] ext[j] != '/' && ext[j] != '.',
        name != seq!['.'] || ext.len() > 0,
    ensures
        file_name(dir + name + seq!['.'] + ext) == Some(name + seq!['.'] + ext),
        file_stem(dir + name + seq!['.'] + ext) == Some(name),
{
    let f = name + seq!['.'] + ext;
    assert(dir + name + seq!['.'] + ext =~= dir + f);
    assert forall|j: int| 0 <= j < f.len() implies #[trigger] f[j] != '/' by {
        if j < name.len() {
            assert(f[j] == name[j]);
        } else if j > name.len() {
            assert(f[j] == ext[j - name.len() - 1]);
        }
    }
    assert(f != seq!['.']) by {
        assert(f.len() >= 2);
    }
    assert(f != seq!['.', '.']) by {
        if f == seq!['.', '.'] {
            assert(f.len() == 2);
            assert(ext.len() == 0);
            assert(name.len() == 1);
            assert(name[0] == f[0]);
            assert(name =~= seq!['.']);
        }
    }
    lemma_file_name_is_last_component(dir, f);
    assert forall|j: int| 0 <= j < ext.len() implies #[trigger] ext[j] != '.' by {}
    lemma_rfind_before_tail(name, '.', ext);
    assert(f.take(name.len() as int) =~= name);
}

/// Without a dot after its first character the file name is its own stem: `dir/game` has the
/// stem `game` and `dir/.hidden` the stem `.hidden`.
pub proof fn lemma_file_stem_without_extension(dir: Seq<char>, name: Seq<char>)
    requires
        dir.len() == 0 || dir.last() == '/',
        name.len() > 0,
        forall|j: int| 0 <= j < name.len() ==> #[trigger] name[j] != '/',
        forall|j: int| 1 <= j < name.len() ==> #[trigger] name[j] != '.',
        name != seq!['.'],
    ensures
        file_name(dir + name) == Some(name),
        file_stem(dir + name) == Some(name),
{
    assert(name != seq!['.', '.']) by {
        if name == seq!['.', '.'] {
            assert(name[1] == '.');
        }
    }
    lemma_file_name_is_last_component(dir, name);
    lemma_rfind_bounds(name, '.');
}

/// The file stem of the path `s`.
pub fn path_file_stem(s: &Vec<char>) -> (r: Option<Vec<char>>)
    ensures
        r matches Some(v) ==> file_stem(s@) == Some(v@),
        r is None ==> file_stem(s@) is None,
{
    let parts = split_chars(s, '/');
    let n = parts.len();
    let mut i = n;
    assert(views(parts@).take(n as int) =~= views(parts@));
    // Look for the last component from the end.
    while i > 0
        invariant
            i <= n,
            n == parts@.len(),
            views(parts@) == split(s@, '/'),
            last_component(views(parts@).take(i as int)) == last_component(views(parts@)),
        decreases i,
    {
        let ghost t = views(parts@).take(i as int);
        assert(t.drop_last() =~= views(parts@).take(i - 1));
        assert(t.last() == parts@[i - 1]@);
        let piece = &parts[i - 1];
        let is_dot = piece.len() == 1 && piece[0] == '.';
        assert(is_dot <==> piece@ == seq!['.']) by {
            if piece@ == seq!['.'] {
                assert(piece@.len() == 1 && piece@[0] == '.');
            }
            if is_dot {
                assert(piece@ =~= seq!['.']);
            }
        }
        if piece.len() == 0 || is_dot {
            i = i - 1;
        } else {
            let is_parent = piece.len() == 2 && piece[0] == '.' && piece[1] == '.';
            assert(is_parent <==> piece@ == seq!['.', '.']) by {
                if piece@ == seq!['.', '.'] {
                    assert(piece@.len() == 2 && piece@[0] == '.' && piece@[1] == '.');
                }
                if is_parent {
                    assert(piece@ =~= seq!['.', '.']);
                }
            }
            if is_parent {
                return None;
            }
            // The stem: up to the last '.', unless that is at index 0 or absent.
            let m = piece.len();
            let mut k = m;
            assert(piece@.take(m as int) =~= piece@);
            while k > 0 && piece[k - 1] != '.'
                invariant
                    k <= m,
                    m == piece@.len(),
                    rfind(piece@.take(k as int), '.') == rfind(piece@, '.'),
                decreases k,
            {
                let ghost u = piece@.take(k as int);
                assert(u.drop_last() =~= piece@.take(k - 1));
                k = k - 1;
            }
            proof {
                assert(last_component(views(parts@)) == Some(piece@));
                assert(file_name(s@) == Some(piece@));
                if k > 0 {
                    assert(piece@.take(k as int).last() == '.');
                    assert(rfind(piece@, '.') == Some(k - 1));
                } else {
                    assert(piece@.take(0) =~= Seq::<char>::empty());
                    assert(rfind(piece@, '.') is None);
                }
            }
            if k > 1 {
                let mut stem: Vec<char> = Vec::new();
                let mut j: usize = 0;
                while j < k - 1
                    invariant
                        j <= k - 1,
                        k <= m,
                        m == piece@.len(),
                        stem@ == piece@.take(j as int),
                    decreases k - 1 - j,
                {
                    stem.push(piece[j]);
                    assert(piece@.take(j + 1) =~= piece@.take(j as int).push(piece@[j as int]));
                    j = j + 1;
                }
                return Some(stem);
            } else {
                return Some(piece.clone());
            }
        }
    }
    assert(views(parts@).take(0) =~= Seq::<Seq<char>>::empty());
    None
}

// ----- Searching -----

/// `pat` occurs in `hay` at index `i`.
pub open spec fn occurs_at(hay: Seq<char>, pat: Seq<char>, i: int) -> bool {
    0 <= i && i + pat.len() <= hay.len() && hay.subrange(i, i + pat.len()) == pat
}

/// `hay` contains `pat` (`str::contains`).
pub open spec fn contains_seq(hay: Seq<char>, pat: Seq<char>) -> bool {
    exists|i: int| occurs_at(hay, pat, i)
}

/// The first index at which `pat` occurs in `hay`.
pub open spec fn first_occurrence(hay: Seq<char>, pat: Seq<char>) -> Option<int> {
    if contains_seq(hay, pat) {
        Some(
            choose|i: int|
                occurs_at(hay, pat, i) && forall|j: int| 0 <= j < i ==> !occurs_at(hay, pat, j),
        )
    } else {
        None
    }
}

/// The first index at which `pat` occurs in `hay`, if any.
pub fn find_chars(hay: &Vec<char>, pat: &Vec<char>) -> (r: Option<usize>)
    ensures
        r matches Some(i) ==> occurs_at(hay@, pat@, i as int) && forall|j: int|
            0 <= j < i ==> !occurs_at(hay@, pat@, j),
        r is None ==> !contains_seq(hay@, pat@),
{
    let n = hay.len();
    let m = pat.len();
    if m > n {
        assert(!contains_seq(hay@, pat@));
        return None;
    }
    if m == 0 {
        assert(occurs_at(hay@, pat@, 0)) by {
            assert(hay@.subrange(0, 0) =~= pat@);
        }
        return Some(0);
    }
    let mut i: usize = 0;
    while i <= n - m
        invariant
            n == hay@.len(),
            m == pat@.len(),
            m <= n,
            i <= n - m + 1,
            forall|j: int| 0 <= j < i ==> !occurs_at(hay@, pat@, j),
        decreases n - m + 1 - i,
    {
        let mut k: usize = 0;
        let mut same = true;
        assert(hay@.subrange(i as int, i as int) =~= pat@.take(0));
        while k < m
            invariant
                n == hay@.len(),
                m == pat@.len(),
                i + m <= n,
                k <= m,
                same == (hay@.subrange(i as int, i + k) == pat@.take(k as int)),
            decreases m - k,
        {
            assert(hay@.subrange(i as int, i + k + 1) =~= hay@.subrange(i as int, i + k).push(
                hay@[i + k],
            ));
            assert(pat@.take(k + 1) =~= pat@.take(k as int).push(pat@[k as int]));
            if hay[i + k] != pat[k] {
                same = false;
                assert(hay@.subrange(i as int, i + k + 1)[k as int] != pat@.take(k + 1)[k as int]);
            } else {
                proof {
                  if !same {
                    assert(hay@.subrange(i as int, i + k + 1).take(k as int) =~= hay@.subrange(
                        i as int,
                        i + k,
                    ));
                    assert(pat@.take(k + 1).take(k as int) =~= pat@.take(k as int));
                  }
                }
            }
            k = k + 1;
        }
        assert(pat@.take(m as int) =~= pat@);
        if same {
            let ghost w = i as int;
            assert(occurs_at(hay@, pat@, w));
            assert(forall|j: int| 0 <= j < w ==> !occurs_at(hay@, pat@, j));
            proof {
                let c = choose|c: int|
                    occurs_at(hay@, pat@, c) && forall|j: int|
                        0 <= j < c ==> !occurs_at(hay@, pat@, j);
                assert(occurs_at(hay@, pat@, c) && forall|j: int|
                    0 <= j < c ==> !occurs_at(hay@, pat@, j));
                if c < w {
                } else if c > w {
                }
                assert(c == w);
            }
            return Some(i);
        }
        i = i + 1;
    }
    assert forall|j: int| !occurs_at(hay@, pat@, j) by {
        if 0 <= j && j < i {
        }
    }
    None
}

} // verus!
