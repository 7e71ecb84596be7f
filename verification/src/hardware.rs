//! Hardware facts: which CCD has the larger L3 cache (AMD X3D V-Cache), the GPUs, and when a
//! cached detection is still good. Reading sysfs is left to the caller; this module decides
//! from what was read.
use vstd::prelude::*;

use crate::config::{config_dir, config_dir_under, join_path, path_join, value_or};
use crate::order::chars_eq;
use crate::split::{contains_seq, find_chars};
use crate::split::{push_line, str_views};
use crate::text::{
    char_vec, concat, concat3, copy_str, decimal, decimal_string, parse_u64, parse_unsigned,
    string_of,
};
use crate::unicode::{lemma_trim_no_white_ends, strip_end, strip_end_chars, trim, trim_chars, white_space};

verus! {

/// Cached hardware facts older than this many seconds (30 days) are detected again.
pub const CACHE_MAX_AGE_SECS: u64 = 2592000;

/// The CCD with the larger L3 cache: its CPU list and cache size in KiB.
#[derive(Debug, Clone, PartialEq, Eq)]
pub struct VcacheInfo {
    pub cpus: String,
    pub l3_size_kb: u64,
}

#[derive(Debug, Clone, PartialEq, Eq)]
pub struct GpuInfo {
    pub name: String,
    pub driver: String,
}

#[derive(Debug, Clone, PartialEq, Eq)]
pub struct HardwareInfo {
    pub vcache: Option<VcacheInfo>,
    pub gpus: Vec<GpuInfo>,
}

impl Default for HardwareInfo {
    fn default() -> (r: Self)
        ensures
            r.vcache is None,
            r.gpus@.len() == 0,
    {
        HardwareInfo { vcache: None, gpus: Vec::new() }
    }
}

// ----- L3 cache topology -----

/// The size in KiB that a sysfs `size` file holds (such as `32768K`): trimmed, trailing `K`s
/// dropped, read as a decimal number; 0 where it does not read as one.
pub open spec fn cache_size_kb(raw: Seq<char>) -> u64 {
    match parse_unsigned(strip_end(trim(raw), 'K'), u64::MAX as int) {
        Some(v) => v as u64,
        None => 0,
    }
}

/// One L3 cache per distinct CPU list, in the order first seen, with the size given where it was
/// first seen; `entries` holds the raw `(size, shared_cpu_list)` file contents of each CPU.
pub open spec fn distinct_caches(entries: Seq<(Seq<char>, Seq<char>)>) -> Seq<(Seq<char>, u64)>
    decreases entries.len(),
{
    if entries.len() == 0 {
        Seq::empty()
    } else {
        let d = distinct_caches(entries.drop_last());
        let cpus = trim(entries.last().1);
        if exists|i: int| 0 <= i < d.len() && #[trigger] d[i].0 == cpus {
            d
        } else {
            d.push((cpus, cache_size_kb(entries.last().0)))
        }
    }
}

pub open spec fn max_size(d: Seq<(Seq<char>, u64)>) -> u64
    decreases d.len(),
{
    if d.len() == 0 {
        0
    } else if d.len() == 1 {
        d[0].1
    } else {
        let m = max_size(d.drop_last());
        if d.last().1 > m {
            d.last().1
        } else {
            m
        }
    }
}

pub open spec fn min_size(d: Seq<(Seq<char>, u64)>) -> u64
    decreases d.len(),
{
    if d.len() == 0 {
        0
    } else if d.len() == 1 {
        d[0].1
    } else {
        let m = min_size(d.drop_last());
        if d.last().1 < m {
            d.last().1
        } else {
            m
        }
    }
}

/// The index of the first cache of the given size.
pub open spec fn first_of_size(d: Seq<(Seq<char>, u64)>, size: u64) -> int
    decreases d.len(),
{
    if d.len() == 0 {
        0
    } else {
        let k = first_of_size(d.drop_last(), size);
        if k < d.len() - 1 {
            k
        } else if d.last().1 == size {
            d.len() - 1
        } else {
            d.len() as int
        }
    }
}

/// The V-Cache CCD: none where there are fewer than two distinct L3 caches or all have the same
/// size; else the (first) cache of the largest size.
pub open spec fn vcache_of(entries: Seq<(Seq<char>, Seq<char>)>) -> Option<(Seq<char>, u64)> {
    let d = distinct_caches(entries);
    if d.len() < 2 || max_size(d) == min_size(d) {
        None
    } else {
        Some(d[first_of_size(d, max_size(d))])
    }
}

pub open spec fn raw_views(v: Seq<(String, String)>) -> Seq<(Seq<char>, Seq<char>)> {
    v.map_values(|e: (String, String)| (e.0@, e.1@))
}

/// Reads the contents of a sysfs `size` file as KiB.
pub fn parse_cache_size_kb(raw: &str) -> (r: u64)
    ensures
        r == cache_size_kb(raw@),
{
    let cs = char_vec(raw);
    let t = trim_chars(&cs);
    let s = strip_end_chars(&t, 'K');
    let st = string_of(&s);
    match parse_u64(st.as_str()) {
        Some(v) => v,
        None => 0,
    }
}

proof fn lemma_first_of_size(d: Seq<(Seq<char>, u64)>, size: u64)
    ensures
        0 <= first_of_size(d, size) <= d.len(),
        first_of_size(d, size) < d.len() ==> d[first_of_size(d, size)].1 == size,
        forall|j: int| 0 <= j < first_of_size(d, size) ==> #[trigger] d[j].1 != size,
    decreases d.len(),
{
    if d.len() > 0 {
        lemma_first_of_size(d.drop_last(), size);
        assert forall|j: int| 0 <= j < d.len() - 1 implies #[trigger] d[j] == d.drop_last()[j] by {}
    }
}

proof fn lemma_max_attained(d: Seq<(Seq<char>, u64)>)
    requires
        d.len() > 0,
    ensures
        exists|j: int| 0 <= j < d.len() && #[trigger] d[j].1 == max_size(d),
        forall|j: int| 0 <= j < d.len() ==> #[trigger] d[j].1 <= max_size(d),
    decreases d.len(),
{
    if d.len() > 1 {
        lemma_max_attained(d.drop_last());
        let j0 = choose|j: int| 0 <= j < d.drop_last().len() && #[trigger] d.drop_last()[j].1
            == max_size(d.drop_last());
        assert(d[j0] == d.drop_last()[j0]);
        assert forall|j: int| 0 <= j < d.len() implies #[trigger] d[j].1 <= max_size(d) by {
            if j < d.len() - 1 {
                assert(d[j] == d.drop_last()[j]);
            }
        }
    } else {
        assert(d[0].1 == max_size(d));
    }
}

/// The CPU at index `j` is the first one read with its (trimmed) CPU list.
pub open spec fn first_with_its_cpus(entries: Seq<(Seq<char>, Seq<char>)>, j: int) -> bool {
    forall|i: int| 0 <= i < j ==> trim(#[trigger] entries[i].1) != trim(entries[j].1)
}

/// Each cache of `d` stands for a CPU read first with its CPU list: that CPU's trimmed
/// `shared_cpu_list` and its cache size.
#[verifier::opaque]
spec fn caches_of_first_cpus(entries: Seq<(Seq<char>, Seq<char>)>, d: Seq<(Seq<char>, u64)>) -> bool {
    forall|k: int|
        0 <= k < d.len() ==> exists|j: int|
            0 <= j < entries.len() && first_with_its_cpus(entries, j) && #[trigger] d[k] == (
                trim(entries[j].1),
                cache_size_kb(entries[j].0),
            )
}

/// Each CPU's list is among the caches of `d`, with that CPU's size where it is the first read
/// with that list.
#[verifier::opaque]
spec fn every_cpus_cached(entries: Seq<(Seq<char>, Seq<char>)>, d: Seq<(Seq<char>, u64)>) -> bool {
    forall|j: int|
        0 <= j < entries.len() ==> exists|k: int|
            0 <= k < d.len() && d[k].0 == trim(#[trigger] entries[j].1) && (first_with_its_cpus(
                entries,
                j,
            ) ==> d[k].1 == cache_size_kb(entries[j].0))
}

proof fn lemma_first_with_prefix(entries: Seq<(Seq<char>, Seq<char>)>, j: int)
    requires
        0 <= j < entries.len() - 1,
    ensures
        entries.drop_last()[j] == entries[j],
        first_with_its_cpus(entries.drop_last(), j) <==> first_with_its_cpus(entries, j),
{
    let e = entries.drop_last();
    if first_with_its_cpus(e, j) {
        assert forall|i: int| 0 <= i < j implies trim(#[trigger] entries[i].1) != trim(
            entries[j].1,
        ) by {
            assert(e[i] == entries[i]);
        }
    }
    if first_with_its_cpus(entries, j) {
        assert forall|i: int| 0 <= i < j implies trim(#[trigger] e[i].1) != trim(e[j].1) by {
            assert(e[i] == entries[i]);
        }
    }
}

/// The last CPU's list was seen before: the caches stay as they were.
proof fn lemma_caches_step_seen(entries: Seq<(Seq<char>, Seq<char>)>, i0: int)
    requires
        entries.len() > 0,
        caches_of_first_cpus(entries.drop_last(), distinct_caches(entries.drop_last())),
        every_cpus_cached(entries.drop_last(), distinct_caches(entries.drop_last())),
        0 <= i0 < distinct_caches(entries.drop_last()).len(),
        distinct_caches(entries.drop_last())[i0].0 == trim(entries.last().1),
    ensures
        caches_of_first_cpus(entries, distinct_caches(entries)),
        every_cpus_cached(entries, distinct_caches(entries)),
{
    let e = entries.drop_last();
    let d = distinct_caches(e);
    let dd = distinct_caches(entries);
    let last = entries.len() - 1;
    assert(entries.last() == entries[last]);
    assert(dd == d);
    assert(!first_with_its_cpus(entries, last)) by {
        reveal(caches_of_first_cpus);
        let j0 = choose|j: int|
            0 <= j < e.len() && first_with_its_cpus(e, j) && #[trigger] d[i0] == (
                trim(e[j].1),
                cache_size_kb(e[j].0),
            );
        assert(e[j0] == entries[j0]);
        assert(trim(entries[j0].1) == trim(entries[last].1));
    }
    assert(caches_of_first_cpus(entries, dd)) by {
        reveal(caches_of_first_cpus);
        assert forall|k: int| 0 <= k < dd.len() implies exists|j: int|
            0 <= j < entries.len() && first_with_its_cpus(entries, j) && #[trigger] dd[k] == (
                trim(entries[j].1),
                cache_size_kb(entries[j].0),
            ) by {
            let j = choose|j: int|
                0 <= j < e.len() && first_with_its_cpus(e, j) && #[trigger] d[k] == (
                    trim(e[j].1),
                    cache_size_kb(e[j].0),
                );
            lemma_first_with_prefix(entries, j);
        }
    }
    assert(every_cpus_cached(entries, dd)) by {
        reveal(every_cpus_cached);
        assert forall|j: int| 0 <= j < entries.len() implies exists|k: int|
            0 <= k < dd.len() && dd[k].0 == trim(#[trigger] entries[j].1) && (first_with_its_cpus(
                entries,
                j,
            ) ==> dd[k].1 == cache_size_kb(entries[j].0)) by {
            if j < last {
                lemma_first_with_prefix(entries, j);
                let k = choose|k: int|
                    0 <= k < d.len() && d[k].0 == trim(#[trigger] e[j].1) && (first_with_its_cpus(
                        e,
                        j,
                    ) ==> d[k].1 == cache_size_kb(e[j].0));
            } else {
                assert(dd[i0].0 == trim(entries[j].1));
            }
        }
    }
}

/// The last CPU's list is new: its cache joins the end.
proof fn lemma_caches_step_new(entries: Seq<(Seq<char>, Seq<char>)>)
    requires
        entries.len() > 0,
        caches_of_first_cpus(entries.drop_last(), distinct_caches(entries.drop_last())),
        every_cpus_cached(entries.drop_last(), distinct_caches(entries.drop_last())),
        !exists|i: int|
            0 <= i < distinct_caches(entries.drop_last()).len() && #[trigger] distinct_caches(
                entries.drop_last(),
            )[i].0 == trim(entries.last().1),
    ensures
        caches_of_first_cpus(entries, distinct_caches(entries)),
        every_cpus_cached(entries, distinct_caches(entries)),
{
    let e = entries.drop_last();
    let d = distinct_caches(e);
    let dd = distinct_caches(entries);
    let last = entries.len() - 1;
    let cpus = trim(entries[last].1);
    assert(entries.last() == entries[last]);
    assert(dd == d.push((cpus, cache_size_kb(entries[last].0))));
    assert(first_with_its_cpus(entries, last)) by {
        reveal(every_cpus_cached);
        assert forall|i: int| 0 <= i < last implies trim(#[trigger] entries[i].1) != trim(
            entries[last].1,
        ) by {
            assert(e[i] == entries[i]);
            let k = choose|k: int|
                0 <= k < d.len() && d[k].0 == trim(#[trigger] e[i].1) && (first_with_its_cpus(
                    e,
                    i,
                ) ==> d[k].1 == cache_size_kb(e[i].0));
            if trim(entries[i].1) == cpus {
                assert(d[k].0 == cpus);
            }
        }
    }
    assert(caches_of_first_cpus(entries, dd)) by {
    reveal(caches_of_first_cpus);
    assert forall|k: int| 0 <= k < dd.len() implies exists|j: int|
        0 <= j < entries.len() && first_with_its_cpus(entries, j) && #[trigger] dd[k] == (
            trim(entries[j].1),
            cache_size_kb(entries[j].0),
        ) by {
        if k < d.len() {
            assert(dd[k] == d[k]);
            let j = choose|j: int|
                0 <= j < e.len() && first_with_its_cpus(e, j) && #[trigger] d[k] == (
                    trim(e[j].1),
                    cache_size_kb(e[j].0),
                );
            lemma_first_with_prefix(entries, j);
        } else {
            assert(dd[k] == (trim(entries[last].1), cache_size_kb(entries[last].0)));
        }
    }
    }
    assert(every_cpus_cached(entries, dd)) by {
    reveal(every_cpus_cached);
    assert forall|j: int| 0 <= j < entries.len() implies exists|k: int|
        0 <= k < dd.len() && dd[k].0 == trim(#[trigger] entries[j].1) && (first_with_its_cpus(
            entries,
            j,
        ) ==> dd[k].1 == cache_size_kb(entries[j].0)) by {
        if j < last {
            lemma_first_with_prefix(entries, j);
            let k = choose|k: int|
                0 <= k < d.len() && d[k].0 == trim(#[trigger] e[j].1) && (first_with_its_cpus(
                    e,
                    j,
                ) ==> d[k].1 == cache_size_kb(e[j].0));
            assert(dd[k] == d[k]);
        } else {
            assert(dd[d.len() as int] == (cpus, cache_size_kb(entries[last].0)));
        }
    }
    }
}

/// The distinct caches are those of the CPUs read first with their CPU lists.
proof fn lemma_distinct_caches_from_entries(entries: Seq<(Seq<char>, Seq<char>)>)
    ensures
        caches_of_first_cpus(entries, distinct_caches(entries)),
        every_cpus_cached(entries, distinct_caches(entries)),
    decreases entries.len(),
{
    if entries.len() > 0 {
        let e = entries.drop_last();
        lemma_distinct_caches_from_entries(e);
        let d = distinct_caches(e);
        if exists|i: int| 0 <= i < d.len() && #[trigger] d[i].0 == trim(entries.last().1) {
            let i0 = choose|i: int| 0 <= i < d.len() && #[trigger] d[i].0 == trim(entries.last().1);
            lemma_caches_step_seen(entries, i0);
        } else {
            lemma_caches_step_new(entries);
        }
    } else {
        reveal(caches_of_first_cpus);
        reveal(every_cpus_cached);
    }
}

/// The detected V-Cache CCD is one that was read: its CPU list is the trimmed
/// `shared_cpu_list` of one of the CPUs read, its size that CPU's cache size; so the list has no
/// white space (such as the newline that ends a sysfs file) at either end.
pub proof fn lemma_vcache_is_a_read_cache(entries: Seq<(Seq<char>, Seq<char>)>)
    ensures
        vcache_of(entries) matches Some((cpus, size)) ==> (exists|j: int|
            0 <= j < entries.len() && cpus == trim(entries[j].1) && size == cache_size_kb(
                entries[j].0,
            )) && (cpus.len() > 0 ==> !white_space(cpus[0]) && !white_space(cpus.last())),
{
    let d = distinct_caches(entries);
    if d.len() >= 2 && max_size(d) != min_size(d) {
        lemma_first_of_size(d, max_size(d));
        lemma_max_attained(d);
        let f = first_of_size(d, max_size(d));
        assert(f < d.len()) by {
            let j0 = choose|j: int| 0 <= j < d.len() && #[trigger] d[j].1 == max_size(d);
            if f >= d.len() {
                assert(d[j0].1 != max_size(d));
            }
        }
        lemma_distinct_caches_from_entries(entries);
        assert(vcache_of(entries) == Some(d[f]));
        reveal(caches_of_first_cpus);
        let j = choose|j: int|
            0 <= j < entries.len() && first_with_its_cpus(entries, j) && #[trigger] d[f] == (
                trim(entries[j].1),
                cache_size_kb(entries[j].0),
            );
        lemma_trim_no_white_ends(entries[j].1);
    }
}

proof fn lemma_min_attained(d: Seq<(Seq<char>, u64)>)
    requires
        d.len() > 0,
    ensures
        exists|j: int| 0 <= j < d.len() && #[trigger] d[j].1 == min_size(d),
        forall|j: int| 0 <= j < d.len() ==> #[trigger] d[j].1 >= min_size(d),
    decreases d.len(),
{
    if d.len() > 1 {
        lemma_min_attained(d.drop_last());
        let j0 = choose|j: int| 0 <= j < d.drop_last().len() && #[trigger] d.drop_last()[j].1
            == min_size(d.drop_last());
        assert(d[j0] == d.drop_last()[j0]);
        assert(d[d.len() - 1] == d.last());
        assert forall|j: int| 0 <= j < d.len() implies #[trigger] d[j].1 >= min_size(d) by {
            if j < d.len() - 1 {
                assert(d[j] == d.drop_last()[j]);
            }
        }
    } else {
        assert(d[0].1 == min_size(d));
    }
}

/// The detected V-Cache CCD has the largest L3 cache read: no CPU read first with its CPU list
/// has a larger one, and one of them has a smaller one.
pub proof fn lemma_vcache_is_largest(entries: Seq<(Seq<char>, Seq<char>)>)
    ensures
        vcache_of(entries) matches Some((cpus, size)) ==> (forall|j: int|
            0 <= j < entries.len() && first_with_its_cpus(entries, j) ==> cache_size_kb(
                #[trigger] entries[j].0,
            ) <= size) && (exists|j: int|
            0 <= j < entries.len() && first_with_its_cpus(entries, j) && cache_size_kb(
                #[trigger] entries[j].0,
            ) < size),
{
    let d = distinct_caches(entries);
    if d.len() >= 2 && max_size(d) != min_size(d) {
        lemma_first_of_size(d, max_size(d));
        lemma_max_attained(d);
        lemma_min_attained(d);
        let f = first_of_size(d, max_size(d));
        assert(f < d.len()) by {
            let j0 = choose|j: int| 0 <= j < d.len() && #[trigger] d[j].1 == max_size(d);
            if f >= d.len() {
                assert(d[j0].1 != max_size(d));
            }
        }
        assert(vcache_of(entries) == Some(d[f]));
        lemma_distinct_caches_from_entries(entries);
        assert forall|j: int| 0 <= j < entries.len() && first_with_its_cpus(entries, j) implies cache_size_kb(
            #[trigger] entries[j].0,
        ) <= max_size(d) by {
            reveal(every_cpus_cached);
            let k = choose|k: int|
                0 <= k < d.len() && d[k].0 == trim(#[trigger] entries[j].1) && (first_with_its_cpus(
                    entries,
                    j,
                ) ==> d[k].1 == cache_size_kb(entries[j].0));
        }
        let k0 = choose|j: int| 0 <= j < d.len() && #[trigger] d[j].1 == min_size(d);
        assert(d[k0].1 < max_size(d));
        assert(exists|j: int|
            0 <= j < entries.len() && first_with_its_cpus(entries, j) && cache_size_kb(
                #[trigger] entries[j].0,
            ) < max_size(d)) by {
            reveal(caches_of_first_cpus);
            let j = choose|j: int|
                0 <= j < entries.len() && first_with_its_cpus(entries, j) && #[trigger] d[k0] == (
                    trim(entries[j].1),
                    cache_size_kb(entries[j].0),
                );
            assert(cache_size_kb(entries[j].0) < max_size(d));
        }
    }
}

/// A V-Cache CCD is detected exactly when two CPUs, each read first with its CPU list, have L3
/// caches of different sizes.
pub proof fn lemma_vcache_found_iff_sizes_differ(entries: Seq<(Seq<char>, Seq<char>)>)
    ensures
        vcache_of(entries) is Some <==> exists|j1: int, j2: int|
            0 <= j1 < entries.len() && 0 <= j2 < entries.len() && first_with_its_cpus(entries, j1)
                && first_with_its_cpus(entries, j2) && cache_size_kb(#[trigger] entries[j1].0)
                != cache_size_kb(#[trigger] entries[j2].0),
{
    let d = distinct_caches(entries);
    lemma_distinct_caches_from_entries(entries);
    if exists|j1: int, j2: int|
        0 <= j1 < entries.len() && 0 <= j2 < entries.len() && first_with_its_cpus(entries, j1)
            && first_with_its_cpus(entries, j2) && cache_size_kb(#[trigger] entries[j1].0)
            != cache_size_kb(#[trigger] entries[j2].0) {
        let (j1, j2) = choose|j1: int, j2: int|
            0 <= j1 < entries.len() && 0 <= j2 < entries.len() && first_with_its_cpus(entries, j1)
                && first_with_its_cpus(entries, j2) && cache_size_kb(#[trigger] entries[j1].0)
                != cache_size_kb(#[trigger] entries[j2].0);
        reveal(every_cpus_cached);
        let k1 = choose|k: int|
            0 <= k < d.len() && d[k].0 == trim(#[trigger] entries[j1].1) && (first_with_its_cpus(
                entries,
                j1,
            ) ==> d[k].1 == cache_size_kb(entries[j1].0));
        let k2 = choose|k: int|
            0 <= k < d.len() && d[k].0 == trim(#[trigger] entries[j2].1) && (first_with_its_cpus(
                entries,
                j2,
            ) ==> d[k].1 == cache_size_kb(entries[j2].0));
        assert(k1 != k2);
        assert(d.len() >= 2);
        lemma_max_attained(d);
        lemma_min_attained(d);
        assert(d[k1].1 <= max_size(d) && d[k1].1 >= min_size(d));
        assert(d[k2].1 <= max_size(d) && d[k2].1 >= min_size(d));
        assert(max_size(d) != min_size(d));
    } else {
        if d.len() >= 2 && max_size(d) != min_size(d) {
            lemma_max_attained(d);
            lemma_min_attained(d);
            let ka = choose|j: int| 0 <= j < d.len() && #[trigger] d[j].1 == max_size(d);
            let kb = choose|j: int| 0 <= j < d.len() && #[trigger] d[j].1 == min_size(d);
            reveal(caches_of_first_cpus);
            let ja = choose|j: int|
                0 <= j < entries.len() && first_with_its_cpus(entries, j) && #[trigger] d[ka] == (
                    trim(entries[j].1),
                    cache_size_kb(entries[j].0),
                );
            let jb = choose|j: int|
                0 <= j < entries.len() && first_with_its_cpus(entries, j) && #[trigger] d[kb] == (
                    trim(entries[j].1),
                    cache_size_kb(entries[j].0),
                );
            assert(cache_size_kb(entries[ja].0) != cache_size_kb(entries[jb].0));
            assert(false);
        }
    }
}

/// Detects the V-Cache CCD from the raw `(size, shared_cpu_list)` contents read for each CPU,
/// in the order read.
pub fn detect_vcache(entries: &Vec<(String, String)>) -> (r: Option<VcacheInfo>)
    ensures
        match vcache_of(raw_views(entries@)) {
            None => r is None,
            Some((cpus, size)) => r matches Some(v) && v.cpus@ == cpus && v.l3_size_kb == size,
        },
{
    let ghost raw = raw_views(entries@);
    let mut cpus_seen: Vec<Vec<char>> = Vec::new();
    let mut sizes: Vec<u64> = Vec::new();
    let n = entries.len();
    assert(raw.take(0) =~= Seq::<(Seq<char>, Seq<char>)>::empty());
    for i in 0..n
        invariant
            n == entries@.len(),
            raw == raw_views(entries@),
            cpus_seen@.len() == sizes@.len(),
            cpus_seen@.len() == distinct_caches(raw.take(i as int)).len(),
            forall|k: int|
                0 <= k < cpus_seen@.len() ==> (#[trigger] cpus_seen@[k])@ == distinct_caches(
                    raw.take(i as int),
                )[k].0,
            forall|k: int|
                0 <= k < sizes@.len() ==> #[trigger] sizes@[k] == distinct_caches(
                    raw.take(i as int),
                )[k].1,
    {
        let ghost t = raw.take(i + 1);
        assert(t.drop_last() =~= raw.take(i as int));
        assert(t.last() == raw[i as int]);
        let ghost d = distinct_caches(raw.take(i as int));
        let cs = char_vec(entries[i].1.as_str());
        let cpus = trim_chars(&cs);
        let mut seen = false;
        let mut k: usize = 0;
        while k < cpus_seen.len()
            invariant
                k <= cpus_seen@.len(),
                cpus_seen@.len() == d.len(),
                forall|j: int| 0 <= j < cpus_seen@.len() ==> (#[trigger] cpus_seen@[j])@ == d[j].0,
                seen <==> exists|j: int| 0 <= j < k && #[trigger] d[j].0 == cpus@,
            decreases cpus_seen@.len() - k,
        {
            if chars_eq(&cpus_seen[k], &cpus) {
                seen = true;
            }
            k = k + 1;
        }
        if !seen {
            let size = parse_cache_size_kb(entries[i].0.as_str());
            cpus_seen.push(cpus);
            sizes.push(size);
            proof {
                let d2 = distinct_caches(t);
                assert(d2 == d.push((cpus@, size)));
            }
        }
    }
    assert(raw.take(n as int) =~= raw);
    let ghost d = distinct_caches(raw);
    let m = sizes.len();
    if m < 2 {
        return None;
    }
    assert(forall|k: int| 0 <= k < m ==> sizes@[k] == #[trigger] d[k].1);
    let mut max: u64 = sizes[0];
    let mut min: u64 = sizes[0];
    let mut j: usize = 1;
    assert(d.take(1).drop_last() =~= Seq::<(Seq<char>, u64)>::empty());
    while j < m
        invariant
            1 <= j <= m,
            m == sizes@.len(),
            m == d.len(),
            forall|k: int| 0 <= k < m ==> sizes@[k] == #[trigger] d[k].1,
            max == max_size(d.take(j as int)),
            min == min_size(d.take(j as int)),
        decreases m - j,
    {
        assert(d.take(j + 1).drop_last() =~= d.take(j as int));
        assert(d.take(j + 1).last() == d[j as int]);
        if sizes[j] > max {
            max = sizes[j];
        }
        if sizes[j] < min {
            min = sizes[j];
        }
        j = j + 1;
    }
    assert(d.take(m as int) =~= d);
    if max == min {
        return None;
    }
    let mut f: usize = 0;
    proof {
        lemma_first_of_size(d, max);
        lemma_max_attained(d);
    }
    while f < m && sizes[f] != max
        invariant
            f <= m,
            m == sizes@.len(),
            m == d.len(),
            forall|k: int| 0 <= k < m ==> sizes@[k] == #[trigger] d[k].1,
            f <= first_of_size(d, max),
            first_of_size(d, max) < m,
            d[first_of_size(d, max)].1 == max,
            forall|k: int| 0 <= k < first_of_size(d, max) ==> #[trigger] d[k].1 != max,
        decreases m - f,
    {
        f = f + 1;
    }
    let cpus = string_of(&cpus_seen[f]);
    Some(VcacheInfo { cpus, l3_size_kb: max })
}

// ----- GPUs -----

pub open spec fn starts_with(s: Seq<char>, prefix: Seq<char>) -> bool {
    prefix.len() <= s.len() && s.take(prefix.len() as int) == prefix
}

/// The GPU that a `/sys/class/drm` entry stands for: only `card<N>` entries (no `-` in the
/// name) count; its name is the trimmed `device/label`, else `device/product_name`, else the
/// entry's name; its driver is the name of the `device/driver` link, else empty.
pub open spec fn gpu_of(
    name: Seq<char>,
    label: Option<Seq<char>>,
    product_name: Option<Seq<char>>,
    driver: Option<Seq<char>>,
) -> Option<(Seq<char>, Seq<char>)> {
    if !starts_with(name, "card"@) || contains_seq(name, seq!['-']) {
        None
    } else {
        let n = match label {
            Some(l) => l,
            None => match product_name {
                Some(p) => p,
                None => name,
            },
        };
        Some(
            (
                trim(n),
                match driver {
                    Some(d) => d,
                    None => Seq::empty(),
                },
            ),
        )
    }
}

/// Decides the GPU of one `/sys/class/drm` entry from what was read for it.
pub fn gpu_from_drm_entry(
    name: &str,
    label: Option<&str>,
    product_name: Option<&str>,
    driver: Option<&str>,
) -> (r: Option<GpuInfo>)
    ensures
        match gpu_of(
            name@,
            match label {
                Some(l) => Some(l@),
                None => None,
            },
            match product_name {
                Some(p) => Some(p@),
                None => None,
            },
            match driver {
                Some(d) => Some(d@),
                None => None,
            },
        ) {
            None => r is None,
            Some((n, d)) => r matches Some(g) && g.name@ == n && g.driver@ == d,
        },
{
    let cs = char_vec(name);
    let card = char_vec("card");
    let mut is_card = card.len() <= cs.len();
    if is_card {
        let mut i: usize = 0;
        assert(cs@.take(0) =~= card@.take(0));
        while i < card.len()
            invariant
                i <= card@.len(),
                card@.len() <= cs@.len(),
                is_card == (cs@.take(i as int) == card@.take(i as int)),
            decreases card@.len() - i,
        {
            if cs[i] != card[i] {
                is_card = false;
                assert(cs@.take(i + 1)[i as int] != card@.take(i + 1)[i as int]);
            } else {
                proof {
                    if !is_card {
                        assert(cs@.take(i + 1).take(i as int) =~= cs@.take(i as int));
                        assert(card@.take(i + 1).take(i as int) =~= card@.take(i as int));
                    }
                }
            }
            proof {
                if is_card {
                    assert(cs@.take(i + 1) =~= cs@.take(i as int).push(cs@[i as int]));
                    assert(card@.take(i + 1) =~= card@.take(i as int).push(card@[i as int]));
                }
            }
            i = i + 1;
        }
        assert(card@.take(card@.len() as int) =~= card@);
    }
    let dash = vec!['-'];
    assert(dash@ =~= seq!['-']);
    let has_dash = find_chars(&cs, &dash).is_some();
    if !is_card || has_dash {
        return None;
    }
    let raw: &str = match label {
        Some(l) => l,
        None => match product_name {
            Some(p) => p,
            None => name,
        },
    };
    let rc = char_vec(raw);
    let gpu_name = string_of(&trim_chars(&rc));
    let drv = match driver {
        Some(d) => copy_str(d),
        None => String::new(),
    };
    Some(GpuInfo { name: gpu_name, driver: drv })
}

// ----- The detection cache -----

/// Whether cached hardware facts of the given age are still used.
pub fn hardware_cache_is_fresh(age_secs: u64) -> (r: bool)
    ensures
        r == (age_secs <= CACHE_MAX_AGE_SECS),
{
    age_secs <= CACHE_MAX_AGE_SECS
}

/// The hardware cache file under the user's configuration directory `xdg`.
pub open spec fn cache_path_under(xdg: Seq<char>) -> Seq<char> {
    path_join(config_dir_under(xdg), "hardware_cache.toml"@)
}

/// `<config dir>/hardware_cache.toml`; `None` where the configuration directory cannot be
/// determined.
pub fn cache_path() -> (r: Option<String>)
    ensures
        r matches Some(p) ==> exists|xdg: Seq<char>| p@ == cache_path_under(xdg),
{
    match config_dir() {
        Some(d) => {
            let p = join_path(d.as_str(), "hardware_cache.toml");
            proof {
                let xdg = choose|x: Seq<char>| d@ == config_dir_under(x);
                assert(p@ == cache_path_under(xdg));
            }
            Some(p)
        },
        None => None,
    }
}

// ----- Where the facts come from -----

/// Where `detect_hardware` takes the hardware facts from.
#[derive(Debug, Clone, PartialEq, Eq)]
pub enum HardwareSource {
    /// What the cache held.
    Cached(HardwareInfo),
    /// Detect anew, and write what was found to the cache.
    Detect,
}

/// Decides where the hardware facts come from: the cache, when a fresh one was read (`cached`,
/// see `hardware_cache_is_fresh`) and no refresh is forced; else a new detection.
pub fn detect_hardware(force_refresh: bool, cached: Option<HardwareInfo>) -> (r: HardwareSource)
    ensures
        r == (match cached {
            Some(info) => if force_refresh {
                HardwareSource::Detect
            } else {
                HardwareSource::Cached(info)
            },
            None => HardwareSource::Detect,
        }),
{
    match cached {
        Some(info) => if force_refresh {
            HardwareSource::Detect
        } else {
            HardwareSource::Cached(info)
        },
        None => HardwareSource::Detect,
    }
}

impl VcacheInfo {
    /// A copy of these facts.
    pub fn copy(&self) -> (r: VcacheInfo)
        ensures
            r.cpus@ == self.cpus@,
            r.l3_size_kb == self.l3_size_kb,
    {
        VcacheInfo { cpus: self.cpus.clone(), l3_size_kb: self.l3_size_kb }
    }
}

/// The V-Cache part of the hardware facts that `detect_hardware` settled on.
pub fn detect_vcache_cached(info: &HardwareInfo) -> (r: Option<VcacheInfo>)
    ensures
        match info.vcache {
            Some(v) => r matches Some(c) && c.cpus@ == v.cpus@ && c.l3_size_kb == v.l3_size_kb,
            None => r is None,
        },
{
    match &info.vcache {
        Some(v) => Some(v.copy()),
        None => None,
    }
}

// ----- The `glaunch info` report -----

/// A cache size in whole MiB, as the reports show it.
pub open spec fn mib(kb: u64) -> Seq<char> {
    decimal((kb / 1024) as nat)
}

/// The lines for GPU number `i`: an empty line, its name, and its driver when known.
pub open spec fn gpu_block(i: nat, g: GpuInfo) -> Seq<Seq<char>> {
    let head = seq![Seq::<char>::empty(), "GPU "@ + decimal(i) + ": "@ + g.name@];
    if g.driver@.len() > 0 {
        head.push("  Driver: "@ + g.driver@)
    } else {
        head
    }
}

/// The blocks of all GPUs, numbered from 0.
pub open spec fn gpu_lines(gpus: Seq<GpuInfo>) -> Seq<Seq<char>>
    decreases gpus.len(),
{
    if gpus.len() == 0 {
        Seq::empty()
    } else {
        gpu_lines(gpus.drop_last()) + gpu_block((gpus.len() - 1) as nat, gpus.last())
    }
}

/// The report of `glaunch info`, line by line: a title and an empty line; the V-Cache CCD's
/// CPUs and L3 size in MiB, or that there is none; then each GPU, or that none was found.
pub open spec fn report_lines(info: HardwareInfo) -> Seq<Seq<char>> {
    let head = seq!["=== glaunch hardware info ==="@, Seq::<char>::empty()];
    let vc = match info.vcache {
        Some(v) => seq![
            "V-Cache: detected"@,
            "  CPUs: "@ + v.cpus@,
            "  L3 cache: "@ + mib(v.l3_size_kb) + " MB"@,
        ],
        None => seq!["V-Cache: not detected (symmetric L3 or single CCD)"@],
    };
    let gp = if info.gpus@.len() == 0 {
        seq![Seq::<char>::empty(), "GPU: not detected"@]
    } else {
        gpu_lines(info.gpus@)
    };
    head + vc + gp
}

/// The lines of the `glaunch info` report (see `report_lines`).
pub fn hardware_report(info: &HardwareInfo) -> (r: Vec<String>)
    ensures
        str_views(r@) == report_lines(*info),
{
    let mut lines: Vec<String> = Vec::new();
    push_line(&mut lines, copy_str("=== glaunch hardware info ==="));
    push_line(&mut lines, String::new());
    match &info.vcache {
        Some(v) => {
            push_line(&mut lines, copy_str("V-Cache: detected"));
            push_line(&mut lines, concat("  CPUs: ", v.cpus.as_str()));
            let m = decimal_string(v.l3_size_kb / 1024);
            push_line(&mut lines, concat3("  L3 cache: ", m.as_str(), " MB"));
        },
        None => {
            push_line(&mut lines, copy_str("V-Cache: not detected (symmetric L3 or single CCD)"));
        },
    }
    let ghost head = str_views(lines@);
    let n = info.gpus.len();
    if n == 0 {
        push_line(&mut lines, String::new());
        push_line(&mut lines, copy_str("GPU: not detected"));
        return lines;
    }
    assert(info.gpus@.take(0) =~= Seq::<GpuInfo>::empty());
    for i in 0..n
        invariant
            n == info.gpus@.len(),
            str_views(lines@) == head + gpu_lines(info.gpus@.take(i as int)),
    {
        let g = &info.gpus[i];
        let ghost before = str_views(lines@);
        push_line(&mut lines, String::new());
        let num = decimal_string(i as u64);
        let title = concat("GPU ", num.as_str());
        let title = concat3(title.as_str(), ": ", g.name.as_str());
        push_line(&mut lines, title);
        if !g.driver.as_str().is_empty() {
            push_line(&mut lines, concat("  Driver: ", g.driver.as_str()));
        }
        assert(info.gpus@.take(i + 1).drop_last() =~= info.gpus@.take(i as int));
        assert(str_views(lines@) =~= before + gpu_block(i as nat, *g));
    }
    assert(info.gpus@.take(n as int) =~= info.gpus@);
    lines
}

} // verus!
