use vstd::prelude::*;
use crate::records::{str_eq, AccelRecord, ArgMap, SeriesData, SeriesRecord};

verus! {

// ---------------------------------------------------------------------------
// String sets and parameter maps as plain vectors
// ---------------------------------------------------------------------------

/// `x` is one of the strings of `s`.
pub open spec fn has_str(s: Seq<String>, x: Seq<char>) -> bool {
    exists|i: int| 0 <= i < s.len() && (#[trigger] s[i])@ == x
}

/// No string occurs twice in `s`.
pub open spec fn uniq_strs(s: Seq<String>) -> bool {
    forall|i: int, j: int|
        0 <= i < s.len() && 0 <= j < s.len() && (#[trigger] s[i])@ == (#[trigger] s[j])@ ==> i == j
}

/// The pair `(k, v)` is collected in the parameter map `ps`.
pub open spec fn pv_has(ps: Seq<(String, Vec<String>)>, k: Seq<char>, v: Seq<char>) -> bool {
    exists|p: int| 0 <= p < ps.len() && (#[trigger] ps[p]).0@ == k && has_str(ps[p].1@, v)
}

/// The key `k` is present in the parameter map `ps`.
pub open spec fn pv_key(ps: Seq<(String, Vec<String>)>, k: Seq<char>) -> bool {
    exists|p: int| 0 <= p < ps.len() && (#[trigger] ps[p]).0@ == k
}

/// No key occurs twice in the parameter map.
pub open spec fn uniq_keys(ps: Seq<(String, Vec<String>)>) -> bool {
    forall|i: int, j: int|
        0 <= i < ps.len() && 0 <= j < ps.len() && (#[trigger] ps[i]).0@ == (#[trigger] ps[j]).0@
            ==> i == j
}

/// Every key's value list is duplicate-free.
pub open spec fn uniq_vals(ps: Seq<(String, Vec<String>)>) -> bool {
    forall|i: int| 0 <= i < ps.len() ==> uniq_strs((#[trigger] ps[i]).1@)
}

/// Whether `v` holds a string equal to `x`.
pub fn contains_str(v: &Vec<String>, x: &str) -> (r: bool)
    ensures
        r == has_str(v@, x@),
{
    let n = v.len();
    let mut i: usize = 0;
    while i < n
        invariant
            0 <= i <= n,
            n == v@.len(),
            forall|j: int| 0 <= j < i ==> (#[trigger] v@[j])@ != x@,
        decreases n - i,
    {
        if str_eq(v[i].as_str(), x) {
            return true;
        }
        i = i + 1;
    }
    false
}

/// Whether `v` holds the integer `x`.
pub fn contains_i32(v: &Vec<i32>, x: i32) -> (r: bool)
    ensures
        r == v@.contains(x),
{
    let n = v.len();
    let mut i: usize = 0;
    while i < n
        invariant
            0 <= i <= n,
            n == v@.len(),
            forall|j: int| 0 <= j < i ==> v@[j] != x,
        decreases n - i,
    {
        if v[i] == x {
            return true;
        }
        i = i + 1;
    }
    false
}

/// Add `x` to a duplicate-free string set, if it is new.
fn insert_unique_str(v: &mut Vec<String>, x: &String)
    requires
        uniq_strs(old(v)@),
    ensures
        uniq_strs(final(v)@),
        has_str(final(v)@, x@),
        forall|y: Seq<char>| #[trigger] has_str(old(v)@, y) ==> has_str(final(v)@, y),
        forall|y: Seq<char>|
            #[trigger] has_str(final(v)@, y) ==> has_str(old(v)@, y) || y == x@,
        final(v)@.len() >= old(v)@.len(),
        final(v)@.len() >= 2 ==> exists|a: int, b: int|
            0 <= a < final(v)@.len() && 0 <= b < final(v)@.len()
                && (#[trigger] final(v)@[a])@ != (#[trigger] final(v)@[b])@,
{
    if !contains_str(v, x.as_str()) {
        v.push(x.clone());
        proof {
            assert(v@[v@.len() - 1]@ == x@);
            assert forall|i: int, j: int|
                0 <= i < v@.len() && 0 <= j < v@.len() && (#[trigger] v@[i])@ == (
                #[trigger] v@[j])@ implies i == j by {
                if i < old(v)@.len() && j < old(v)@.len() {
                    assert(old(v)@[i]@ == old(v)@[j]@);
                } else if i < old(v)@.len() {
                    assert(old(v)@[i]@ == x@);
                    assert(has_str(old(v)@, x@));
                } else if j < old(v)@.len() {
                    assert(old(v)@[j]@ == x@);
                    assert(has_str(old(v)@, x@));
                }
            }
        }
    }
    proof {
        assert forall|y: Seq<char>| #[trigger] has_str(old(v)@, y) implies has_str(v@, y) by {
            let i = choose|i: int| 0 <= i < old(v)@.len() && (#[trigger] old(v)@[i])@ == y;
            assert(v@[i]@ == y);
        }
        assert forall|y: Seq<char>| #[trigger] has_str(v@, y) implies has_str(old(v)@, y) || y
            == x@ by {
            let i = choose|i: int| 0 <= i < v@.len() && (#[trigger] v@[i])@ == y;
            if i < old(v)@.len() {
                assert(old(v)@[i]@ == y);
            }
        }
        if v@.len() >= 2 {
            assert(v@[0]@ != v@[1]@);
        }
    }
}

/// Add `x` to a duplicate-free integer set, if it is new.
fn insert_unique_i32(v: &mut Vec<i32>, x: i32)
    requires
        forall|i: int, j: int|
            0 <= i < old(v)@.len() && 0 <= j < old(v)@.len() && old(v)@[i] == old(v)@[j] ==> i == j,
    ensures
        forall|i: int, j: int|
            0 <= i < final(v)@.len() && 0 <= j < final(v)@.len() && final(v)@[i] == final(v)@[j]
                ==> i == j,
        final(v)@.contains(x),
        forall|y: i32| old(v)@.contains(y) ==> final(v)@.contains(y),
        forall|y: i32| final(v)@.contains(y) ==> old(v)@.contains(y) || y == x,
        final(v)@.len() >= 2 ==> exists|a: int, b: int|
            0 <= a < final(v)@.len() && 0 <= b < final(v)@.len() && final(v)@[a] != final(v)@[b],
{
    if !contains_i32(v, x) {
        v.push(x);
        proof {
            assert(v@[v@.len() - 1] == x);
            assert forall|i: int, j: int|
                0 <= i < v@.len() && 0 <= j < v@.len() && v@[i] == v@[j] implies i == j by {
                if i < old(v)@.len() && j < old(v)@.len() {
                    assert(old(v)@[i] == old(v)@[j]);
                } else if i < old(v)@.len() {
                    assert(old(v)@.contains(x)) by {
                        assert(old(v)@[i] == x);
                    }
                } else if j < old(v)@.len() {
                    assert(old(v)@.contains(x)) by {
                        assert(old(v)@[j] == x);
                    }
                }
            }
        }
    }
    proof {
        assert(v@.contains(x)) by {
            if old(v)@.contains(x) {
                let i = choose|i: int| 0 <= i < old(v)@.len() && old(v)@[i] == x;
                assert(v@[i] == x);
            } else {
                assert(v@[v@.len() - 1] == x);
            }
        }
        assert forall|y: i32| old(v)@.contains(y) implies v@.contains(y) by {
            let i = choose|i: int| 0 <= i < old(v)@.len() && old(v)@[i] == y;
            assert(v@[i] == y);
        }
        assert forall|y: i32| v@.contains(y) implies old(v)@.contains(y) || y == x by {
            let i = choose|i: int| 0 <= i < v@.len() && v@[i] == y;
            if i < old(v)@.len() {
                assert(old(v)@[i] == y);
            }
        }
        if v@.len() >= 2 {
            assert(v@[0] != v@[1]);
        }
    }
}

/// Record one `(key, value)` sighting in a parameter map, keeping keys
/// and per-key values duplicate-free.
pub(crate) fn add_param_entry(params: &mut Vec<(String, Vec<String>)>, key: &String, value: &String)
    requires
        uniq_keys(old(params)@),
        uniq_vals(old(params)@),
    ensures
        uniq_keys(final(params)@),
        uniq_vals(final(params)@),
        pv_has(final(params)@, key@, value@),
        forall|k2: Seq<char>, v2: Seq<char>|
            #[trigger] pv_has(old(params)@, k2, v2) ==> pv_has(final(params)@, k2, v2),
        forall|k2: Seq<char>, v2: Seq<char>|
            #[trigger] pv_has(final(params)@, k2, v2) ==> pv_has(old(params)@, k2, v2) || (k2
                == key@ && v2 == value@),
        forall|k2: Seq<char>| #[trigger] pv_key(old(params)@, k2) ==> pv_key(final(params)@, k2),
        forall|k2: Seq<char>|
            #[trigger] pv_key(final(params)@, k2) ==> pv_key(old(params)@, k2) || k2 == key@,
{
    let n = params.len();
    let mut i: usize = 0;
    while i < n
        invariant
            0 <= i <= n,
            n == params@.len(),
            params@ == old(params)@,
            uniq_keys(params@),
            uniq_vals(params@),
            forall|j: int| 0 <= j < i ==> (#[trigger] params@[j]).0@ != key@,
        decreases n - i,
    {
        if str_eq(params[i].0.as_str(), key.as_str()) {
            let ghost old_ps = params@;
            let mut g = params.remove(i);
            insert_unique_str(&mut g.1, value);
            let gval = g.1;
            let gkey = g.0;
            params.insert(i, (gkey, gval));
            proof {
                assert(params@ =~= old_ps.update(
                    i as int,
                    (old_ps[i as int].0, params@[i as int].1),
                ));
                assert(params@[i as int].0@ == key@);
                assert(forall|p: int|
                    0 <= p < params@.len() ==> (#[trigger] params@[p]).0 == old_ps[p].0);
                assert forall|p: int| 0 <= p < params@.len() implies uniq_strs(
                    (#[trigger] params@[p]).1@,
                ) by {
                    if p != i {
                        assert(params@[p] == old_ps[p]);
                    }
                }
                assert forall|k2: Seq<char>| #[trigger] pv_key(old_ps, k2) implies pv_key(
                    params@,
                    k2,
                ) by {
                    let p = choose|p: int| 0 <= p < old_ps.len() && (#[trigger] old_ps[p]).0@ == k2;
                    assert(params@[p].0@ == k2);
                }
                assert forall|k2: Seq<char>, v2: Seq<char>|
                    #[trigger] pv_has(old_ps, k2, v2) implies pv_has(params@, k2, v2) by {
                    let p = choose|p: int|
                        0 <= p < old_ps.len() && (#[trigger] old_ps[p]).0@ == k2 && has_str(
                            old_ps[p].1@,
                            v2,
                        );
                    assert(params@[p].0@ == k2);
                    if p == i {
                        assert(has_str(params@[p].1@, v2));
                    } else {
                        assert(params@[p] == old_ps[p]);
                    }
                }
                assert forall|k2: Seq<char>, v2: Seq<char>|
                    #[trigger] pv_has(params@, k2, v2) implies pv_has(old_ps, k2, v2) || (k2
                    == key@ && v2 == value@) by {
                    let p = choose|p: int|
                        0 <= p < params@.len() && (#[trigger] params@[p]).0@ == k2 && has_str(
                            params@[p].1@,
                            v2,
                        );
                    if p == i {
                        if has_str(old_ps[p].1@, v2) {
                            assert(pv_has(old_ps, k2, v2));
                        }
                    } else {
                        assert(params@[p] == old_ps[p]);
                    }
                }
                assert forall|k2: Seq<char>| #[trigger] pv_key(params@, k2) implies pv_key(
                    old_ps,
                    k2,
                ) || k2 == key@ by {
                    let p = choose|p: int|
                        0 <= p < params@.len() && (#[trigger] params@[p]).0@ == k2;
                    assert(old_ps[p].0@ == params@[p].0@);
                }
            }
            return ;
        }
        i = i + 1;
    }
    let ghost old_ps = params@;
    let mut single: Vec<String> = Vec::new();
    single.push(value.clone());
    params.push((key.clone(), single));
    proof {
        assert(params@[n as int].0@ == key@);
        assert(params@[n as int].1@[0]@ == value@);
        assert(has_str(params@[n as int].1@, value@));
        assert forall|a: int, b: int|
            0 <= a < params@.len() && 0 <= b < params@.len() && (#[trigger] params@[a]).0@ == (
            #[trigger] params@[b]).0@ implies a == b by {
            if a < n && b < n {
                assert(old_ps[a].0@ == old_ps[b].0@);
            } else if a < n {
                assert(old_ps[a].0@ == key@);
            } else if b < n {
                assert(old_ps[b].0@ == key@);
            }
        }
        assert forall|p: int| 0 <= p < params@.len() implies uniq_strs(
            (#[trigger] params@[p]).1@,
        ) by {
            if p < n {
                assert(params@[p] == old_ps[p]);
            } else {
                assert(params@[p].1@.len() == 1);
            }
        }
        assert forall|k2: Seq<char>| #[trigger] pv_key(old_ps, k2) implies pv_key(params@, k2) by {
            let p = choose|p: int| 0 <= p < old_ps.len() && (#[trigger] old_ps[p]).0@ == k2;
            assert(params@[p].0@ == k2);
        }
        assert forall|k2: Seq<char>, v2: Seq<char>|
            #[trigger] pv_has(params@, k2, v2) implies pv_has(old_ps, k2, v2) || (k2 == key@ && v2
            == value@) by {
            let p = choose|p: int|
                0 <= p < params@.len() && (#[trigger] params@[p]).0@ == k2 && has_str(
                    params@[p].1@,
                    v2,
                );
            if p < n {
                assert(params@[p] == old_ps[p]);
            } else {
                let q = choose|q: int|
                    0 <= q < params@[p].1@.len() && (#[trigger] params@[p].1@[q])@ == v2;
            }
        }
        assert forall|k2: Seq<char>, v2: Seq<char>|
            #[trigger] pv_has(old_ps, k2, v2) implies pv_has(params@, k2, v2) by {
            let p = choose|p: int|
                0 <= p < old_ps.len() && (#[trigger] old_ps[p]).0@ == k2 && has_str(
                    old_ps[p].1@,
                    v2,
                );
            assert(params@[p] == old_ps[p]);
        }
        assert forall|k2: Seq<char>| #[trigger] pv_key(params@, k2) implies pv_key(old_ps, k2)
            || k2 == key@ by {
            let p = choose|p: int| 0 <= p < params@.len() && (#[trigger] params@[p]).0@ == k2;
            if p < n {
                assert(old_ps[p].0@ == k2);
            }
        }
    }
}

} // verus!

verus! {

use crate::records::seq_lookup;

// ---------------------------------------------------------------------------
// The filter state
// ---------------------------------------------------------------------------

/// What the user may narrow the decoded data by.  An empty category means
/// "no restriction"; a parameter entry restricts one named argument to a
/// set of allowed values.
#[derive(Debug, PartialEq, Eq)]
pub struct Filters {
    pub precisions: Vec<String>,
    pub base_series: Vec<String>,
    pub base_accel: Vec<String>,
    pub m_values: Vec<i32>,
    pub accel_params: Vec<(String, Vec<String>)>,
    pub series_params: Vec<(String, Vec<String>)>,
}

impl Default for Filters {
    /// The unrestricted filter state.
    fn default() -> (r: Self)
        ensures
            no_filters(r),
    {
        Filters {
            precisions: Vec::new(),
            base_series: Vec::new(),
            base_accel: Vec::new(),
            m_values: Vec::new(),
            accel_params: Vec::new(),
            series_params: Vec::new(),
        }
    }
}

/// Every category is unrestricted.
pub open spec fn no_filters(f: Filters) -> bool {
    &&& f.precisions@.len() == 0
    &&& f.base_series@.len() == 0
    &&& f.base_accel@.len() == 0
    &&& f.m_values@.len() == 0
    &&& f.accel_params@.len() == 0
    &&& f.series_params@.len() == 0
}

/// One parameter restriction is met: the argument bag binds the key to
/// one of the allowed values.
pub open spec fn param_ok(args: ArgMap, key: Seq<char>, allowed: Seq<String>) -> bool {
    seq_lookup(args.entries@, key) matches Some(v) && has_str(allowed, v)
}

/// The series-level restrictions all hold of this record.
pub open spec fn series_matches(rec: SeriesRecord, f: Filters) -> bool {
    &&& f.precisions@.len() == 0 || has_str(f.precisions@, rec.precision@)
    &&& f.base_series@.len() == 0 || has_str(f.base_series@, rec.name@)
    &&& f.series_params@.len() == 0 || forall|p: int|
        0 <= p < f.series_params@.len() ==> param_ok(
            rec.arguments,
            (#[trigger] f.series_params@[p]).0@,
            f.series_params@[p].1@,
        )
}

/// The acceleration-level restrictions all hold of this record.
pub open spec fn accel_matches(a: AccelRecord, f: Filters) -> bool {
    &&& f.base_accel@.len() == 0 || has_str(f.base_accel@, a.accel_info.name@)
    &&& f.m_values@.len() == 0 || f.m_values@.contains(a.accel_info.m_value)
    &&& f.accel_params@.len() == 0 || forall|p: int|
        0 <= p < f.accel_params@.len() ==> param_ok(
            a.accel_info.additional_args,
            (#[trigger] f.accel_params@[p]).0@,
            f.accel_params@[p].1@,
        )
}

/// A series survives filtering: its own fields match and at least one of
/// its accelerations does.
pub open spec fn item_matches(item: SeriesData, f: Filters) -> bool {
    series_matches(item.0, f) && exists|j: int|
        0 <= j < item.1@.len() && accel_matches(#[trigger] item.1@[j], f)
}

fn param_filters_ok(args: &ArgMap, filters: &Vec<(String, Vec<String>)>) -> (r: bool)
    ensures
        r == (forall|p: int|
            0 <= p < filters@.len() ==> param_ok(
                *args,
                (#[trigger] filters@[p]).0@,
                filters@[p].1@,
            )),
{
    let n = filters.len();
    let mut i: usize = 0;
    while i < n
        invariant
            0 <= i <= n,
            n == filters@.len(),
            forall|p: int|
                0 <= p < i ==> param_ok(*args, (#[trigger] filters@[p]).0@, filters@[p].1@),
        decreases n - i,
    {
        let entry = &filters[i];
        match args.get(entry.0.as_str()) {
            Some(v) => {
                if !contains_str(&entry.1, v.as_str()) {
                    assert(!param_ok(*args, filters@[i as int].0@, filters@[i as int].1@));
                    return false;
                }
            },
            None => {
                assert(!param_ok(*args, filters@[i as int].0@, filters@[i as int].1@));
                return false;
            },
        }
        i = i + 1;
    }
    true
}

fn matches_series(rec: &SeriesRecord, f: &Filters) -> (r: bool)
    ensures
        r == series_matches(*rec, *f),
{
    if f.precisions.len() > 0 && !contains_str(&f.precisions, rec.precision.as_str()) {
        return false;
    }
    if f.base_series.len() > 0 && !contains_str(&f.base_series, rec.name.as_str()) {
        return false;
    }
    if f.series_params.len() > 0 && !param_filters_ok(&rec.arguments, &f.series_params) {
        return false;
    }
    true
}

fn matches_accel(a: &AccelRecord, f: &Filters) -> (r: bool)
    ensures
        r == accel_matches(*a, *f),
{
    if f.base_accel.len() > 0 && !contains_str(&f.base_accel, a.accel_info.name.as_str()) {
        return false;
    }
    if f.m_values.len() > 0 && !contains_i32(&f.m_values, a.accel_info.m_value) {
        return false;
    }
    if f.accel_params.len() > 0 && !param_filters_ok(&a.accel_info.additional_args, &f.accel_params)
     {
        return false;
    }
    true
}

/// Filter decoded series data, by position.
///
/// With no restrictions at all, every series is kept with every one of
/// its accelerations.  Otherwise a series is kept exactly when its own
/// fields match and at least one of its accelerations matches, and its
/// kept acceleration indices are exactly the matching ones; both index
/// lists come out strictly increasing.
pub fn filter_data_items(data_items: &Vec<SeriesData>, filters: &Filters) -> (r: Vec<
    (usize, Vec<usize>),
>)
    ensures
        no_filters(*filters) ==> {
            &&& r@.len() == data_items@.len()
            &&& forall|k: int|
                0 <= k < r@.len() ==> (#[trigger] r@[k]).0 == k && r@[k].1@.len()
                    == data_items@[k].1@.len() && (forall|j: int|
                    0 <= j < r@[k].1@.len() ==> (#[trigger] r@[k].1@[j]) == j)
        },
        !no_filters(*filters) ==> {
            &&& forall|k: int|
                0 <= k < r@.len() ==> (#[trigger] r@[k]).0 < data_items@.len() && item_matches(
                    data_items@[r@[k].0 as int],
                    *filters,
                )
            &&& forall|k1: int, k2: int|
                0 <= k1 < k2 < r@.len() ==> (#[trigger] r@[k1]).0 < (#[trigger] r@[k2]).0
            &&& forall|idx: int|
                0 <= idx < data_items@.len() && item_matches(#[trigger] data_items@[idx], *filters)
                    ==> exists|k: int| 0 <= k < r@.len() && (#[trigger] r@[k]).0 == idx
            &&& forall|k: int, j: int|
                0 <= k < r@.len() && 0 <= j < r@[k].1@.len() ==> (#[trigger] r@[k].1@[j])
                    < data_items@[r@[k].0 as int].1@.len() && accel_matches(
                    data_items@[r@[k].0 as int].1@[r@[k].1@[j] as int],
                    *filters,
                )
            &&& forall|k: int, j1: int, j2: int|
                0 <= k < r@.len() && 0 <= j1 < j2 < r@[k].1@.len() ==> (#[trigger] r@[k].1@[j1])
                    < (#[trigger] r@[k].1@[j2])
            &&& forall|k: int, aj: int|
                0 <= k < r@.len() && 0 <= aj < data_items@[(#[trigger] r@[k]).0 as int].1@.len()
                    && accel_matches(#[trigger] data_items@[r@[k].0 as int].1@[aj], *filters)
                    ==> r@[k].1@.contains(aj as usize)
        },
{
    let n = data_items.len();
    let mut out: Vec<(usize, Vec<usize>)> = Vec::new();
    let unrestricted = filters.precisions.len() == 0 && filters.base_series.len() == 0
        && filters.base_accel.len() == 0 && filters.m_values.len() == 0
        && filters.accel_params.len() == 0 && filters.series_params.len() == 0;
    if unrestricted {
        let mut i: usize = 0;
        while i < n
            invariant
                0 <= i <= n,
                n == data_items@.len(),
                out@.len() == i,
                forall|k: int|
                    0 <= k < i ==> (#[trigger] out@[k]).0 == k && out@[k].1@.len()
                        == data_items@[k].1@.len() && (forall|j: int|
                        0 <= j < out@[k].1@.len() ==> (#[trigger] out@[k].1@[j]) == j),
            decreases n - i,
        {
            let m = data_items[i].1.len();
            let mut all: Vec<usize> = Vec::new();
            let mut j: usize = 0;
            while j < m
                invariant
                    0 <= j <= m,
                    all@.len() == j,
                    forall|q: int| 0 <= q < j ==> (#[trigger] all@[q]) == q,
                decreases m - j,
            {
                all.push(j);
                j = j + 1;
            }
            out.push((i, all));
            i = i + 1;
        }
        return out;
    }
    let mut i: usize = 0;
    while i < n
        invariant
            0 <= i <= n,
            n == data_items@.len(),
            !no_filters(*filters),
            forall|k: int|
                0 <= k < out@.len() ==> (#[trigger] out@[k]).0 < i && item_matches(
                    data_items@[out@[k].0 as int],
                    *filters,
                ),
            forall|k1: int, k2: int|
                0 <= k1 < k2 < out@.len() ==> (#[trigger] out@[k1]).0 < (#[trigger] out@[k2]).0,
            forall|idx: int|
                0 <= idx < i && item_matches(#[trigger] data_items@[idx], *filters) ==> exists|
                    k: int,
                |
                    0 <= k < out@.len() && (#[trigger] out@[k]).0 == idx,
            forall|k: int, j: int|
                0 <= k < out@.len() && 0 <= j < out@[k].1@.len() ==> (#[trigger] out@[k].1@[j])
                    < data_items@[out@[k].0 as int].1@.len() && accel_matches(
                    data_items@[out@[k].0 as int].1@[out@[k].1@[j] as int],
                    *filters,
                ),
            forall|k: int, j1: int, j2: int|
                0 <= k < out@.len() && 0 <= j1 < j2 < out@[k].1@.len()
                    ==> (#[trigger] out@[k].1@[j1]) < (#[trigger] out@[k].1@[j2]),
            forall|k: int, aj: int|
                0 <= k < out@.len() && 0 <= aj < data_items@[(#[trigger] out@[k]).0 as int].1@.len()
                    && accel_matches(#[trigger] data_items@[out@[k].0 as int].1@[aj], *filters)
                    ==> out@[k].1@.contains(aj as usize),
        decreases n - i,
    {
        let item = &data_items[i];
        if matches_series(&item.0, filters) {
            let m = item.1.len();
            let mut sel: Vec<usize> = Vec::new();
            let mut j: usize = 0;
            while j < m
                invariant
                    0 <= j <= m,
                    m == item.1@.len(),
                    item == &data_items@[i as int],
                    0 <= i < data_items@.len(),
                    forall|q: int|
                        0 <= q < sel@.len() ==> (#[trigger] sel@[q]) < j && accel_matches(
                            item.1@[sel@[q] as int],
                            *filters,
                        ),
                    forall|q1: int, q2: int|
                        0 <= q1 < q2 < sel@.len() ==> (#[trigger] sel@[q1]) < (#[trigger] sel@[q2]),
                    forall|aj: int|
                        0 <= aj < j && accel_matches(#[trigger] item.1@[aj], *filters)
                            ==> sel@.contains(aj as usize),
                decreases m - j,
            {
                let ghost pre = sel@;
                let did = matches_accel(&item.1[j], filters);
                if did {
                    sel.push(j);
                    proof {
                        assert(sel@[sel@.len() - 1] == j);
                    }
                }
                proof {
                    assert forall|aj: int|
                        0 <= aj < j + 1 && accel_matches(#[trigger] item.1@[aj], *filters)
                            implies sel@.contains(aj as usize) by {
                        if aj < j {
                            let q = choose|q: int| 0 <= q < pre.len() && pre[q] == aj as usize;
                            assert(sel@[q] == aj as usize);
                        } else {
                            assert(sel@[sel@.len() - 1] == j);
                        }
                    }
                }
                j = j + 1;
            }
            if sel.len() > 0 {
                proof {
                    assert(accel_matches(item.1@[sel@[0] as int], *filters));
                    assert(item_matches(data_items@[i as int], *filters));
                }
                let ghost pre_out = out@;
                out.push((i, sel));
                proof {
                    assert(out@[out@.len() - 1].0 == i);
                    assert forall|idx: int|
                        0 <= idx < i + 1 && item_matches(#[trigger] data_items@[idx], *filters)
                            implies exists|k: int|
                            0 <= k < out@.len() && (#[trigger] out@[k]).0 == idx by {
                        if idx < i {
                            let k = choose|k: int|
                                0 <= k < pre_out.len() && (#[trigger] pre_out[k]).0 == idx;
                            assert(out@[k].0 == idx);
                        } else {
                            assert(out@[out@.len() - 1].0 == idx);
                        }
                    }
                }
            } else {
                proof {
                    if item_matches(data_items@[i as int], *filters) {
                        let j2 = choose|j2: int|
                            0 <= j2 < item.1@.len() && accel_matches(
                                #[trigger] item.1@[j2],
                                *filters,
                            );
                        assert(sel@.contains(j2 as usize));
                    }
                }
            }
        } else {
            proof {
                assert(!item_matches(data_items@[i as int], *filters));
            }
        }
        i = i + 1;
    }
    out
}

} // verus!

verus! {

// ---------------------------------------------------------------------------
// Deriving the offerable filters from decoded data
// ---------------------------------------------------------------------------

/// Some entry's series carries this precision.
pub open spec fn precision_occurs(entries: Seq<SeriesData>, x: Seq<char>) -> bool {
    exists|i: int| 0 <= i < entries.len() && (#[trigger] entries[i]).0.precision@ == x
}

fn collect_precisions(entries: &Vec<SeriesData>) -> (r: Vec<String>)
    ensures
        uniq_strs(r@),
        forall|i: int|
            0 <= i < entries@.len() ==> has_str(r@, (#[trigger] entries@[i]).0.precision@),
        forall|k: int| 0 <= k < r@.len() ==> precision_occurs(entries@, (#[trigger] r@[k])@),
{
    let n = entries.len();
    let mut out: Vec<String> = Vec::new();
    let mut i: usize = 0;
    while i < n
        invariant
            0 <= i <= n,
            n == entries@.len(),
            uniq_strs(out@),
            forall|i2: int|
                0 <= i2 < i ==> has_str(out@, (#[trigger] entries@[i2]).0.precision@),
            forall|k: int| 0 <= k < out@.len() ==> precision_occurs(entries@, (#[trigger] out@[k])@),
        decreases n - i,
    {
        let ghost pre = out@;
        insert_unique_str(&mut out, &entries[i].0.precision);
        proof {
            assert forall|k: int| 0 <= k < out@.len() implies precision_occurs(
                entries@,
                (#[trigger] out@[k])@,
            ) by {
                assert(has_str(out@, out@[k]@));
                if has_str(pre, out@[k]@) {
                    let k2 = choose|k2: int|
                        0 <= k2 < pre.len() && (#[trigger] pre[k2])@ == out@[k]@;
                    assert(precision_occurs(entries@, pre[k2]@));
                } else {
                    assert(entries@[i as int].0.precision@ == out@[k]@);
                }
            }
        }
        i = i + 1;
    }
    out
}

} // verus!

verus! {

/// Some entry's series carries this name.
pub open spec fn series_name_occurs(entries: Seq<SeriesData>, x: Seq<char>) -> bool {
    exists|i: int| 0 <= i < entries.len() && (#[trigger] entries[i]).0.name@ == x
}

fn collect_series_names(entries: &Vec<SeriesData>) -> (r: Vec<String>)
    ensures
        uniq_strs(r@),
        forall|i: int| 0 <= i < entries@.len() ==> has_str(r@, (#[trigger] entries@[i]).0.name@),
        forall|k: int| 0 <= k < r@.len() ==> series_name_occurs(entries@, (#[trigger] r@[k])@),
{
    let n = entries.len();
    let mut out: Vec<String> = Vec::new();
    let mut i: usize = 0;
    while i < n
        invariant
            0 <= i <= n,
            n == entries@.len(),
            uniq_strs(out@),
            forall|i2: int| 0 <= i2 < i ==> has_str(out@, (#[trigger] entries@[i2]).0.name@),
            forall|k: int|
                0 <= k < out@.len() ==> series_name_occurs(entries@, (#[trigger] out@[k])@),
        decreases n - i,
    {
        let ghost pre = out@;
        insert_unique_str(&mut out, &entries[i].0.name);
        proof {
            assert forall|k: int| 0 <= k < out@.len() implies series_name_occurs(
                entries@,
                (#[trigger] out@[k])@,
            ) by {
                assert(has_str(out@, out@[k]@));
                if has_str(pre, out@[k]@) {
                    let k2 = choose|k2: int|
                        0 <= k2 < pre.len() && (#[trigger] pre[k2])@ == out@[k]@;
                    assert(series_name_occurs(entries@, pre[k2]@));
                } else {
                    assert(entries@[i as int].0.name@ == out@[k]@);
                }
            }
        }
        i = i + 1;
    }
    out
}

/// Some entry's acceleration carries this method name.
pub open spec fn accel_name_occurs(entries: Seq<SeriesData>, x: Seq<char>) -> bool {
    exists|i: int, j: int|
        0 <= i < entries.len() && 0 <= j < entries[i].1@.len() && (#[trigger] entries[i].1@[j]).accel_info.name@ == x
}

fn collect_accel_names(entries: &Vec<SeriesData>) -> (r: Vec<String>)
    ensures
        uniq_strs(r@),
        forall|i: int, j: int|
            0 <= i < entries@.len() && 0 <= j < entries@[i].1@.len() ==> has_str(
                r@,
                (#[trigger] entries@[i].1@[j]).accel_info.name@,
            ),
        forall|k: int| 0 <= k < r@.len() ==> accel_name_occurs(entries@, (#[trigger] r@[k])@),
{
    let n = entries.len();
    let mut out: Vec<String> = Vec::new();
    let mut i: usize = 0;
    while i < n
        invariant
            0 <= i <= n,
            n == entries@.len(),
            uniq_strs(out@),
            forall|i2: int, j: int|
                0 <= i2 < i && 0 <= j < entries@[i2].1@.len() ==> has_str(
                    out@,
                    (#[trigger] entries@[i2].1@[j]).accel_info.name@,
                ),
            forall|k: int|
                0 <= k < out@.len() ==> accel_name_occurs(entries@, (#[trigger] out@[k])@),
        decreases n - i,
    {
        let accels = &entries[i].1;
        let m = accels.len();
        let mut j: usize = 0;
        while j < m
            invariant
                0 <= j <= m,
                0 <= i < entries@.len(),
                m == entries@[i as int].1@.len(),
                accels == &entries@[i as int].1,
                uniq_strs(out@),
                forall|i2: int, j2: int|
                    0 <= i2 < i && 0 <= j2 < entries@[i2].1@.len() ==> has_str(
                        out@,
                        (#[trigger] entries@[i2].1@[j2]).accel_info.name@,
                    ),
                forall|j2: int|
                    0 <= j2 < j ==> has_str(
                        out@,
                        (#[trigger] entries@[i as int].1@[j2]).accel_info.name@,
                    ),
                forall|k: int|
                    0 <= k < out@.len() ==> accel_name_occurs(entries@, (#[trigger] out@[k])@),
            decreases m - j,
        {
            let ghost pre = out@;
            insert_unique_str(&mut out, &accels[j].accel_info.name);
            proof {
                assert forall|k: int| 0 <= k < out@.len() implies accel_name_occurs(
                    entries@,
                    (#[trigger] out@[k])@,
                ) by {
                    assert(has_str(out@, out@[k]@));
                    if has_str(pre, out@[k]@) {
                        let k2 = choose|k2: int|
                            0 <= k2 < pre.len() && (#[trigger] pre[k2])@ == out@[k]@;
                        assert(accel_name_occurs(entries@, pre[k2]@));
                    } else {
                        assert((entries@[i as int].1@[j as int]).accel_info.name@ == out@[k]@);
                    }
                }
                assert forall|i2: int, j2: int|
                    0 <= i2 < i && 0 <= j2 < entries@[i2].1@.len() implies has_str(
                    out@,
                    (#[trigger] entries@[i2].1@[j2]).accel_info.name@,
                ) by {
                    assert(has_str(pre, entries@[i2].1@[j2].accel_info.name@));
                }
                assert forall|j2: int| 0 <= j2 < j + 1 implies has_str(
                    out@,
                    (#[trigger] entries@[i as int].1@[j2]).accel_info.name@,
                ) by {
                    if j2 < j {
                        assert(has_str(pre, entries@[i as int].1@[j2].accel_info.name@));
                    }
                }
            }
            j = j + 1;
        }
        i = i + 1;
    }
    out
}

/// Some entry's acceleration carries this order parameter.
pub open spec fn m_value_occurs(entries: Seq<SeriesData>, x: i32) -> bool {
    exists|i: int, j: int|
        0 <= i < entries.len() && 0 <= j < entries[i].1@.len() && (#[trigger] entries[i].1@[j]).accel_info.m_value == x
}

fn collect_m_values(entries: &Vec<SeriesData>) -> (r: Vec<i32>)
    ensures
        forall|a: int, b: int|
            0 <= a < r@.len() && 0 <= b < r@.len() && r@[a] == r@[b] ==> a == b,
        forall|i: int, j: int|
            0 <= i < entries@.len() && 0 <= j < entries@[i].1@.len() ==> r@.contains(
                (#[trigger] entries@[i].1@[j]).accel_info.m_value,
            ),
        forall|k: int| 0 <= k < r@.len() ==> m_value_occurs(entries@, #[trigger] r@[k]),
{
    let n = entries.len();
    let mut out: Vec<i32> = Vec::new();
    let mut i: usize = 0;
    while i < n
        invariant
            0 <= i <= n,
            n == entries@.len(),
            forall|a: int, b: int|
                0 <= a < out@.len() && 0 <= b < out@.len() && out@[a] == out@[b] ==> a == b,
            forall|i2: int, j2: int|
                0 <= i2 < i && 0 <= j2 < entries@[i2].1@.len() ==> out@.contains(
                    (#[trigger] entries@[i2].1@[j2]).accel_info.m_value,
                ),
            forall|k: int| 0 <= k < out@.len() ==> m_value_occurs(entries@, #[trigger] out@[k]),
        decreases n - i,
    {
        let accels = &entries[i].1;
        let m = accels.len();
        let mut j: usize = 0;
        while j < m
            invariant
                0 <= j <= m,
                0 <= i < entries@.len(),
                m == entries@[i as int].1@.len(),
                accels == &entries@[i as int].1,
                forall|a: int, b: int|
                    0 <= a < out@.len() && 0 <= b < out@.len() && out@[a] == out@[b] ==> a == b,
                forall|i2: int, j2: int|
                    0 <= i2 < i && 0 <= j2 < entries@[i2].1@.len() ==> out@.contains(
                        (#[trigger] entries@[i2].1@[j2]).accel_info.m_value,
                    ),
                forall|j2: int|
                    0 <= j2 < j ==> out@.contains(
                        (#[trigger] entries@[i as int].1@[j2]).accel_info.m_value,
                    ),
                forall|k: int| 0 <= k < out@.len() ==> m_value_occurs(entries@, #[trigger] out@[k]),
            decreases m - j,
        {
            let ghost pre = out@;
            insert_unique_i32(&mut out, accels[j].accel_info.m_value);
            proof {
                assert forall|k: int| 0 <= k < out@.len() implies m_value_occurs(
                    entries@,
                    #[trigger] out@[k],
                ) by {
                    assert(out@.contains(out@[k]));
                    if pre.contains(out@[k]) {
                        let k2 = choose|k2: int| 0 <= k2 < pre.len() && pre[k2] == out@[k];
                        assert(m_value_occurs(entries@, pre[k2]));
                    } else {
                        assert((entries@[i as int].1@[j as int]).accel_info.m_value == out@[k]);
                    }
                }
                assert forall|i2: int, j2: int|
                    0 <= i2 < i && 0 <= j2 < entries@[i2].1@.len() implies out@.contains(
                    (#[trigger] entries@[i2].1@[j2]).accel_info.m_value,
                ) by {
                    assert(pre.contains(entries@[i2].1@[j2].accel_info.m_value));
                }
                assert forall|j2: int| 0 <= j2 < j + 1 implies out@.contains(
                    (#[trigger] entries@[i as int].1@[j2]).accel_info.m_value,
                ) by {
                    if j2 < j {
                        assert(pre.contains(entries@[i as int].1@[j2].accel_info.m_value));
                    }
                }
            }
            j = j + 1;
        }
        i = i + 1;
    }
    out
}

} // verus!

verus! {

/// Some entry's series argument bag holds this `(key, value)` pair.
pub open spec fn series_arg_occurs(entries: Seq<SeriesData>, k: Seq<char>, v: Seq<char>) -> bool {
    exists|i: int, e: int|
        0 <= i < entries.len() && 0 <= e < entries[i].0.arguments@.len() && (
        #[trigger] entries[i].0.arguments@[e]) == (k, v)
}

fn collect_series_params(entries: &Vec<SeriesData>) -> (r: Vec<(String, Vec<String>)>)
    ensures
        uniq_keys(r@),
        uniq_vals(r@),
        forall|i: int, e: int|
            0 <= i < entries@.len() && 0 <= e < entries@[i].0.arguments@.len() ==> pv_has(
                r@,
                (#[trigger] entries@[i].0.arguments@[e]).0,
                entries@[i].0.arguments@[e].1,
            ),
        forall|p: int, q: int|
            0 <= p < r@.len() && 0 <= q < r@[p].1@.len() ==> series_arg_occurs(
                entries@,
                r@[p].0@,
                ((#[trigger] r@[p].1@[q]))@,
            ),
{
    let n = entries.len();
    let mut params: Vec<(String, Vec<String>)> = Vec::new();
    let mut i: usize = 0;
    while i < n
        invariant
            0 <= i <= n,
            n == entries@.len(),
            uniq_keys(params@),
            uniq_vals(params@),
            forall|i2: int, e2: int|
                0 <= i2 < i && 0 <= e2 < entries@[i2].0.arguments@.len() ==> pv_has(
                    params@,
                    (#[trigger] entries@[i2].0.arguments@[e2]).0,
                    entries@[i2].0.arguments@[e2].1,
                ),
            forall|p: int, q: int|
                0 <= p < params@.len() && 0 <= q < params@[p].1@.len() ==> series_arg_occurs(
                    entries@,
                    params@[p].0@,
                    ((#[trigger] params@[p].1@[q]))@,
                ),
        decreases n - i,
    {
        let args = &entries[i].0.arguments.entries;
        let m = args.len();
        let mut e: usize = 0;
        while e < m
            invariant
                0 <= e <= m,
                0 <= i < entries@.len(),
                m == entries@[i as int].0.arguments@.len(),
                args == &entries@[i as int].0.arguments.entries,
                uniq_keys(params@),
                uniq_vals(params@),
                forall|i2: int, e2: int|
                    0 <= i2 < i && 0 <= e2 < entries@[i2].0.arguments@.len() ==> pv_has(
                        params@,
                        (#[trigger] entries@[i2].0.arguments@[e2]).0,
                        entries@[i2].0.arguments@[e2].1,
                    ),
                forall|e2: int|
                    0 <= e2 < e ==> pv_has(
                        params@,
                        (#[trigger] entries@[i as int].0.arguments@[e2]).0,
                        entries@[i as int].0.arguments@[e2].1,
                    ),
                forall|p: int, q: int|
                    0 <= p < params@.len() && 0 <= q < params@[p].1@.len() ==> series_arg_occurs(
                        entries@,
                        params@[p].0@,
                        ((#[trigger] params@[p].1@[q]))@,
                    ),
            decreases m - e,
        {
            proof {
                assert(entries@[i as int].0.arguments@[e as int] == (
                    args@[e as int].0@,
                    args@[e as int].1@,
                ));
            }
            let ghost pre = params@;
            let pair = &args[e];
            add_param_entry(&mut params, &pair.0, &pair.1);
            proof {
                assert forall|i2: int, e2: int|
                    0 <= i2 < i && 0 <= e2 < entries@[i2].0.arguments@.len() implies pv_has(
                    params@,
                    (#[trigger] entries@[i2].0.arguments@[e2]).0,
                    entries@[i2].0.arguments@[e2].1,
                ) by {
                    assert(pv_has(
                        pre,
                        entries@[i2].0.arguments@[e2].0,
                        entries@[i2].0.arguments@[e2].1,
                    ));
                }
                assert forall|e2: int| 0 <= e2 < e + 1 implies pv_has(
                    params@,
                    (#[trigger] entries@[i as int].0.arguments@[e2]).0,
                    entries@[i as int].0.arguments@[e2].1,
                ) by {
                    if e2 < e {
                        assert(pv_has(
                            pre,
                            entries@[i as int].0.arguments@[e2].0,
                            entries@[i as int].0.arguments@[e2].1,
                        ));
                    } else {
                        assert(pv_has(params@, pair.0@, pair.1@));
                    }
                }
                assert forall|p: int, q: int|
                    0 <= p < params@.len() && 0 <= q < params@[p].1@.len() implies series_arg_occurs(
                    entries@,
                    params@[p].0@,
                    ((#[trigger] params@[p].1@[q]))@,
                ) by {
                    assert(pv_has(params@, params@[p].0@, params@[p].1@[q]@)) by {
                        assert(has_str(params@[p].1@, params@[p].1@[q]@));
                    }
                    if pv_has(pre, params@[p].0@, params@[p].1@[q]@) {
                        let p2 = choose|p2: int|
                            0 <= p2 < pre.len() && (#[trigger] pre[p2]).0@ == params@[p].0@
                                && has_str(pre[p2].1@, params@[p].1@[q]@);
                        let q2 = choose|q2: int|
                            0 <= q2 < pre[p2].1@.len() && (#[trigger] pre[p2].1@[q2])@
                                == params@[p].1@[q]@;
                        assert(series_arg_occurs(entries@, pre[p2].0@, pre[p2].1@[q2]@));
                    } else {
                        assert(params@[p].0@ == pair.0@ && params@[p].1@[q]@ == pair.1@);
                        assert(entries@[i as int].0.arguments@[e as int] == (pair.0@, pair.1@));
                        assert(series_arg_occurs(entries@, pair.0@, pair.1@));
                    }
                }
            }
            e = e + 1;
        }
        i = i + 1;
    }
    params
}

/// Some entry's acceleration argument bag holds this `(key, value)` pair.
pub open spec fn accel_arg_occurs(entries: Seq<SeriesData>, k: Seq<char>, v: Seq<char>) -> bool {
    exists|i: int, j: int, e: int|
        0 <= i < entries.len() && 0 <= j < entries[i].1@.len() && 0 <= e
            < entries[i].1@[j].accel_info.additional_args@.len() && (
        #[trigger] entries[i].1@[j].accel_info.additional_args@[e]) == (k, v)
}

fn collect_accel_params(entries: &Vec<SeriesData>) -> (r: Vec<(String, Vec<String>)>)
    ensures
        uniq_keys(r@),
        uniq_vals(r@),
        forall|i: int, j: int, e: int|
            0 <= i < entries@.len() && 0 <= j < entries@[i].1@.len() && 0 <= e
                < entries@[i].1@[j].accel_info.additional_args@.len() ==> pv_has(
                r@,
                (#[trigger] entries@[i].1@[j].accel_info.additional_args@[e]).0,
                entries@[i].1@[j].accel_info.additional_args@[e].1,
            ),
        forall|p: int, q: int|
            0 <= p < r@.len() && 0 <= q < r@[p].1@.len() ==> accel_arg_occurs(
                entries@,
                r@[p].0@,
                ((#[trigger] r@[p].1@[q]))@,
            ),
{
    let n = entries.len();
    let mut params: Vec<(String, Vec<String>)> = Vec::new();
    let mut i: usize = 0;
    while i < n
        invariant
            0 <= i <= n,
            n == entries@.len(),
            uniq_keys(params@),
            uniq_vals(params@),
            forall|i2: int, j2: int, e2: int|
                0 <= i2 < i && 0 <= j2 < entries@[i2].1@.len() && 0 <= e2
                    < entries@[i2].1@[j2].accel_info.additional_args@.len() ==> pv_has(
                    params@,
                    (#[trigger] entries@[i2].1@[j2].accel_info.additional_args@[e2]).0,
                    entries@[i2].1@[j2].accel_info.additional_args@[e2].1,
                ),
            forall|p: int, q: int|
                0 <= p < params@.len() && 0 <= q < params@[p].1@.len() ==> accel_arg_occurs(
                    entries@,
                    params@[p].0@,
                    ((#[trigger] params@[p].1@[q]))@,
                ),
        decreases n - i,
    {
        let accels = &entries[i].1;
        let na = accels.len();
        let mut j: usize = 0;
        while j < na
            invariant
                0 <= j <= na,
                0 <= i < entries@.len(),
                na == entries@[i as int].1@.len(),
                accels == &entries@[i as int].1,
                uniq_keys(params@),
                uniq_vals(params@),
                forall|i2: int, j2: int, e2: int|
                    0 <= i2 < i && 0 <= j2 < entries@[i2].1@.len() && 0 <= e2
                        < entries@[i2].1@[j2].accel_info.additional_args@.len() ==> pv_has(
                        params@,
                        (#[trigger] entries@[i2].1@[j2].accel_info.additional_args@[e2]).0,
                        entries@[i2].1@[j2].accel_info.additional_args@[e2].1,
                    ),
                forall|j2: int, e2: int|
                    0 <= j2 < j && 0 <= e2
                        < entries@[i as int].1@[j2].accel_info.additional_args@.len() ==> pv_has(
                        params@,
                        (#[trigger] entries@[i as int].1@[j2].accel_info.additional_args@[e2]).0,
                        entries@[i as int].1@[j2].accel_info.additional_args@[e2].1,
                    ),
                forall|p: int, q: int|
                    0 <= p < params@.len() && 0 <= q < params@[p].1@.len() ==> accel_arg_occurs(
                        entries@,
                        params@[p].0@,
                        ((#[trigger] params@[p].1@[q]))@,
                    ),
            decreases na - j,
        {
            let args = &accels[j].accel_info.additional_args.entries;
            let m = args.len();
            let mut e: usize = 0;
            while e < m
                invariant
                    0 <= e <= m,
                    0 <= i < entries@.len(),
                    0 <= j < entries@[i as int].1@.len(),
                    m == entries@[i as int].1@[j as int].accel_info.additional_args@.len(),
                    args == &entries@[i as int].1@[j as int].accel_info.additional_args.entries,
                    uniq_keys(params@),
                    uniq_vals(params@),
                    forall|i2: int, j2: int, e2: int|
                        0 <= i2 < i && 0 <= j2 < entries@[i2].1@.len() && 0 <= e2
                            < entries@[i2].1@[j2].accel_info.additional_args@.len() ==> pv_has(
                            params@,
                            (#[trigger] entries@[i2].1@[j2].accel_info.additional_args@[e2]).0,
                            entries@[i2].1@[j2].accel_info.additional_args@[e2].1,
                        ),
                    forall|j2: int, e2: int|
                        0 <= j2 < j && 0 <= e2
                            < entries@[i as int].1@[j2].accel_info.additional_args@.len()
                            ==> pv_has(
                            params@,
                            (#[trigger] entries@[i as int].1@[j2].accel_info.additional_args@[e2]).0,
                            entries@[i as int].1@[j2].accel_info.additional_args@[e2].1,
                        ),
                    forall|e2: int|
                        0 <= e2 < e ==> pv_has(
                            params@,
                            (#[trigger] entries@[i as int].1@[j as int].accel_info.additional_args@[e2]).0,
                            entries@[i as int].1@[j as int].accel_info.additional_args@[e2].1,
                        ),
                    forall|p: int, q: int|
                        0 <= p < params@.len() && 0 <= q < params@[p].1@.len()
                            ==> accel_arg_occurs(
                            entries@,
                            params@[p].0@,
                            ((#[trigger] params@[p].1@[q]))@,
                        ),
                decreases m - e,
            {
                proof {
                    assert(entries@[i as int].1@[j as int].accel_info.additional_args@[e as int]
                        == (args@[e as int].0@, args@[e as int].1@));
                }
                let ghost pre = params@;
                let pair = &args[e];
                add_param_entry(&mut params, &pair.0, &pair.1);
                proof {
                    assert forall|i2: int, j2: int, e2: int|
                        0 <= i2 < i && 0 <= j2 < entries@[i2].1@.len() && 0 <= e2
                            < entries@[i2].1@[j2].accel_info.additional_args@.len() implies pv_has(
                        params@,
                        (#[trigger] entries@[i2].1@[j2].accel_info.additional_args@[e2]).0,
                        entries@[i2].1@[j2].accel_info.additional_args@[e2].1,
                    ) by {
                        assert(pv_has(
                            pre,
                            entries@[i2].1@[j2].accel_info.additional_args@[e2].0,
                            entries@[i2].1@[j2].accel_info.additional_args@[e2].1,
                        ));
                    }
                    assert forall|j2: int, e2: int|
                        0 <= j2 < j && 0 <= e2
                            < entries@[i as int].1@[j2].accel_info.additional_args@.len()
                            implies pv_has(
                        params@,
                        (#[trigger] entries@[i as int].1@[j2].accel_info.additional_args@[e2]).0,
                        entries@[i as int].1@[j2].accel_info.additional_args@[e2].1,
                    ) by {
                        assert(pv_has(
                            pre,
                            entries@[i as int].1@[j2].accel_info.additional_args@[e2].0,
                            entries@[i as int].1@[j2].accel_info.additional_args@[e2].1,
                        ));
                    }
                    assert forall|e2: int| 0 <= e2 < e + 1 implies pv_has(
                        params@,
                        (#[trigger] entries@[i as int].1@[j as int].accel_info.additional_args@[e2]).0,
                        entries@[i as int].1@[j as int].accel_info.additional_args@[e2].1,
                    ) by {
                        if e2 < e {
                            assert(pv_has(
                                pre,
                                entries@[i as int].1@[j as int].accel_info.additional_args@[e2].0,
                                entries@[i as int].1@[j as int].accel_info.additional_args@[e2].1,
                            ));
                        } else {
                            assert(pv_has(params@, pair.0@, pair.1@));
                        }
                    }
                    assert forall|p: int, q: int|
                        0 <= p < params@.len() && 0 <= q < params@[p].1@.len()
                            implies accel_arg_occurs(
                        entries@,
                        params@[p].0@,
                        ((#[trigger] params@[p].1@[q]))@,
                    ) by {
                        assert(pv_has(params@, params@[p].0@, params@[p].1@[q]@)) by {
                            assert(has_str(params@[p].1@, params@[p].1@[q]@));
                        }
                        if pv_has(pre, params@[p].0@, params@[p].1@[q]@) {
                            let p2 = choose|p2: int|
                                0 <= p2 < pre.len() && (#[trigger] pre[p2]).0@ == params@[p].0@
                                    && has_str(pre[p2].1@, params@[p].1@[q]@);
                            let q2 = choose|q2: int|
                                0 <= q2 < pre[p2].1@.len() && (#[trigger] pre[p2].1@[q2])@
                                    == params@[p].1@[q]@;
                            assert(accel_arg_occurs(entries@, pre[p2].0@, pre[p2].1@[q2]@));
                        } else {
                            assert(params@[p].0@ == pair.0@ && params@[p].1@[q]@ == pair.1@);
                            assert(entries@[i as int].1@[j as int].accel_info.additional_args@[e as int]
                                == (pair.0@, pair.1@));
                            assert(accel_arg_occurs(entries@, pair.0@, pair.1@));
                        }
                    }
                }
                e = e + 1;
            }
            j = j + 1;
        }
        i = i + 1;
    }
    params
}

} // verus!

verus! {

fn clone_strings(v: &Vec<String>) -> (r: Vec<String>)
    ensures
        r@ =~= v@,
{
    let n = v.len();
    let mut out: Vec<String> = Vec::new();
    let mut i: usize = 0;
    while i < n
        invariant
            0 <= i <= n,
            n == v@.len(),
            out@.len() == i,
            forall|j: int| 0 <= j < i ==> out@[j] == v@[j],
        decreases n - i,
    {
        out.push(v[i].clone());
        i = i + 1;
    }
    out
}

/// The parameter map holds an entry with this key and exactly these
/// values, and the values offer a real choice.
pub open spec fn param_entry_from(
    ps: Seq<(String, Vec<String>)>,
    key: Seq<char>,
    vals: Seq<String>,
) -> bool {
    exists|p: int|
        0 <= p < ps.len() && (#[trigger] ps[p]).0@ == key && ps[p].1@ == vals && ps[p].1@.len()
            >= 2
}

/// The kept map holds an entry with this key and exactly these values.
pub open spec fn kept_entry(
    rs: Seq<(String, Vec<String>)>,
    key: Seq<char>,
    vals: Seq<String>,
) -> bool {
    exists|k: int| 0 <= k < rs.len() && (#[trigger] rs[k]).0@ == key && rs[k].1@ == vals
}

/// Keep only the parameters that offer a real choice: those with at least
/// two collected values.
fn retain_multi(params: &Vec<(String, Vec<String>)>) -> (r: Vec<(String, Vec<String>)>)
    requires
        uniq_keys(params@),
        uniq_vals(params@),
    ensures
        forall|k: int|
            #![trigger r@[k]]
            0 <= k < r@.len() ==> param_entry_from(params@, r@[k].0@, r@[k].1@),
        forall|p: int|
            #![trigger params@[p]]
            0 <= p < params@.len() && params@[p].1@.len() >= 2 ==> kept_entry(
                r@,
                params@[p].0@,
                params@[p].1@,
            ),
{
    let n = params.len();
    let mut out: Vec<(String, Vec<String>)> = Vec::new();
    let mut i: usize = 0;
    while i < n
        invariant
            0 <= i <= n,
            n == params@.len(),
            forall|k: int|
                #![trigger out@[k]]
                0 <= k < out@.len() ==> param_entry_from(params@, out@[k].0@, out@[k].1@),
            forall|p: int|
                #![trigger params@[p]]
                0 <= p < i && params@[p].1@.len() >= 2 ==> kept_entry(
                    out@,
                    params@[p].0@,
                    params@[p].1@,
                ),
        decreases n - i,
    {
        let entry = &params[i];
        if entry.1.len() >= 2 {
            let ghost pre = out@;
            let key = entry.0.clone();
            let vals = clone_strings(&entry.1);
            out.push((key, vals));
            proof {
                assert(out@[out@.len() - 1].0@ == params@[i as int].0@);
                assert(out@[out@.len() - 1].1@ == params@[i as int].1@);
                assert forall|k: int| #![trigger out@[k]] 0 <= k < out@.len()
                    implies param_entry_from(params@, out@[k].0@, out@[k].1@) by {
                    if k < pre.len() {
                        assert(out@[k] == pre[k]);
                        assert(param_entry_from(params@, pre[k].0@, pre[k].1@));
                    } else {
                        assert(param_entry_from(params@, params@[i as int].0@, params@[i as int].1@));
                    }
                }
                assert forall|p: int|
                    #![trigger params@[p]]
                    0 <= p < i + 1 && params@[p].1@.len() >= 2 implies kept_entry(
                    out@,
                    params@[p].0@,
                    params@[p].1@,
                ) by {
                    if p < i {
                        let k = choose|k: int|
                            0 <= k < pre.len() && (#[trigger] pre[k]).0@ == params@[p].0@
                                && pre[k].1@ == params@[p].1@;
                        assert(out@[k].0@ == params@[p].0@ && out@[k].1@ == params@[p].1@);
                    } else {
                        assert(out@[out@.len() - 1].0@ == params@[p].0@);
                    }
                }
            }
        }
        i = i + 1;
    }
    out
}

/// Two distinct members of a sound collected set witness two differing
/// occurrences; at most one collected value forces all occurrences equal.
proof fn lemma_precisions_category(entries: Seq<SeriesData>, c: Seq<String>, kept: Seq<String>)
    requires
        uniq_strs(c),
        forall|i: int| 0 <= i < entries.len() ==> has_str(c, (#[trigger] entries[i]).0.precision@),
        forall|k: int| 0 <= k < c.len() ==> precision_occurs(entries, (#[trigger] c[k])@),
        kept.len() > 0 ==> kept == c && c.len() >= 2,
        kept.len() == 0 ==> c.len() <= 1,
    ensures
        (kept.len() > 0) == (exists|i: int, j: int|
            0 <= i < entries.len() && 0 <= j < entries.len() && (
            #[trigger] entries[i]).0.precision@ != (#[trigger] entries[j]).0.precision@),
        kept.len() > 0 ==> (forall|i: int|
            0 <= i < entries.len() ==> has_str(kept, (#[trigger] entries[i]).0.precision@)) && (
        forall|k: int| 0 <= k < kept.len() ==> precision_occurs(entries, (#[trigger] kept[k])@)),
{
    if kept.len() > 0 {
        assert(c[0]@ != c[1]@);
        let i0 = choose|i: int|
            0 <= i < entries.len() && (#[trigger] entries[i]).0.precision@ == c[0]@;
        let i1 = choose|i: int|
            0 <= i < entries.len() && (#[trigger] entries[i]).0.precision@ == c[1]@;
        assert(entries[i0].0.precision@ != entries[i1].0.precision@);
    } else {
        assert forall|i: int, j: int|
            0 <= i < entries.len() && 0 <= j < entries.len() implies (
        #[trigger] entries[i]).0.precision@ == (#[trigger] entries[j]).0.precision@ by {
            let a = choose|a: int|
                0 <= a < c.len() && (#[trigger] c[a])@ == entries[i].0.precision@;
            let b = choose|b: int|
                0 <= b < c.len() && (#[trigger] c[b])@ == entries[j].0.precision@;
            assert(a == 0 && b == 0);
        }
    }
}

/// As for precisions, for the series names.
proof fn lemma_series_names_category(entries: Seq<SeriesData>, c: Seq<String>, kept: Seq<String>)
    requires
        uniq_strs(c),
        forall|i: int| 0 <= i < entries.len() ==> has_str(c, (#[trigger] entries[i]).0.name@),
        forall|k: int| 0 <= k < c.len() ==> series_name_occurs(entries, (#[trigger] c[k])@),
        kept.len() > 0 ==> kept == c && c.len() >= 2,
        kept.len() == 0 ==> c.len() <= 1,
    ensures
        (kept.len() > 0) == (exists|i: int, j: int|
            0 <= i < entries.len() && 0 <= j < entries.len() && (#[trigger] entries[i]).0.name@
                != (#[trigger] entries[j]).0.name@),
        kept.len() > 0 ==> (forall|i: int|
            0 <= i < entries.len() ==> has_str(kept, (#[trigger] entries[i]).0.name@)) && (forall|
            k: int,
        | 0 <= k < kept.len() ==> series_name_occurs(entries, (#[trigger] kept[k])@)),
{
    if kept.len() > 0 {
        assert(c[0]@ != c[1]@);
        let i0 = choose|i: int| 0 <= i < entries.len() && (#[trigger] entries[i]).0.name@ == c[0]@;
        let i1 = choose|i: int| 0 <= i < entries.len() && (#[trigger] entries[i]).0.name@ == c[1]@;
        assert(entries[i0].0.name@ != entries[i1].0.name@);
    } else {
        assert forall|i: int, j: int|
            0 <= i < entries.len() && 0 <= j < entries.len() implies (
        #[trigger] entries[i]).0.name@ == (#[trigger] entries[j]).0.name@ by {
            let a = choose|a: int| 0 <= a < c.len() && (#[trigger] c[a])@ == entries[i].0.name@;
            let b = choose|b: int| 0 <= b < c.len() && (#[trigger] c[b])@ == entries[j].0.name@;
            assert(a == 0 && b == 0);
        }
    }
}

/// As for precisions, for the acceleration method names.
proof fn lemma_accel_names_category(entries: Seq<SeriesData>, c: Seq<String>, kept: Seq<String>)
    requires
        uniq_strs(c),
        forall|i: int, j: int|
            0 <= i < entries.len() && 0 <= j < entries[i].1@.len() ==> has_str(
                c,
                (#[trigger] entries[i].1@[j]).accel_info.name@,
            ),
        forall|k: int| 0 <= k < c.len() ==> accel_name_occurs(entries, (#[trigger] c[k])@),
        kept.len() > 0 ==> kept == c && c.len() >= 2,
        kept.len() == 0 ==> c.len() <= 1,
    ensures
        (kept.len() > 0) == (exists|i: int, j: int, i2: int, j2: int|
            0 <= i < entries.len() && 0 <= j < entries[i].1@.len() && 0 <= i2 < entries.len() && 0
                <= j2 < entries[i2].1@.len() && (#[trigger] entries[i].1@[j]).accel_info.name@ != (
            #[trigger] entries[i2].1@[j2]).accel_info.name@),
        kept.len() > 0 ==> (forall|i: int, j: int|
            0 <= i < entries.len() && 0 <= j < entries[i].1@.len() ==> has_str(
                kept,
                (#[trigger] entries[i].1@[j]).accel_info.name@,
            )) && (forall|k: int|
            0 <= k < kept.len() ==> accel_name_occurs(entries, (#[trigger] kept[k])@)),
{
    if kept.len() > 0 {
        assert(c[0]@ != c[1]@);
        let (i0, j0) = choose|i: int, j: int|
            0 <= i < entries.len() && 0 <= j < entries[i].1@.len() && (
            #[trigger] entries[i].1@[j]).accel_info.name@ == c[0]@;
        let (i1, j1) = choose|i: int, j: int|
            0 <= i < entries.len() && 0 <= j < entries[i].1@.len() && (
            #[trigger] entries[i].1@[j]).accel_info.name@ == c[1]@;
        assert(entries[i0].1@[j0].accel_info.name@ != entries[i1].1@[j1].accel_info.name@);
    } else {
        assert forall|i: int, j: int, i2: int, j2: int|
            0 <= i < entries.len() && 0 <= j < entries[i].1@.len() && 0 <= i2 < entries.len() && 0
                <= j2 < entries[i2].1@.len() implies (
        #[trigger] entries[i].1@[j]).accel_info.name@ == (
        #[trigger] entries[i2].1@[j2]).accel_info.name@ by {
            let a = choose|a: int|
                0 <= a < c.len() && (#[trigger] c[a])@ == entries[i].1@[j].accel_info.name@;
            let b = choose|b: int|
                0 <= b < c.len() && (#[trigger] c[b])@ == entries[i2].1@[j2].accel_info.name@;
            assert(a == 0 && b == 0);
        }
    }
}

/// As for the method names, for the order parameters.
proof fn lemma_m_values_category(entries: Seq<SeriesData>, c: Seq<i32>, kept: Seq<i32>)
    requires
        forall|a: int, b: int| 0 <= a < c.len() && 0 <= b < c.len() && c[a] == c[b] ==> a == b,
        forall|i: int, j: int|
            0 <= i < entries.len() && 0 <= j < entries[i].1@.len() ==> c.contains(
                (#[trigger] entries[i].1@[j]).accel_info.m_value,
            ),
        forall|k: int| 0 <= k < c.len() ==> m_value_occurs(entries, #[trigger] c[k]),
        kept.len() > 0 ==> kept == c && c.len() >= 2,
        kept.len() == 0 ==> c.len() <= 1,
    ensures
        (kept.len() > 0) == (exists|i: int, j: int, i2: int, j2: int|
            0 <= i < entries.len() && 0 <= j < entries[i].1@.len() && 0 <= i2 < entries.len() && 0
                <= j2 < entries[i2].1@.len() && (#[trigger] entries[i].1@[j]).accel_info.m_value
                != (#[trigger] entries[i2].1@[j2]).accel_info.m_value),
        kept.len() > 0 ==> (forall|i: int, j: int|
            0 <= i < entries.len() && 0 <= j < entries[i].1@.len() ==> kept.contains(
                (#[trigger] entries[i].1@[j]).accel_info.m_value,
            )) && (forall|k: int|
            0 <= k < kept.len() ==> m_value_occurs(entries, #[trigger] kept[k])),
{
    if kept.len() > 0 {
        assert(c[0] != c[1]);
        let (i0, j0) = choose|i: int, j: int|
            0 <= i < entries.len() && 0 <= j < entries[i].1@.len() && (
            #[trigger] entries[i].1@[j]).accel_info.m_value == c[0];
        let (i1, j1) = choose|i: int, j: int|
            0 <= i < entries.len() && 0 <= j < entries[i].1@.len() && (
            #[trigger] entries[i].1@[j]).accel_info.m_value == c[1];
        assert(entries[i0].1@[j0].accel_info.m_value != entries[i1].1@[j1].accel_info.m_value);
    } else {
        assert forall|i: int, j: int, i2: int, j2: int|
            0 <= i < entries.len() && 0 <= j < entries[i].1@.len() && 0 <= i2 < entries.len() && 0
                <= j2 < entries[i2].1@.len() implies (
        #[trigger] entries[i].1@[j]).accel_info.m_value == (
        #[trigger] entries[i2].1@[j2]).accel_info.m_value by {
            let a = choose|a: int| 0 <= a < c.len() && c[a] == entries[i].1@[j].accel_info.m_value;
            let b = choose|b: int|
                0 <= b < c.len() && c[b] == entries[i2].1@[j2].accel_info.m_value;
            assert(a == 0 && b == 0);
        }
    }
}

fn offered_precisions(entries: &Vec<SeriesData>) -> (r: Vec<String>)
    ensures
        (r@.len() > 0) == (exists|i: int, j: int|
            0 <= i < entries@.len() && 0 <= j < entries@.len() && (
            #[trigger] entries@[i]).0.precision@ != (#[trigger] entries@[j]).0.precision@),
        r@.len() > 0 ==> (forall|i: int|
            0 <= i < entries@.len() ==> has_str(r@, (#[trigger] entries@[i]).0.precision@)) && (
        forall|k: int| 0 <= k < r@.len() ==> precision_occurs(entries@, (#[trigger] r@[k])@)),
{
    let collected = collect_precisions(entries);
    let ghost c = collected@;
    let kept = keep_multi_strs(collected);
    proof {
        lemma_precisions_category(entries@, c, kept@);
    }
    kept
}

fn offered_series_names(entries: &Vec<SeriesData>) -> (r: Vec<String>)
    ensures
        (r@.len() > 0) == (exists|i: int, j: int|
            0 <= i < entries@.len() && 0 <= j < entries@.len() && (#[trigger] entries@[i]).0.name@
                != (#[trigger] entries@[j]).0.name@),
        r@.len() > 0 ==> (forall|i: int|
            0 <= i < entries@.len() ==> has_str(r@, (#[trigger] entries@[i]).0.name@)) && (forall|
            k: int,
        | 0 <= k < r@.len() ==> series_name_occurs(entries@, (#[trigger] r@[k])@)),
{
    let collected = collect_series_names(entries);
    let ghost c = collected@;
    let kept = keep_multi_strs(collected);
    proof {
        lemma_series_names_category(entries@, c, kept@);
    }
    kept
}

fn offered_accel_names(entries: &Vec<SeriesData>) -> (r: Vec<String>)
    ensures
        (r@.len() > 0) == (exists|i: int, j: int, i2: int, j2: int|
            0 <= i < entries@.len() && 0 <= j < entries@[i].1@.len() && 0 <= i2 < entries@.len()
                && 0 <= j2 < entries@[i2].1@.len() && (
            #[trigger] entries@[i].1@[j]).accel_info.name@ != (
            #[trigger] entries@[i2].1@[j2]).accel_info.name@),
        r@.len() > 0 ==> (forall|i: int, j: int|
            0 <= i < entries@.len() && 0 <= j < entries@[i].1@.len() ==> has_str(
                r@,
                (#[trigger] entries@[i].1@[j]).accel_info.name@,
            )) && (forall|k: int|
            0 <= k < r@.len() ==> accel_name_occurs(entries@, (#[trigger] r@[k])@)),
{
    let collected = collect_accel_names(entries);
    let ghost c = collected@;
    let kept = keep_multi_strs(collected);
    proof {
        lemma_accel_names_category(entries@, c, kept@);
    }
    kept
}

fn offered_m_values(entries: &Vec<SeriesData>) -> (r: Vec<i32>)
    ensures
        (r@.len() > 0) == (exists|i: int, j: int, i2: int, j2: int|
            0 <= i < entries@.len() && 0 <= j < entries@[i].1@.len() && 0 <= i2 < entries@.len()
                && 0 <= j2 < entries@[i2].1@.len() && (
            #[trigger] entries@[i].1@[j]).accel_info.m_value != (
            #[trigger] entries@[i2].1@[j2]).accel_info.m_value),
        r@.len() > 0 ==> (forall|i: int, j: int|
            0 <= i < entries@.len() && 0 <= j < entries@[i].1@.len() ==> r@.contains(
                (#[trigger] entries@[i].1@[j]).accel_info.m_value,
            )) && (forall|k: int|
            0 <= k < r@.len() ==> m_value_occurs(entries@, #[trigger] r@[k])),
{
    let collected = collect_m_values(entries);
    let ghost c = collected@;
    let kept = keep_multi_i32s(collected);
    proof {
        lemma_m_values_category(entries@, c, kept@);
    }
    kept
}

fn offered_series_params(entries: &Vec<SeriesData>) -> (r: Vec<(String, Vec<String>)>)
    ensures
        forall|p: int, q: int|
            0 <= p < r@.len() && 0 <= q < r@[p].1@.len() ==> series_arg_occurs(
                entries@,
                r@[p].0@,
                (#[trigger] r@[p].1@[q])@,
            ),
        forall|p: int| 0 <= p < r@.len() ==> (#[trigger] r@[p]).1@.len() >= 2,
{
    let series_all = collect_series_params(entries);
    let kept = retain_multi(&series_all);
    proof {
        assert forall|p: int, q: int|
            0 <= p < kept@.len() && 0 <= q < kept@[p].1@.len() implies series_arg_occurs(
            entries@,
            kept@[p].0@,
            (#[trigger] kept@[p].1@[q])@,
        ) by {
            let p2 = choose|p2: int|
                0 <= p2 < series_all@.len() && (#[trigger] series_all@[p2]).0@ == kept@[p].0@
                    && series_all@[p2].1@ == kept@[p].1@ && series_all@[p2].1@.len() >= 2;
            assert(series_arg_occurs(entries@, series_all@[p2].0@, series_all@[p2].1@[q]@));
        }
        assert forall|p: int| 0 <= p < kept@.len() implies (#[trigger] kept@[p]).1@.len() >= 2 by {
            let p2 = choose|p2: int|
                0 <= p2 < series_all@.len() && (#[trigger] series_all@[p2]).0@ == kept@[p].0@
                    && series_all@[p2].1@ == kept@[p].1@ && series_all@[p2].1@.len() >= 2;
        }
    }
    kept
}

fn offered_accel_params(entries: &Vec<SeriesData>) -> (r: Vec<(String, Vec<String>)>)
    ensures
        forall|p: int, q: int|
            0 <= p < r@.len() && 0 <= q < r@[p].1@.len() ==> accel_arg_occurs(
                entries@,
                r@[p].0@,
                (#[trigger] r@[p].1@[q])@,
            ),
        forall|p: int| 0 <= p < r@.len() ==> (#[trigger] r@[p]).1@.len() >= 2,
{
    let accel_all = collect_accel_params(entries);
    let kept = retain_multi(&accel_all);
    proof {
        assert forall|p: int, q: int|
            0 <= p < kept@.len() && 0 <= q < kept@[p].1@.len() implies accel_arg_occurs(
            entries@,
            kept@[p].0@,
            (#[trigger] kept@[p].1@[q])@,
        ) by {
            let p2 = choose|p2: int|
                0 <= p2 < accel_all@.len() && (#[trigger] accel_all@[p2]).0@ == kept@[p].0@
                    && accel_all@[p2].1@ == kept@[p].1@ && accel_all@[p2].1@.len() >= 2;
            assert(accel_arg_occurs(entries@, accel_all@[p2].0@, accel_all@[p2].1@[q]@));
        }
        assert forall|p: int| 0 <= p < kept@.len() implies (#[trigger] kept@[p]).1@.len() >= 2 by {
            let p2 = choose|p2: int|
                0 <= p2 < accel_all@.len() && (#[trigger] accel_all@[p2]).0@ == kept@[p].0@
                    && accel_all@[p2].1@ == kept@[p].1@ && accel_all@[p2].1@.len() >= 2;
        }
    }
    kept
}

/// Derive the filters worth offering from decoded data: each category
/// holds exactly the distinct values that occur, and is dropped entirely
/// when it offers no real choice (fewer than two distinct values); each
/// parameter keeps exactly its occurring values under the same rule.
pub fn filterable(entries: &Vec<SeriesData>) -> (r: Filters)
    ensures
        (r.precisions@.len() > 0) == (exists|i: int, j: int|
            0 <= i < entries@.len() && 0 <= j < entries@.len() && (
            #[trigger] entries@[i]).0.precision@ != (#[trigger] entries@[j]).0.precision@),
        r.precisions@.len() > 0 ==> (forall|i: int|
            0 <= i < entries@.len() ==> has_str(
                r.precisions@,
                (#[trigger] entries@[i]).0.precision@,
            )) && (forall|k: int|
            0 <= k < r.precisions@.len() ==> precision_occurs(
                entries@,
                (#[trigger] r.precisions@[k])@,
            )),
        (r.base_series@.len() > 0) == (exists|i: int, j: int|
            0 <= i < entries@.len() && 0 <= j < entries@.len() && (#[trigger] entries@[i]).0.name@
                != (#[trigger] entries@[j]).0.name@),
        r.base_series@.len() > 0 ==> (forall|i: int|
            0 <= i < entries@.len() ==> has_str(r.base_series@, (#[trigger] entries@[i]).0.name@))
            && (forall|k: int|
            0 <= k < r.base_series@.len() ==> series_name_occurs(
                entries@,
                (#[trigger] r.base_series@[k])@,
            )),
        (r.base_accel@.len() > 0) == (exists|i: int, j: int, i2: int, j2: int|
            0 <= i < entries@.len() && 0 <= j < entries@[i].1@.len() && 0 <= i2 < entries@.len()
                && 0 <= j2 < entries@[i2].1@.len() && (
            #[trigger] entries@[i].1@[j]).accel_info.name@ != (
            #[trigger] entries@[i2].1@[j2]).accel_info.name@),
        r.base_accel@.len() > 0 ==> (forall|i: int, j: int|
            0 <= i < entries@.len() && 0 <= j < entries@[i].1@.len() ==> has_str(
                r.base_accel@,
                (#[trigger] entries@[i].1@[j]).accel_info.name@,
            )) && (forall|k: int|
            0 <= k < r.base_accel@.len() ==> accel_name_occurs(
                entries@,
                (#[trigger] r.base_accel@[k])@,
            )),
        (r.m_values@.len() > 0) == (exists|i: int, j: int, i2: int, j2: int|
            0 <= i < entries@.len() && 0 <= j < entries@[i].1@.len() && 0 <= i2 < entries@.len()
                && 0 <= j2 < entries@[i2].1@.len() && (
            #[trigger] entries@[i].1@[j]).accel_info.m_value != (
            #[trigger] entries@[i2].1@[j2]).accel_info.m_value),
        r.m_values@.len() > 0 ==> (forall|i: int, j: int|
            0 <= i < entries@.len() && 0 <= j < entries@[i].1@.len() ==> r.m_values@.contains(
                (#[trigger] entries@[i].1@[j]).accel_info.m_value,
            )) && (forall|k: int|
            0 <= k < r.m_values@.len() ==> m_value_occurs(entries@, #[trigger] r.m_values@[k])),
        forall|p: int, q: int|
            0 <= p < r.series_params@.len() && 0 <= q < r.series_params@[p].1@.len()
                ==> series_arg_occurs(
                entries@,
                r.series_params@[p].0@,
                (#[trigger] r.series_params@[p].1@[q])@,
            ),
        forall|p: int| 0 <= p < r.series_params@.len() ==> (#[trigger] r.series_params@[p]).1@.len()
            >= 2,
        forall|p: int, q: int|
            0 <= p < r.accel_params@.len() && 0 <= q < r.accel_params@[p].1@.len()
                ==> accel_arg_occurs(
                entries@,
                r.accel_params@[p].0@,
                (#[trigger] r.accel_params@[p].1@[q])@,
            ),
        forall|p: int| 0 <= p < r.accel_params@.len() ==> (#[trigger] r.accel_params@[p]).1@.len()
            >= 2,
{
    Filters {
        precisions: offered_precisions(entries),
        base_series: offered_series_names(entries),
        base_accel: offered_accel_names(entries),
        m_values: offered_m_values(entries),
        accel_params: offered_accel_params(entries),
        series_params: offered_series_params(entries),
    }
}

/// An offered string category must hold at least two values; otherwise it
/// is dropped.
fn keep_multi_strs(v: Vec<String>) -> (r: Vec<String>)
    ensures
        r@.len() > 0 ==> r@ == v@ && v@.len() >= 2,
        r@.len() == 0 ==> v@.len() <= 1,
{
    if v.len() >= 2 {
        v
    } else {
        Vec::new()
    }
}

/// An offered integer category must hold at least two values; otherwise
/// it is dropped.
fn keep_multi_i32s(v: Vec<i32>) -> (r: Vec<i32>)
    ensures
        r@.len() > 0 ==> r@ == v@ && v@.len() >= 2,
        r@.len() == 0 ==> v@.len() <= 1,
{
    if v.len() >= 2 {
        v
    } else {
        Vec::new()
    }
}

} // verus!
