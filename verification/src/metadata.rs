use vstd::prelude::*;
use crate::error::DecodeError;
use crate::filters::{pv_has, uniq_keys, uniq_vals};
use crate::records::ArgMap;

verus! {

/// What the whole data set offers: every distinct precision, series name,
/// method name, order parameter, and per-parameter value set, as read
/// from the dedicated metadata queries.  Presentation ordering is the
/// consumer's concern.
#[derive(Debug, PartialEq, Eq)]
pub struct Metadata {
    pub precisions: Vec<String>,
    pub series_names: Vec<String>,
    pub accel_names: Vec<String>,
    pub m_values: Vec<i32>,
    pub accel_param_info: Vec<(String, Vec<String>)>,
    pub series_param_info: Vec<(String, Vec<String>)>,
}

/// Require every cell of a metadata column to be present.
///
/// The distinct-value queries never produce nulls; one anyway is reported
/// as a missing field under the column's name.
pub fn require_all_strings(name: &str, cells: &Vec<Option<String>>) -> (r: Result<
    Vec<String>,
    DecodeError,
>)
    ensures
        (r is Ok) == (forall|i: int| 0 <= i < cells@.len() ==> (#[trigger] cells@[i]) is Some),
        r matches Ok(v) ==> v@.len() == cells@.len() && (forall|i: int|
            0 <= i < v@.len() ==> cells@[i] == Some(#[trigger] v@[i])),
        r matches Err(e) ==> e matches DecodeError::MissingField { field, container } && field@
            == name@,
{
    let n = cells.len();
    let mut out: Vec<String> = Vec::new();
    let mut i: usize = 0;
    while i < n
        invariant
            0 <= i <= n,
            n == cells@.len(),
            out@.len() == i,
            forall|j: int| 0 <= j < i ==> cells@[j] == Some(#[trigger] out@[j]),
            forall|j: int| 0 <= j < i ==> (#[trigger] cells@[j]) is Some,
        decreases n - i,
    {
        match &cells[i] {
            Some(s) => {
                let c = s.clone();
                proof {
                    assert(cells@[i as int] == Some(*s));
                }
                out.push(c);
            },
            None => {
                return Err(DecodeError::MissingField {
                    field: String::from_str(name),
                    container: String::from_str("metadata"),
                });
            },
        }
        i = i + 1;
    }
    Ok(out)
}

/// Require every cell of the order-parameter column to be present and in
/// 32-bit range.
pub fn require_all_m_values(cells: Vec<Option<i64>>) -> (r: Result<Vec<i32>, DecodeError>)
    ensures
        (r is Ok) == (forall|i: int|
            0 <= i < cells@.len() ==> ((#[trigger] cells@[i]) matches Some(v) && i32::MIN <= v
                <= i32::MAX)),
        r matches Ok(v) ==> v@.len() == cells@.len() && (forall|i: int|
            0 <= i < v@.len() ==> cells@[i] == Some((#[trigger] v@[i]) as i64)),
        r matches Err(e) ==> e matches DecodeError::MissingField { .. } || e
            matches DecodeError::IntOutOfRange { .. },
{
    let n = cells.len();
    let mut out: Vec<i32> = Vec::new();
    let mut i: usize = 0;
    while i < n
        invariant
            0 <= i <= n,
            n == cells@.len(),
            out@.len() == i,
            forall|j: int| 0 <= j < i ==> cells@[j] == Some((#[trigger] out@[j]) as i64),
            forall|j: int|
                0 <= j < i ==> ((#[trigger] cells@[j]) matches Some(v) && i32::MIN <= v
                    <= i32::MAX),
        decreases n - i,
    {
        match &cells[i] {
            Some(v) => {
                let v64 = *v;
                if v64 < -2147483648 || v64 > 2147483647 {
                    return Err(DecodeError::IntOutOfRange { value: v64 as i128 });
                }
                out.push(v64 as i32);
            },
            None => {
                return Err(DecodeError::MissingField {
                    field: String::from_str("m_value"),
                    container: String::from_str("metadata"),
                });
            },
        }
        i = i + 1;
    }
    Ok(out)
}

/// Some row's argument bag holds this `(key, value)` pair.
pub open spec fn row_arg_occurs(rows: Seq<ArgMap>, k: Seq<char>, v: Seq<char>) -> bool {
    exists|i: int, e: int|
        0 <= i < rows.len() && 0 <= e < rows[i]@.len() && (#[trigger] rows[i]@[e]) == (k, v)
}

/// Merge the argument bags of many rows into one parameter map: each key
/// maps to the distinct values seen for it.
pub fn collect_param_info(rows: &Vec<ArgMap>) -> (r: Vec<(String, Vec<String>)>)
    ensures
        uniq_keys(r@),
        uniq_vals(r@),
        forall|i: int, e: int|
            0 <= i < rows@.len() && 0 <= e < rows@[i]@.len() ==> pv_has(
                r@,
                (#[trigger] rows@[i]@[e]).0,
                rows@[i]@[e].1,
            ),
        forall|p: int, q: int|
            0 <= p < r@.len() && 0 <= q < r@[p].1@.len() ==> row_arg_occurs(
                rows@,
                r@[p].0@,
                (#[trigger] r@[p].1@[q])@,
            ),
{
    let n = rows.len();
    let mut params: Vec<(String, Vec<String>)> = Vec::new();
    let mut i: usize = 0;
    while i < n
        invariant
            0 <= i <= n,
            n == rows@.len(),
            uniq_keys(params@),
            uniq_vals(params@),
            forall|i2: int, e2: int|
                0 <= i2 < i && 0 <= e2 < rows@[i2]@.len() ==> pv_has(
                    params@,
                    (#[trigger] rows@[i2]@[e2]).0,
                    rows@[i2]@[e2].1,
                ),
            forall|p: int, q: int|
                0 <= p < params@.len() && 0 <= q < params@[p].1@.len() ==> row_arg_occurs(
                    rows@,
                    params@[p].0@,
                    (#[trigger] params@[p].1@[q])@,
                ),
        decreases n - i,
    {
        let bag = &rows[i].entries;
        let m = bag.len();
        let mut e: usize = 0;
        while e < m
            invariant
                0 <= e <= m,
                0 <= i < rows@.len(),
                m == rows@[i as int]@.len(),
                bag == &rows@[i as int].entries,
                uniq_keys(params@),
                uniq_vals(params@),
                forall|i2: int, e2: int|
                    0 <= i2 < i && 0 <= e2 < rows@[i2]@.len() ==> pv_has(
                        params@,
                        (#[trigger] rows@[i2]@[e2]).0,
                        rows@[i2]@[e2].1,
                    ),
                forall|e2: int|
                    0 <= e2 < e ==> pv_has(
                        params@,
                        (#[trigger] rows@[i as int]@[e2]).0,
                        rows@[i as int]@[e2].1,
                    ),
                forall|p: int, q: int|
                    0 <= p < params@.len() && 0 <= q < params@[p].1@.len() ==> row_arg_occurs(
                        rows@,
                        params@[p].0@,
                        (#[trigger] params@[p].1@[q])@,
                    ),
            decreases m - e,
        {
            proof {
                assert(rows@[i as int]@[e as int] == (bag@[e as int].0@, bag@[e as int].1@));
            }
            let ghost pre = params@;
            let pair = &bag[e];
            crate::filters::add_param_entry(&mut params, &pair.0, &pair.1);
            proof {
                assert forall|i2: int, e2: int|
                    0 <= i2 < i && 0 <= e2 < rows@[i2]@.len() implies pv_has(
                    params@,
                    (#[trigger] rows@[i2]@[e2]).0,
                    rows@[i2]@[e2].1,
                ) by {
                    assert(pv_has(pre, rows@[i2]@[e2].0, rows@[i2]@[e2].1));
                }
                assert forall|e2: int| 0 <= e2 < e + 1 implies pv_has(
                    params@,
                    (#[trigger] rows@[i as int]@[e2]).0,
                    rows@[i as int]@[e2].1,
                ) by {
                    if e2 < e {
                        assert(pv_has(pre, rows@[i as int]@[e2].0, rows@[i as int]@[e2].1));
                    } else {
                        assert(pv_has(params@, pair.0@, pair.1@));
                    }
                }
                assert forall|p: int, q: int|
                    0 <= p < params@.len() && 0 <= q < params@[p].1@.len() implies row_arg_occurs(
                    rows@,
                    params@[p].0@,
                    (#[trigger] params@[p].1@[q])@,
                ) by {
                    assert(pv_has(params@, params@[p].0@, params@[p].1@[q]@)) by {
                        assert(crate::filters::has_str(params@[p].1@, params@[p].1@[q]@));
                    }
                    if pv_has(pre, params@[p].0@, params@[p].1@[q]@) {
                        let p2 = choose|p2: int|
                            0 <= p2 < pre.len() && (#[trigger] pre[p2]).0@ == params@[p].0@
                                && crate::filters::has_str(pre[p2].1@, params@[p].1@[q]@);
                        let q2 = choose|q2: int|
                            0 <= q2 < pre[p2].1@.len() && (#[trigger] pre[p2].1@[q2])@
                                == params@[p].1@[q]@;
                        assert(row_arg_occurs(rows@, pre[p2].0@, pre[p2].1@[q2]@));
                    } else {
                        assert(params@[p].0@ == pair.0@ && params@[p].1@[q]@ == pair.1@);
                        assert(rows@[i as int]@[e as int] == (pair.0@, pair.1@));
                        assert(row_arg_occurs(rows@, pair.0@, pair.1@));
                    }
                }
            }
            e = e + 1;
        }
        i = i + 1;
    }
    params
}

} // verus!
