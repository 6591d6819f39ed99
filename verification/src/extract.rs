use vstd::prelude::*;
use crate::column::ColumnData;
use crate::error::DecodeError;

verus! {

// ---------------------------------------------------------------------------
// Shared content specifications
// ---------------------------------------------------------------------------

/// View of a vector of optional strings as optional character sequences.
pub open spec fn opt_str_view(s: Seq<Option<String>>) -> Seq<Option<Seq<char>>> {
    s.map(
        |i: int, o: Option<String>|
            match o {
                Some(t) => Some(t@),
                None => None,
            },
    )
}

/// The column can be read as strings: a text column in any encoding, or
/// the all-null placeholder.
pub open spec fn stringish(col: ColumnData) -> bool {
    col matches ColumnData::Text { .. } || col matches ColumnData::Nulls { .. }
}

/// What string extraction yields on a readable column: the text cells, or
/// all-absent rows for a null column.
pub open spec fn spec_str_content(col: ColumnData) -> Seq<Option<Seq<char>>> {
    match col {
        ColumnData::Text { .. } => col.text_cells(),
        ColumnData::Nulls { len } => Seq::new(len as nat, |i: int| None),
        _ => Seq::empty(),
    }
}

/// The column can be read as integers, or is the all-null placeholder.
pub open spec fn intish(col: ColumnData) -> bool {
    col.is_int_encoded() || col matches ColumnData::Nulls { .. }
}

/// What integer extraction yields on a readable column, as mathematical
/// integers.
pub open spec fn spec_int_content(col: ColumnData) -> Seq<Option<int>> {
    match col {
        ColumnData::Nulls { len } => Seq::new(len as nat, |i: int| None),
        _ => col.int_cells(),
    }
}

/// Every present integer cell fits the widened 64-bit signed form (only
/// unsigned 64-bit columns can fail this).
pub open spec fn int_content_fits(col: ColumnData) -> bool {
    forall|i: int|
        0 <= i < spec_int_content(col).len() ==> match #[trigger] spec_int_content(col)[i] {
            Some(v) => i64::MIN <= v <= i64::MAX,
            None => true,
        }
}

/// View of a vector of optional 64-bit integers as optional mathematical
/// integers.
pub open spec fn opt_i64_view(s: Seq<Option<i64>>) -> Seq<Option<int>> {
    s.map(
        |i: int, o: Option<i64>|
            match o {
                Some(v) => Some(v as int),
                None => None,
            },
    )
}

// ---------------------------------------------------------------------------
// String extraction
// ---------------------------------------------------------------------------

fn clone_opt_strings(v: &Vec<Option<String>>) -> (r: Vec<Option<String>>)
    ensures
        r@ =~= v@,
{
    let n = v.len();
    let mut out: Vec<Option<String>> = Vec::new();
    let mut i: usize = 0;
    while i < n
        invariant
            0 <= i <= n,
            n == v@.len(),
            out@.len() == i,
            forall|j: int| 0 <= j < i ==> out@[j] == v@[j],
        decreases n - i,
    {
        match &v[i] {
            Some(s) => {
                let c = s.clone();
                assert(v@[i as int] == Some(*s));
                out.push(Some(c));
            },
            None => {
                assert(v@[i as int] == None::<String>);
                out.push(None);
            },
        }
        i = i + 1;
    }
    out
}

fn none_strings(len: usize) -> (r: Vec<Option<String>>)
    ensures
        r@.len() == len,
        forall|j: int| 0 <= j < len ==> r@[j] is None,
{
    let mut out: Vec<Option<String>> = Vec::new();
    let mut i: usize = 0;
    while i < len
        invariant
            0 <= i <= len,
            out@.len() == i,
            forall|j: int| 0 <= j < i ==> out@[j] is None,
        decreases len - i,
    {
        out.push(None);
        i = i + 1;
    }
    out
}

/// Build the mismatch error every extractor reports for a column whose
/// physical type is outside the encodings it recognises.
fn mismatch(name: &str, expected: &str, col: &ColumnData) -> (r: DecodeError)
    ensures
        r matches DecodeError::TypeMismatch { field, expected: e, actual } && field@ == name@ && e@
            == expected@ && actual@ == col.spec_type_label(),
{
    DecodeError::TypeMismatch {
        field: String::from_str(name),
        expected: String::from_str(expected),
        actual: col.type_label(),
    }
}

/// Extract a column as per-row optional strings.
///
/// Accepts the three physical string encodings and the untyped all-null
/// column; anything else is a type mismatch naming `name`.
pub fn to_str(name: &str, col: &ColumnData) -> (r: Result<Vec<Option<String>>, DecodeError>)
    ensures
        (r is Ok) == stringish(*col),
        r matches Ok(v) ==> {
            &&& v@.len() == col.num_rows()
            &&& opt_str_view(v@) =~= spec_str_content(*col)
        },
        r matches Err(e) ==> e matches DecodeError::TypeMismatch { field, expected, actual }
            && field@ == name@ && expected@ == "string"@ && actual@ == col.spec_type_label(),
{
    match col {
        ColumnData::Text { cells, .. } => {
            let v = clone_opt_strings(cells);
            assert(opt_str_view(v@) =~= spec_str_content(*col));
            Ok(v)
        },
        ColumnData::Nulls { len } => {
            let v = none_strings(*len);
            assert(opt_str_view(v@) =~= spec_str_content(*col));
            Ok(v)
        },
        _ => Err(mismatch(name, "string", col)),
    }
}

// ---------------------------------------------------------------------------
// Integer extraction
// ---------------------------------------------------------------------------

fn widen_i8(cells: &Vec<Option<i8>>) -> (r: Vec<Option<i64>>)
    ensures
        r@.len() == cells@.len(),
        forall|j: int|
            0 <= j < cells@.len() ==> opt_i64_view(r@)[j] == (match cells@[j] {
                Some(v) => Some(v as int),
                None => None::<int>,
            }),
{
    let n = cells.len();
    let mut out: Vec<Option<i64>> = Vec::new();
    let mut i: usize = 0;
    while i < n
        invariant
            0 <= i <= n,
            n == cells@.len(),
            out@.len() == i,
            forall|j: int|
                0 <= j < i ==> (#[trigger] out@[j]) == (match cells@[j] {
                    Some(v) => Some(v as i64),
                    None => None::<i64>,
                }),
        decreases n - i,
    {
        match &cells[i] {
            Some(v) => out.push(Some(*v as i64)),
            None => out.push(None),
        }
        i = i + 1;
    }
    proof {
        assert forall|j: int| 0 <= j < cells@.len() implies opt_i64_view(out@)[j] == (match
            cells@[j] {
            Some(v) => Some(v as int),
            None => None::<int>,
        }) by {
            assert(out@[j] == (match cells@[j] {
                Some(v) => Some(v as i64),
                None => None::<i64>,
            }));
        }
    }
    out
}

fn widen_i16(cells: &Vec<Option<i16>>) -> (r: Vec<Option<i64>>)
    ensures
        r@.len() == cells@.len(),
        forall|j: int|
            0 <= j < cells@.len() ==> opt_i64_view(r@)[j] == (match cells@[j] {
                Some(v) => Some(v as int),
                None => None::<int>,
            }),
{
    let n = cells.len();
    let mut out: Vec<Option<i64>> = Vec::new();
    let mut i: usize = 0;
    while i < n
        invariant
            0 <= i <= n,
            n == cells@.len(),
            out@.len() == i,
            forall|j: int|
                0 <= j < i ==> (#[trigger] out@[j]) == (match cells@[j] {
                    Some(v) => Some(v as i64),
                    None => None::<i64>,
                }),
        decreases n - i,
    {
        match &cells[i] {
            Some(v) => out.push(Some(*v as i64)),
            None => out.push(None),
        }
        i = i + 1;
    }
    proof {
        assert forall|j: int| 0 <= j < cells@.len() implies opt_i64_view(out@)[j] == (match
            cells@[j] {
            Some(v) => Some(v as int),
            None => None::<int>,
        }) by {
            assert(out@[j] == (match cells@[j] {
                Some(v) => Some(v as i64),
                None => None::<i64>,
            }));
        }
    }
    out
}

fn widen_i32(cells: &Vec<Option<i32>>) -> (r: Vec<Option<i64>>)
    ensures
        r@.len() == cells@.len(),
        forall|j: int|
            0 <= j < cells@.len() ==> opt_i64_view(r@)[j] == (match cells@[j] {
                Some(v) => Some(v as int),
                None => None::<int>,
            }),
{
    let n = cells.len();
    let mut out: Vec<Option<i64>> = Vec::new();
    let mut i: usize = 0;
    while i < n
        invariant
            0 <= i <= n,
            n == cells@.len(),
            out@.len() == i,
            forall|j: int|
                0 <= j < i ==> (#[trigger] out@[j]) == (match cells@[j] {
                    Some(v) => Some(v as i64),
                    None => None::<i64>,
                }),
        decreases n - i,
    {
        match &cells[i] {
            Some(v) => out.push(Some(*v as i64)),
            None => out.push(None),
        }
        i = i + 1;
    }
    proof {
        assert forall|j: int| 0 <= j < cells@.len() implies opt_i64_view(out@)[j] == (match
            cells@[j] {
            Some(v) => Some(v as int),
            None => None::<int>,
        }) by {
            assert(out@[j] == (match cells@[j] {
                Some(v) => Some(v as i64),
                None => None::<i64>,
            }));
        }
    }
    out
}

fn copy_i64(cells: &Vec<Option<i64>>) -> (r: Vec<Option<i64>>)
    ensures
        r@ =~= cells@,
{
    let n = cells.len();
    let mut out: Vec<Option<i64>> = Vec::new();
    let mut i: usize = 0;
    while i < n
        invariant
            0 <= i <= n,
            n == cells@.len(),
            out@.len() == i,
            forall|j: int| 0 <= j < i ==> out@[j] == cells@[j],
        decreases n - i,
    {
        match &cells[i] {
            Some(v) => out.push(Some(*v)),
            None => out.push(None),
        }
        i = i + 1;
    }
    out
}

fn widen_u8(cells: &Vec<Option<u8>>) -> (r: Vec<Option<i64>>)
    ensures
        r@.len() == cells@.len(),
        forall|j: int|
            0 <= j < cells@.len() ==> opt_i64_view(r@)[j] == (match cells@[j] {
                Some(v) => Some(v as int),
                None => None::<int>,
            }),
{
    let n = cells.len();
    let mut out: Vec<Option<i64>> = Vec::new();
    let mut i: usize = 0;
    while i < n
        invariant
            0 <= i <= n,
            n == cells@.len(),
            out@.len() == i,
            forall|j: int|
                0 <= j < i ==> (#[trigger] out@[j]) == (match cells@[j] {
                    Some(v) => Some(v as i64),
                    None => None::<i64>,
                }),
        decreases n - i,
    {
        match &cells[i] {
            Some(v) => out.push(Some(*v as i64)),
            None => out.push(None),
        }
        i = i + 1;
    }
    proof {
        assert forall|j: int| 0 <= j < cells@.len() implies opt_i64_view(out@)[j] == (match
            cells@[j] {
            Some(v) => Some(v as int),
            None => None::<int>,
        }) by {
            assert(out@[j] == (match cells@[j] {
                Some(v) => Some(v as i64),
                None => None::<i64>,
            }));
        }
    }
    out
}

fn widen_u16(cells: &Vec<Option<u16>>) -> (r: Vec<Option<i64>>)
    ensures
        r@.len() == cells@.len(),
        forall|j: int|
            0 <= j < cells@.len() ==> opt_i64_view(r@)[j] == (match cells@[j] {
                Some(v) => Some(v as int),
                None => None::<int>,
            }),
{
    let n = cells.len();
    let mut out: Vec<Option<i64>> = Vec::new();
    let mut i: usize = 0;
    while i < n
        invariant
            0 <= i <= n,
            n == cells@.len(),
            out@.len() == i,
            forall|j: int|
                0 <= j < i ==> (#[trigger] out@[j]) == (match cells@[j] {
                    Some(v) => Some(v as i64),
                    None => None::<i64>,
                }),
        decreases n - i,
    {
        match &cells[i] {
            Some(v) => out.push(Some(*v as i64)),
            None => out.push(None),
        }
        i = i + 1;
    }
    proof {
        assert forall|j: int| 0 <= j < cells@.len() implies opt_i64_view(out@)[j] == (match
            cells@[j] {
            Some(v) => Some(v as int),
            None => None::<int>,
        }) by {
            assert(out@[j] == (match cells@[j] {
                Some(v) => Some(v as i64),
                None => None::<i64>,
            }));
        }
    }
    out
}

fn widen_u32(cells: &Vec<Option<u32>>) -> (r: Vec<Option<i64>>)
    ensures
        r@.len() == cells@.len(),
        forall|j: int|
            0 <= j < cells@.len() ==> opt_i64_view(r@)[j] == (match cells@[j] {
                Some(v) => Some(v as int),
                None => None::<int>,
            }),
{
    let n = cells.len();
    let mut out: Vec<Option<i64>> = Vec::new();
    let mut i: usize = 0;
    while i < n
        invariant
            0 <= i <= n,
            n == cells@.len(),
            out@.len() == i,
            forall|j: int|
                0 <= j < i ==> (#[trigger] out@[j]) == (match cells@[j] {
                    Some(v) => Some(v as i64),
                    None => None::<i64>,
                }),
        decreases n - i,
    {
        match &cells[i] {
            Some(v) => out.push(Some(*v as i64)),
            None => out.push(None),
        }
        i = i + 1;
    }
    proof {
        assert forall|j: int| 0 <= j < cells@.len() implies opt_i64_view(out@)[j] == (match
            cells@[j] {
            Some(v) => Some(v as int),
            None => None::<int>,
        }) by {
            assert(out@[j] == (match cells@[j] {
                Some(v) => Some(v as i64),
                None => None::<i64>,
            }));
        }
    }
    out
}

fn widen_u64(cells: &Vec<Option<u64>>) -> (r: Result<Vec<Option<i64>>, DecodeError>)
    ensures
        (r is Ok) == (forall|j: int|
            0 <= j < cells@.len() ==> match #[trigger] cells@[j] {
                Some(v) => v <= i64::MAX,
                None => true,
            }),
        r matches Ok(out) ==> {
            &&& out@.len() == cells@.len()
            &&& forall|j: int|
                0 <= j < cells@.len() ==> opt_i64_view(out@)[j] == (match cells@[j] {
                    Some(v) => Some(v as int),
                    None => None::<int>,
                })
        },
        r matches Err(e) ==> e matches DecodeError::IntOutOfRange { value } && exists|j: int|
            0 <= j < cells@.len() && (match #[trigger] cells@[j] {
                Some(v) => v > i64::MAX && value == v as i128,
                None => false,
            }),
{
    let n = cells.len();
    let mut out: Vec<Option<i64>> = Vec::new();
    let mut i: usize = 0;
    while i < n
        invariant
            0 <= i <= n,
            n == cells@.len(),
            out@.len() == i,
            forall|j: int|
                0 <= j < i ==> match #[trigger] cells@[j] {
                    Some(v) => v <= i64::MAX,
                    None => true,
                },
            forall|j: int|
                0 <= j < i ==> (#[trigger] out@[j]) == (match cells@[j] {
                    Some(v) => Some(v as i64),
                    None => None::<i64>,
                }),
        decreases n - i,
    {
        match &cells[i] {
            Some(v) => {
                if *v > 0x7fff_ffff_ffff_ffff {
                    proof {
                        assert(cells@[i as int] matches Some(w) && w > i64::MAX);
                    }
                    return Err(DecodeError::IntOutOfRange { value: *v as i128 });
                }
                out.push(Some(*v as i64));
            },
            None => out.push(None),
        }
        i = i + 1;
    }
    proof {
        assert forall|j: int| 0 <= j < cells@.len() implies opt_i64_view(out@)[j] == (match
            cells@[j] {
            Some(v) => Some(v as int),
            None => None::<int>,
        }) by {
            assert(out@[j] == (match cells@[j] {
                Some(v) => Some(v as i64),
                None => None::<i64>,
            }));
        }
    }
    Ok(out)
}

/// Extract a column as per-row optional 64-bit signed integers.
///
/// Accepts every signed and unsigned integer width, widening to `i64`,
/// and the untyped all-null column.  An unsigned 64-bit cell beyond
/// `i64::MAX` is reported as out of range rather than wrapped; any other
/// physical type is a mismatch naming `name`.
pub fn to_i64(name: &str, col: &ColumnData) -> (r: Result<Vec<Option<i64>>, DecodeError>)
    ensures
        (r is Ok) == (intish(*col) && int_content_fits(*col)),
        r matches Ok(v) ==> {
            &&& v@.len() == col.num_rows()
            &&& opt_i64_view(v@) =~= spec_int_content(*col)
        },
        r matches Err(e) ==> if intish(*col) {
            e matches DecodeError::IntOutOfRange { value } && value > i64::MAX
        } else {
            e matches DecodeError::TypeMismatch { field, expected, actual } && field@ == name@
                && expected@ == "int"@ && actual@ == col.spec_type_label()
        },
{
    match col {
        ColumnData::Int8 { cells } => {
            let v = widen_i8(cells);
            assert(opt_i64_view(v@) =~= spec_int_content(*col));
            Ok(v)
        },
        ColumnData::Int16 { cells } => {
            let v = widen_i16(cells);
            assert(opt_i64_view(v@) =~= spec_int_content(*col));
            Ok(v)
        },
        ColumnData::Int32 { cells } => {
            let v = widen_i32(cells);
            assert(opt_i64_view(v@) =~= spec_int_content(*col));
            Ok(v)
        },
        ColumnData::Int64 { cells } => {
            let v = copy_i64(cells);
            assert(opt_i64_view(v@) =~= spec_int_content(*col));
            Ok(v)
        },
        ColumnData::UInt8 { cells } => {
            let v = widen_u8(cells);
            assert(opt_i64_view(v@) =~= spec_int_content(*col));
            Ok(v)
        },
        ColumnData::UInt16 { cells } => {
            let v = widen_u16(cells);
            assert(opt_i64_view(v@) =~= spec_int_content(*col));
            Ok(v)
        },
        ColumnData::UInt32 { cells } => {
            let v = widen_u32(cells);
            assert(opt_i64_view(v@) =~= spec_int_content(*col));
            Ok(v)
        },
        ColumnData::UInt64 { cells } => {
            match widen_u64(cells) {
                Ok(v) => {
                    assert(opt_i64_view(v@) =~= spec_int_content(*col));
                    Ok(v)
                },
                Err(e) => {
                    proof {
                        let j = choose|j: int|
                            0 <= j < cells@.len() && (match #[trigger] cells@[j] {
                                Some(v) => v > i64::MAX && e->value == v as i128,
                                None => false,
                            });
                        assert(spec_int_content(*col)[j] matches Some(v) && v > i64::MAX);
                        assert(!int_content_fits(*col));
                    }
                    Err(e)
                },
            }
        },
        ColumnData::Nulls { len } => {
            let v = none_i64s(*len);
            assert(opt_i64_view(v@) =~= spec_int_content(*col));
            Ok(v)
        },
        _ => Err(mismatch(name, "int", col)),
    }
}

fn none_i64s(len: usize) -> (r: Vec<Option<i64>>)
    ensures
        r@.len() == len,
        forall|j: int| 0 <= j < len ==> r@[j] is None,
{
    let mut out: Vec<Option<i64>> = Vec::new();
    let mut i: usize = 0;
    while i < len
        invariant
            0 <= i <= len,
            out@.len() == i,
            forall|j: int| 0 <= j < i ==> out@[j] is None,
        decreases len - i,
    {
        out.push(None);
        i = i + 1;
    }
    out
}

} // verus!

verus! {

// ---------------------------------------------------------------------------
// Struct-of-strings extraction
// ---------------------------------------------------------------------------

use crate::records::ArgMap;

/// Every field of the struct can be read as strings.
pub open spec fn fields_stringish(fields: Seq<(String, ColumnData)>) -> bool {
    forall|k: int| 0 <= k < fields.len() ==> stringish((#[trigger] fields[k]).1)
}

/// The argument entries of row `i`: one `(field name, value)` pair per
/// field whose cell is present in that row, in field order.
pub open spec fn spec_row_args(fields: Seq<(String, ColumnData)>, i: int) -> Seq<
    (Seq<char>, Seq<char>),
>
    decreases fields.len(),
{
    if fields.len() == 0 {
        Seq::empty()
    } else {
        let rest = spec_row_args(fields.skip(1), i);
        match spec_str_content(fields[0].1)[i] {
            Some(v) => seq![(fields[0].0@, v)] + rest,
            None => rest,
        }
    }
}

/// Extract a struct column as one argument bag per row, keeping only the
/// sub-fields present in each row.
///
/// Every field must itself be string-readable; the first one that is not
/// is reported as a mismatch under its own field name.  An all-null
/// column yields empty bags.
pub fn to_struct_str(name: &str, col: &ColumnData) -> (r: Result<Vec<ArgMap>, DecodeError>)
    requires
        col.wf(),
    ensures
        (r is Ok) == (col matches ColumnData::Nulls { .. } || (col matches ColumnData::Struct {
            fields,
            ..
        } && fields_stringish(fields@))),
        r matches Ok(v) ==> v@.len() == col.num_rows(),
        r matches Ok(v) ==> (col matches ColumnData::Nulls { len } ==> forall|i: int|
            0 <= i < v@.len() ==> (#[trigger] v@[i])@.len() == 0),
        r matches Ok(v) ==> (col matches ColumnData::Struct { validity, fields } ==> forall|i: int|
            0 <= i < v@.len() ==> (#[trigger] v@[i])@ == spec_row_args(fields@, i)),
        r matches Err(e) ==> (col matches ColumnData::Struct { validity, fields } ==> exists|k: int|
            0 <= k < fields@.len() && !stringish((#[trigger] fields@[k]).1) && (e
                matches DecodeError::TypeMismatch { field, expected, actual } && field@
                == fields@[k].0@ && expected@ == "string"@ && actual@
                == fields@[k].1.spec_type_label())),
        r matches Err(e) ==> (!(col matches ColumnData::Struct { .. } || col
            matches ColumnData::Nulls { .. }) ==> (e matches DecodeError::TypeMismatch {
            field,
            expected,
            actual,
        } && field@ == name@ && expected@ == "struct of strings"@ && actual@
            == col.spec_type_label())),
{
    match col {
        ColumnData::Nulls { len } => {
            let mut out: Vec<ArgMap> = Vec::new();
            let mut i: usize = 0;
            while i < *len
                invariant
                    0 <= i <= *len,
                    out@.len() == i,
                    forall|j: int| 0 <= j < i ==> (#[trigger] out@[j])@.len() == 0,
                decreases *len - i,
            {
                out.push(ArgMap::new());
                i = i + 1;
            }
            Ok(out)
        },
        ColumnData::Struct { validity, fields } => {
            let rows = validity.len();
            let nf = fields.len();
            proof {
                assert(forall|q: int|
                    0 <= q < fields@.len() ==> (#[trigger] fields@[q]).1.num_rows()
                        == validity@.len());
            }
            // Extract every field's string cells first; the first field
            // that is not string-readable aborts with its own error.
            let mut cols: Vec<Vec<Option<String>>> = Vec::new();
            let mut k: usize = 0;
            while k < nf
                invariant
                    0 <= k <= nf,
                    nf == fields@.len(),
                    rows == validity@.len(),
                    *col == (ColumnData::Struct { validity: *validity, fields: *fields }),
                    forall|q: int|
                        0 <= q < fields@.len() ==> (#[trigger] fields@[q]).1.num_rows() == rows,
                    cols@.len() == k,
                    forall|q: int| 0 <= q < k ==> stringish((#[trigger] fields@[q]).1),
                    forall|q: int|
                        0 <= q < k ==> (#[trigger] cols@[q])@.len() == rows && opt_str_view(
                            cols@[q]@,
                        ) =~= spec_str_content(fields@[q].1),
                decreases nf - k,
            {
                let f = &fields[k];
                match to_str(f.0.as_str(), &f.1) {
                    Ok(c) => {
                        proof {
                            assert(fields@[k as int].1.num_rows() == rows);
                        }
                        cols.push(c);
                    },
                    Err(e) => {
                        proof {
                            assert(!stringish(fields@[k as int].1));
                        }
                        return Err(e);
                    },
                }
                k = k + 1;
            }
            // Now assemble one bag per row, walking the fields in order.
            let mut out: Vec<ArgMap> = Vec::new();
            let mut i: usize = 0;
            while i < rows
                invariant
                    0 <= i <= rows,
                    nf == fields@.len(),
                    cols@.len() == nf,
                    forall|q: int|
                        0 <= q < nf ==> (#[trigger] cols@[q])@.len() == rows && opt_str_view(
                            cols@[q]@,
                        ) =~= spec_str_content(fields@[q].1),
                    out@.len() == i,
                    forall|j: int| 0 <= j < i ==> (#[trigger] out@[j])@ == spec_row_args(fields@, j),
                decreases rows - i,
            {
                let mut m = ArgMap::new();
                proof {
                    assert(m@ =~= Seq::<(Seq<char>, Seq<char>)>::empty());
                    assert(fields@.skip(0) =~= fields@);
                    assert(m@ + spec_row_args(fields@, i as int) =~= spec_row_args(
                        fields@,
                        i as int,
                    ));
                }
                let mut k2: usize = 0;
                while k2 < nf
                    invariant
                        0 <= k2 <= nf,
                        0 <= i < rows,
                        nf == fields@.len(),
                        cols@.len() == nf,
                        forall|q: int|
                            0 <= q < nf ==> (#[trigger] cols@[q])@.len() == rows && opt_str_view(
                                cols@[q]@,
                            ) =~= spec_str_content(fields@[q].1),
                        m@ + spec_row_args(fields@.skip(k2 as int), i as int) =~= spec_row_args(
                            fields@,
                            i as int,
                        ),
                    decreases nf - k2,
                {
                    proof {
                        assert(fields@.skip(k2 as int)[0] == fields@[k2 as int]);
                        assert(fields@.skip(k2 as int).skip(1) =~= fields@.skip(k2 as int + 1));
                        assert(opt_str_view(cols@[k2 as int]@)[i as int] == spec_str_content(
                            fields@[k2 as int].1,
                        )[i as int]);
                    }
                    match &cols[k2][i] {
                        Some(val) => {
                            let fname = fields[k2].0.clone();
                            let v2 = val.clone();
                            m.push(fname, v2);
                            proof {
                                assert(m@ + spec_row_args(fields@.skip(k2 as int + 1), i as int)
                                    =~= spec_row_args(fields@, i as int));
                            }
                        },
                        None => {
                            proof {
                                assert(m@ + spec_row_args(fields@.skip(k2 as int + 1), i as int)
                                    =~= spec_row_args(fields@, i as int));
                            }
                        },
                    }
                    k2 = k2 + 1;
                }
                proof {
                    assert(fields@.skip(nf as int).len() == 0);
                    assert(m@ + spec_row_args(fields@.skip(nf as int), i as int) =~= m@);
                }
                out.push(m);
                i = i + 1;
            }
            Ok(out)
        },
        _ => Err(mismatch(name, "struct of strings", col)),
    }
}

// ---------------------------------------------------------------------------
// List extraction
// ---------------------------------------------------------------------------

/// The column can be read as a list column, or is the all-null
/// placeholder.
pub open spec fn listish(col: ColumnData) -> bool {
    col matches ColumnData::List { .. } || col matches ColumnData::Nulls { .. }
}

/// Extract a list column as one optional element column per row.
///
/// A row is `None` exactly when the list cell itself is null; an empty
/// but present list is a present, zero-row element column.  Accepts both
/// offset-based and view-based layouts in both offset widths, and the
/// untyped all-null column.
pub fn to_list<'a>(name: &str, col: &'a ColumnData) -> (r: Result<
    Vec<Option<&'a ColumnData>>,
    DecodeError,
>)
    ensures
        (r is Ok) == listish(*col),
        r matches Ok(v) ==> v@.len() == col.num_rows(),
        r matches Ok(v) ==> (col matches ColumnData::List { enc, cells } ==> forall|i: int|
            0 <= i < v@.len() ==> match (#[trigger] v@[i], cells@[i]) {
                (Some(p), Some(c)) => *p == c,
                (None, None) => true,
                _ => false,
            }),
        r matches Ok(v) ==> (col matches ColumnData::Nulls { len } ==> forall|i: int|
            0 <= i < v@.len() ==> (#[trigger] v@[i]) is None),
        r matches Err(e) ==> e matches DecodeError::TypeMismatch { field, expected, actual }
            && field@ == name@ && expected@ == "list"@ && actual@ == col.spec_type_label(),
{
    match col {
        ColumnData::List { cells, .. } => {
            let n = cells.len();
            let mut out: Vec<Option<&ColumnData>> = Vec::new();
            let mut i: usize = 0;
            while i < n
                invariant
                    0 <= i <= n,
                    n == cells@.len(),
                    out@.len() == i,
                    forall|j: int|
                        0 <= j < i ==> match (#[trigger] out@[j], cells@[j]) {
                            (Some(p), Some(c)) => *p == c,
                            (None, None) => true,
                            _ => false,
                        },
                decreases n - i,
            {
                match &cells[i] {
                    Some(c) => out.push(Some(c)),
                    None => out.push(None),
                }
                i = i + 1;
            }
            Ok(out)
        },
        ColumnData::Nulls { len } => {
            let mut out: Vec<Option<&ColumnData>> = Vec::new();
            let mut i: usize = 0;
            while i < *len
                invariant
                    0 <= i <= *len,
                    out@.len() == i,
                    forall|j: int| 0 <= j < i ==> (#[trigger] out@[j]) is None,
                decreases *len - i,
            {
                out.push(None);
                i = i + 1;
            }
            Ok(out)
        },
        _ => Err(mismatch(name, "list", col)),
    }
}

} // verus!

verus! {

use crate::column::TextEncoding;

// ---------------------------------------------------------------------------
// Laws of extraction
// ---------------------------------------------------------------------------

/// Law: string extraction is encoding-agnostic.  Two text columns with
/// the same cells have the same extraction content whatever their
/// physical encodings; with [`to_str`]'s contract, extraction therefore
/// returns the same rows for a narrow-offset, wide-offset or view-encoded
/// column of the same logical strings.
pub proof fn lemma_string_encoding_agnostic(
    enc1: TextEncoding,
    enc2: TextEncoding,
    cells: Vec<Option<String>>,
)
    ensures
        stringish(ColumnData::Text { enc: enc1, cells }),
        stringish(ColumnData::Text { enc: enc2, cells }),
        spec_str_content(ColumnData::Text { enc: enc1, cells }) == spec_str_content(
            ColumnData::Text { enc: enc2, cells },
        ),
{
}

/// Law: an untyped all-null column of length `len` reads as `len` absent
/// rows — never an error — under string, integer and list extraction
/// alike.
pub proof fn lemma_null_column_all_absent(len: usize)
    ensures
        stringish(ColumnData::Nulls { len }),
        intish(ColumnData::Nulls { len }),
        listish(ColumnData::Nulls { len }),
        spec_str_content(ColumnData::Nulls { len }).len() == len,
        forall|i: int| 0 <= i < len ==> spec_str_content(ColumnData::Nulls { len })[i] is None,
        spec_int_content(ColumnData::Nulls { len }).len() == len,
        forall|i: int| 0 <= i < len ==> spec_int_content(ColumnData::Nulls { len })[i] is None,
        crate::assemble::list_cells_of(ColumnData::Nulls { len }).len() == len,
        forall|i: int|
            0 <= i < len ==> crate::assemble::list_cells_of(ColumnData::Nulls { len })[i] is None,
{
}

/// Law: a list column keeps null rows and empty rows apart — a row is
/// absent exactly when its cell is null, and a present empty cell stays a
/// present, zero-row column.
pub proof fn lemma_list_null_vs_empty(col: ColumnData, i: int)
    requires
        col matches ColumnData::List { .. },
        0 <= i < col.num_rows(),
    ensures
        crate::assemble::list_cells_of(col)[i] matches Some(c) ==> c.num_rows() >= 0,
        (crate::assemble::list_cells_of(col)[i] is None) == (col matches ColumnData::List {
            cells,
            ..
        } && cells@[i] is None),
{
}

} // verus!

