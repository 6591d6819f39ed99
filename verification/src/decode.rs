use vstd::prelude::*;
use crate::column::ColumnData;
use crate::error::DecodeError;
use crate::extract::{
    int_content_fits, intish, opt_i64_view, opt_str_view, spec_int_content, spec_str_content,
    stringish, to_i64, to_str,
};
use crate::records::{str_eq, ComplexNumber, ErrorInfo, EventInfo, AccelPoint, SeriesPoint};
use crate::scientific::{parse_scientific, spec_parse_scientific, Scientific};

verus! {

// ---------------------------------------------------------------------------
// Struct-field lookup
// ---------------------------------------------------------------------------

/// The column of the first field named `name`, if any.
pub open spec fn lookup_field(fields: Seq<(String, ColumnData)>, name: Seq<char>) -> Option<
    ColumnData,
>
    decreases fields.len(),
{
    if fields.len() == 0 {
        None
    } else if fields[0].0@ == name {
        Some(fields[0].1)
    } else {
        lookup_field(fields.skip(1), name)
    }
}

/// A found field is one of the fields.
pub proof fn lemma_lookup_in_pub(fields: Seq<(String, ColumnData)>, name: Seq<char>)
    ensures
        lookup_field(fields, name) matches Some(c) ==> exists|k: int|
            0 <= k < fields.len() && (#[trigger] fields[k]).1 == c,
    decreases fields.len(),
{
    lemma_lookup_field_in(fields, name);
}

/// A found field is one of the fields.
proof fn lemma_lookup_field_in(fields: Seq<(String, ColumnData)>, name: Seq<char>)
    ensures
        lookup_field(fields, name) matches Some(c) ==> exists|k: int|
            0 <= k < fields.len() && (#[trigger] fields[k]).1 == c,
    decreases fields.len(),
{
    if fields.len() > 0 && !(fields[0].0@ == name) {
        lemma_lookup_field_in(fields.skip(1), name);
        match lookup_field(fields, name) {
            Some(c) => {
                let k = choose|k: int|
                    0 <= k < fields.skip(1).len() && (#[trigger] fields.skip(1)[k]).1 == c;
                assert(fields[k + 1] == fields.skip(1)[k]);
            },
            None => {},
        }
    }
}

pub(crate) fn find_field<'a>(fields: &'a Vec<(String, ColumnData)>, name: &str) -> (r: Option<
    &'a ColumnData,
>)
    ensures
        match r {
            Some(c) => lookup_field(fields@, name@) == Some(*c),
            None => lookup_field(fields@, name@) is None,
        },
{
    let n = fields.len();
    let mut i: usize = 0;
    proof {
        assert(fields@.skip(0) =~= fields@);
    }
    while i < n
        invariant
            0 <= i <= n,
            n == fields@.len(),
            lookup_field(fields@, name@) == lookup_field(fields@.skip(i as int), name@),
        decreases n - i,
    {
        proof {
            assert(fields@.skip(i as int)[0] == fields@[i as int]);
            assert(fields@.skip(i as int).skip(1) =~= fields@.skip(i + 1));
        }
        if str_eq(fields[i].0.as_str(), name) {
            return Some(&fields[i].1);
        }
        i = i + 1;
    }
    None
}

// ---------------------------------------------------------------------------
// Specification helpers shared by the decoders
// ---------------------------------------------------------------------------

/// The field's column, under the assumption that it exists (callers guard
/// with a lookup success).
pub open spec fn field_of(col: ColumnData, fname: Seq<char>) -> ColumnData {
    match col {
        ColumnData::Struct { fields, .. } => match lookup_field(fields@, fname) {
            Some(c) => c,
            None => col,
        },
        _ => col,
    }
}

/// Row validity of a struct column.
pub open spec fn struct_validity(col: ColumnData) -> Seq<bool> {
    match col {
        ColumnData::Struct { validity, .. } => validity@,
        _ => Seq::empty(),
    }
}

/// Which rows of a decoded complex column carry a value: none for the
/// all-null placeholder, the valid rows otherwise.
pub open spec fn complex_presence(col: ColumnData) -> Seq<bool> {
    match col {
        ColumnData::Nulls { len } => Seq::new(len as nat, |i: int| false),
        _ => struct_validity(col),
    }
}

/// `t` parses as a scientific number and `sc` is its value.
pub open spec fn sci_parses_to(t: Seq<char>, sc: Scientific) -> bool {
    spec_parse_scientific(t) == Some((sc.mantissa@, sc.exponent as int))
}

/// `sc` is the default zero used for an absent imaginary part.
pub open spec fn sci_is_zero_default(sc: Scientific) -> bool {
    sc.mantissa@ == seq!['0'] && sc.exponent == 0
}

/// How one row of a complex column decodes: an invalid row carries no
/// value; a valid row requires its `real` text and lets `imag` default to
/// zero when absent or empty.
pub open spec fn complex_row_value(
    valid: bool,
    rc: Option<Seq<char>>,
    ic: Option<Seq<char>>,
    out: Option<ComplexNumber>,
) -> bool {
    if valid {
        out matches Some(c) && {
            &&& rc matches Some(rt) && sci_parses_to(rt, c.real)
            &&& match ic {
                None => sci_is_zero_default(c.imag),
                Some(it) => if it.len() == 0 {
                    sci_is_zero_default(c.imag)
                } else {
                    sci_parses_to(it, c.imag)
                },
            }
        }
    } else {
        out is None
    }
}

/// One valid complex row has the texts it needs.
pub open spec fn complex_row_ok(valid: bool, rc: Option<Seq<char>>, ic: Option<Seq<char>>) -> bool {
    valid ==> {
        &&& rc matches Some(rt) && spec_parse_scientific(rt) is Some
        &&& match ic {
            Some(it) => it.len() == 0 || spec_parse_scientific(it) is Some,
            None => true,
        }
    }
}

/// The struct column has string-readable `real` and `imag` fields.
pub open spec fn complex_shape_ok(col: ColumnData) -> bool {
    col matches ColumnData::Struct { fields, .. } && (lookup_field(fields@, "real"@)
        matches Some(rc) && stringish(rc)) && (lookup_field(fields@, "imag"@) matches Some(ic)
        && stringish(ic))
}

/// Every valid row of the complex column decodes.
pub open spec fn complex_rows_ok(col: ColumnData) -> bool {
    forall|i: int|
        0 <= i < col.num_rows() ==> complex_row_ok(
            #[trigger] struct_validity(col)[i],
            spec_str_content(field_of(col, "real"@))[i],
            spec_str_content(field_of(col, "imag"@))[i],
        )
}

/// The whole complex column decodes: right shape, and texts present and
/// parseable wherever a row is valid.
pub open spec fn complex_ok(col: ColumnData) -> bool {
    complex_shape_ok(col) && complex_rows_ok(col)
}

fn none_complexes(len: usize) -> (r: Vec<Option<ComplexNumber>>)
    ensures
        r@.len() == len,
        forall|j: int| 0 <= j < len ==> (#[trigger] r@[j]) is None,
{
    let mut out: Vec<Option<ComplexNumber>> = Vec::new();
    let mut i: usize = 0;
    while i < len
        invariant
            0 <= i <= len,
            out@.len() == i,
            forall|j: int| 0 <= j < i ==> (#[trigger] out@[j]) is None,
        decreases len - i,
    {
        out.push(None);
        i = i + 1;
    }
    out
}

fn mismatch_here(name: &str, expected: &str, col: &ColumnData) -> (r: DecodeError)
    ensures
        r matches DecodeError::TypeMismatch { field, expected: e, actual } && field@ == name@ && e@
            == expected@ && actual@ == col.spec_type_label(),
{
    DecodeError::TypeMismatch {
        field: String::from_str(name),
        expected: String::from_str(expected),
        actual: col.type_label(),
    }
}

fn missing(field: &str, container: &str) -> (r: DecodeError)
    ensures
        r matches DecodeError::MissingField { field: f, container: c } && f@ == field@ && c@
            == container@,
{
    DecodeError::MissingField {
        field: String::from_str(field),
        container: String::from_str(container),
    }
}

// ---------------------------------------------------------------------------
// Complex-number decoding
// ---------------------------------------------------------------------------

/// Decode a struct column with `real`/`imag` string sub-fields into one
/// optional complex value per row.
///
/// A null row carries no value.  A valid row requires a parseable `real`
/// text; `imag` defaults to zero when its cell is absent or empty, and
/// must parse otherwise.  An all-null column decodes to all-absent rows.
pub fn to_complex(name: &str, col: &ColumnData) -> (r: Result<
    Vec<Option<ComplexNumber>>,
    DecodeError,
>)
    requires
        col.wf(),
    ensures
        (r is Ok) == (col matches ColumnData::Nulls { .. } || complex_ok(*col)),
        r matches Ok(v) ==> v@.len() == col.num_rows(),
        r matches Ok(v) ==> forall|i: int|
            0 <= i < v@.len() ==> complex_row_value(
                complex_presence(*col)[i],
                spec_str_content(field_of(*col, "real"@))[i],
                spec_str_content(field_of(*col, "imag"@))[i],
                #[trigger] v@[i],
            ),
        r matches Err(e) ==> (!(col matches ColumnData::Nulls { .. }) && !complex_shape_ok(*col)
            ==> (e matches DecodeError::TypeMismatch { field, expected, actual } && field@ == name@
            && expected@ == "{ real: str, imag: str }"@ && actual@ == col.spec_type_label())),
        r matches Err(e) ==> (complex_shape_ok(*col) ==> (e matches DecodeError::Parse { .. } || e
            matches DecodeError::MissingField { .. })),
{
    match col {
        ColumnData::Nulls { len } => {
            let v = none_complexes(*len);
            proof {
                assert(forall|i: int|
                    0 <= i < v@.len() ==> !(#[trigger] complex_presence(*col)[i]));
            }
            Ok(v)
        },
        ColumnData::Struct { validity, fields } => {
            let rows = validity.len();
            proof {
                lemma_lookup_field_in(fields@, "real"@);
                lemma_lookup_field_in(fields@, "imag"@);
            }
            let rcol = match find_field(fields, "real") {
                Some(c) => c,
                None => {
                    return Err(mismatch_here(name, "{ real: str, imag: str }", col));
                },
            };
            let icol = match find_field(fields, "imag") {
                Some(c) => c,
                None => {
                    return Err(mismatch_here(name, "{ real: str, imag: str }", col));
                },
            };
            let reals = match to_str("", rcol) {
                Ok(v) => v,
                Err(_) => {
                    return Err(mismatch_here(name, "{ real: str, imag: str }", col));
                },
            };
            let imags = match to_str("", icol) {
                Ok(v) => v,
                Err(_) => {
                    return Err(mismatch_here(name, "{ real: str, imag: str }", col));
                },
            };
            proof {
                assert(field_of(*col, "real"@) == *rcol);
                assert(field_of(*col, "imag"@) == *icol);
                assert(rcol.num_rows() == rows);
                assert(icol.num_rows() == rows);
            }
            let mut out: Vec<Option<ComplexNumber>> = Vec::new();
            let mut i: usize = 0;
            while i < rows
                invariant
                    0 <= i <= rows,
                    rows == validity@.len(),
                    *col == (ColumnData::Struct { validity: *validity, fields: *fields }),
                    complex_shape_ok(*col),
                    reals@.len() == rows,
                    imags@.len() == rows,
                    opt_str_view(reals@) =~= spec_str_content(field_of(*col, "real"@)),
                    opt_str_view(imags@) =~= spec_str_content(field_of(*col, "imag"@)),
                    out@.len() == i,
                    forall|j: int|
                        0 <= j < i ==> complex_row_value(
                            complex_presence(*col)[j],
                            spec_str_content(field_of(*col, "real"@))[j],
                            spec_str_content(field_of(*col, "imag"@))[j],
                            #[trigger] out@[j],
                        ),
                    forall|j: int|
                        0 <= j < i ==> complex_row_ok(
                            #[trigger] struct_validity(*col)[j],
                            spec_str_content(field_of(*col, "real"@))[j],
                            spec_str_content(field_of(*col, "imag"@))[j],
                        ),
                decreases rows - i,
            {
                proof {
                    assert(opt_str_view(reals@)[i as int] == spec_str_content(
                        field_of(*col, "real"@),
                    )[i as int]);
                    assert(opt_str_view(imags@)[i as int] == spec_str_content(
                        field_of(*col, "imag"@),
                    )[i as int]);
                }
                if !validity[i] {
                    out.push(None);
                } else {
                    let re_part: Scientific = match &reals[i] {
                        Some(rt) => {
                            match parse_scientific(rt.as_str()) {
                                Ok(s) => s,
                                Err(e) => {
                                    proof {
                                        assert(!complex_row_ok(
                                            struct_validity(*col)[i as int],
                                            spec_str_content(field_of(*col, "real"@))[i as int],
                                            spec_str_content(field_of(*col, "imag"@))[i as int],
                                        ));
                                        assert(!complex_rows_ok(*col));
                                    }
                                    return Err(e);
                                },
                            }
                        },
                        None => {
                            proof {
                                assert(!complex_row_ok(
                                    struct_validity(*col)[i as int],
                                    spec_str_content(field_of(*col, "real"@))[i as int],
                                    spec_str_content(field_of(*col, "imag"@))[i as int],
                                ));
                                assert(!complex_rows_ok(*col));
                            }
                            return Err(missing("real", name));
                        },
                    };
                    let im_part: Scientific = match &imags[i] {
                        Some(it) => {
                            if it.as_str().unicode_len() == 0 {
                                Scientific::zero()
                            } else {
                                match parse_scientific(it.as_str()) {
                                    Ok(s) => s,
                                    Err(e) => {
                                        proof {
                                        assert(!complex_row_ok(
                                            struct_validity(*col)[i as int],
                                            spec_str_content(field_of(*col, "real"@))[i as int],
                                            spec_str_content(field_of(*col, "imag"@))[i as int],
                                        ));
                                        assert(!complex_rows_ok(*col));
                                    }
                                    return Err(e);
                                    },
                                }
                            }
                        },
                        None => Scientific::zero(),
                    };
                    out.push(Some(ComplexNumber { real: re_part, imag: im_part }));
                }
                i = i + 1;
            }
            proof {
                assert(complex_rows_ok(*col));
            }
            Ok(out)
        },
        _ => Err(mismatch_here(name, "{ real: str, imag: str }", col)),
    }
}

} // verus!

verus! {

// ---------------------------------------------------------------------------
// Field-shape helpers for the point decoders
// ---------------------------------------------------------------------------

/// The struct column has a field of this name.
pub open spec fn has_field(col: ColumnData, fname: Seq<char>) -> bool {
    col matches ColumnData::Struct { fields, .. } && lookup_field(fields@, fname) is Some
}

/// The named field exists and is string-readable.
pub open spec fn str_field_ok(col: ColumnData, fname: Seq<char>) -> bool {
    has_field(col, fname) && stringish(field_of(col, fname))
}

/// The named field exists, is integer-readable, and every cell fits the
/// widened 64-bit form.
pub open spec fn int_field_ok(col: ColumnData, fname: Seq<char>) -> bool {
    has_field(col, fname) && intish(field_of(col, fname)) && int_content_fits(field_of(col, fname))
}

/// The named field exists and decodes as a complex column.
pub open spec fn complex_field_ok(col: ColumnData, fname: Seq<char>) -> bool {
    has_field(col, fname) && (field_of(col, fname) matches ColumnData::Nulls { .. } || complex_ok(
        field_of(col, fname),
    ))
}

// ---------------------------------------------------------------------------
// Series points
// ---------------------------------------------------------------------------

/// The series-point column has `n`, `value` and `deviation` fields of the
/// right shapes.
pub open spec fn series_shape_ok(col: ColumnData) -> bool {
    &&& col matches ColumnData::Struct { .. }
    &&& int_field_ok(col, "n"@)
    &&& complex_field_ok(col, "value"@)
    &&& str_field_ok(col, "deviation"@)
}

/// Every row of the series-point column is fully populated: an iteration
/// index in 32-bit range, a present complex value, a parseable deviation.
pub open spec fn series_rows_ok(col: ColumnData) -> bool {
    forall|i: int|
        0 <= i < col.num_rows() ==> {
            &&& (#[trigger] spec_int_content(field_of(col, "n"@))[i]) matches Some(nv) && i32::MIN
                <= nv <= i32::MAX
            &&& complex_presence(field_of(col, "value"@))[i]
            &&& spec_str_content(field_of(col, "deviation"@))[i] matches Some(dt)
                && spec_parse_scientific(dt) is Some
        }
}

/// Decode a struct column of fully-required series points.
///
/// Every row must carry all three sub-fields; a missing one, an iteration
/// index outside the 32-bit range, or an unparseable deviation aborts the
/// decode.
pub fn to_series_point(name: &str, col: &ColumnData) -> (r: Result<Vec<SeriesPoint>, DecodeError>)
    requires
        col.wf(),
    ensures
        (r is Ok) == (series_shape_ok(*col) && series_rows_ok(*col)),
        r matches Ok(v) ==> v@.len() == col.num_rows(),
        r matches Ok(v) ==> forall|i: int|
            0 <= i < v@.len() ==> {
                &&& spec_int_content(field_of(*col, "n"@))[i] matches Some(nv) && (
                #[trigger] v@[i]).n as int == nv
                &&& complex_row_value(
                    true,
                    spec_str_content(field_of(field_of(*col, "value"@), "real"@))[i],
                    spec_str_content(field_of(field_of(*col, "value"@), "imag"@))[i],
                    Some(v@[i].value),
                )
                &&& spec_str_content(field_of(*col, "deviation"@))[i] matches Some(dt)
                    && sci_parses_to(dt, v@[i].deviation)
            },
        r matches Err(e) ==> (!series_shape_ok(*col) ==> (e matches DecodeError::TypeMismatch {
            field,
            expected,
            actual,
        } && field@ == name@ && expected@
            == "{ n: int, value: { real: str, imag: str }, deviation: str }"@ && actual@
            == col.spec_type_label())),
        r matches Err(e) ==> (series_shape_ok(*col) ==> (e matches DecodeError::MissingField { .. }
            || e matches DecodeError::Parse { .. } || e matches DecodeError::IntOutOfRange {
            ..
        })),
{
    let expected = "{ n: int, value: { real: str, imag: str }, deviation: str }";
    match col {
        ColumnData::Struct { validity, fields } => {
            let rows = validity.len();
            proof {
                lemma_lookup_field_in(fields@, "n"@);
                lemma_lookup_field_in(fields@, "value"@);
                lemma_lookup_field_in(fields@, "deviation"@);
            }
            let ncol = match find_field(fields, "n") {
                Some(c) => c,
                None => {
                    return Err(mismatch_here(name, expected, col));
                },
            };
            let vcol = match find_field(fields, "value") {
                Some(c) => c,
                None => {
                    return Err(mismatch_here(name, expected, col));
                },
            };
            let dcol = match find_field(fields, "deviation") {
                Some(c) => c,
                None => {
                    return Err(mismatch_here(name, expected, col));
                },
            };
            proof {
                assert(field_of(*col, "n"@) == *ncol);
                assert(field_of(*col, "value"@) == *vcol);
                assert(field_of(*col, "deviation"@) == *dcol);
                assert(ncol.num_rows() == rows && vcol.num_rows() == rows && dcol.num_rows()
                    == rows);
                assert(vcol.wf());
            }
            let ns = match to_i64("", ncol) {
                Ok(v) => v,
                Err(_) => {
                    return Err(mismatch_here(name, expected, col));
                },
            };
            let vs = match to_complex("", vcol) {
                Ok(v) => v,
                Err(_) => {
                    return Err(mismatch_here(name, expected, col));
                },
            };
            let ds = match to_str("", dcol) {
                Ok(v) => v,
                Err(_) => {
                    return Err(mismatch_here(name, expected, col));
                },
            };
            let mut out: Vec<SeriesPoint> = Vec::new();
            let mut i: usize = 0;
            while i < rows
                invariant
                    0 <= i <= rows,
                    rows == validity@.len(),
                    *col == (ColumnData::Struct { validity: *validity, fields: *fields }),
                    series_shape_ok(*col),
                    rows == col.num_rows(),
                    ns@.len() == rows,
                    vs@.len() == rows,
                    ds@.len() == rows,
                    opt_i64_view(ns@) =~= spec_int_content(field_of(*col, "n"@)),
                    opt_str_view(ds@) =~= spec_str_content(field_of(*col, "deviation"@)),
                    forall|j: int|
                        0 <= j < rows ==> complex_row_value(
                            complex_presence(field_of(*col, "value"@))[j],
                            spec_str_content(field_of(field_of(*col, "value"@), "real"@))[j],
                            spec_str_content(field_of(field_of(*col, "value"@), "imag"@))[j],
                            #[trigger] vs@[j],
                        ),
                    out@.len() == i,
                    forall|j: int|
                        0 <= j < i ==> {
                            &&& spec_int_content(field_of(*col, "n"@))[j] matches Some(nv) && (
                            #[trigger] out@[j]).n as int == nv
                            &&& complex_row_value(
                                true,
                                spec_str_content(field_of(field_of(*col, "value"@), "real"@))[j],
                                spec_str_content(field_of(field_of(*col, "value"@), "imag"@))[j],
                                Some(out@[j].value),
                            )
                            &&& spec_str_content(field_of(*col, "deviation"@))[j] matches Some(dt)
                                && sci_parses_to(dt, out@[j].deviation)
                        },
                    forall|j: int|
                        0 <= j < i ==> {
                            &&& (#[trigger] spec_int_content(field_of(*col, "n"@))[j])
                                matches Some(nv) && i32::MIN <= nv <= i32::MAX
                            &&& complex_presence(field_of(*col, "value"@))[j]
                            &&& spec_str_content(field_of(*col, "deviation"@))[j] matches Some(dt)
                                && spec_parse_scientific(dt) is Some
                        },
                decreases rows - i,
            {
                proof {
                    assert(opt_i64_view(ns@)[i as int] == spec_int_content(
                        field_of(*col, "n"@),
                    )[i as int]);
                    assert(opt_str_view(ds@)[i as int] == spec_str_content(
                        field_of(*col, "deviation"@),
                    )[i as int]);
                }
                let n64: i64 = match &ns[i] {
                    Some(v) => *v,
                    None => {
                        proof {
                            assert(!series_rows_ok(*col));
                        }
                        return Err(missing("n", name));
                    },
                };
                if n64 < -2147483648 || n64 > 2147483647 {
                    proof {
                        assert(!series_rows_ok(*col));
                    }
                    return Err(DecodeError::IntOutOfRange { value: n64 as i128 });
                }
                let value: ComplexNumber = match &vs[i] {
                    Some(c) => c.clone(),
                    None => {
                        proof {
                            assert(!(complex_presence(field_of(*col, "value"@))[i as int]));
                            assert(!series_rows_ok(*col));
                        }
                        return Err(missing("value", name));
                    },
                };
                let dev: Scientific = match &ds[i] {
                    Some(dt) => {
                        match parse_scientific(dt.as_str()) {
                            Ok(s) => s,
                            Err(e) => {
                                proof {
                                    assert(!series_rows_ok(*col));
                                }
                                return Err(e);
                            },
                        }
                    },
                    None => {
                        proof {
                            assert(!series_rows_ok(*col));
                        }
                        return Err(missing("deviation", name));
                    },
                };
                proof {
                    assert(complex_presence(field_of(*col, "value"@))[i as int]);
                }
                out.push(SeriesPoint { n: n64 as i32, value, deviation: dev });
                i = i + 1;
            }
            proof {
                assert(series_rows_ok(*col));
            }
            Ok(out)
        },
        _ => Err(mismatch_here(name, expected, col)),
    }
}

} // verus!

verus! {

// ---------------------------------------------------------------------------
// Error annotations
// ---------------------------------------------------------------------------

/// The error-info column has `n` and `message` fields of the right
/// shapes.
pub open spec fn error_shape_ok(col: ColumnData) -> bool {
    &&& col matches ColumnData::Struct { .. }
    &&& int_field_ok(col, "n"@)
    &&& str_field_ok(col, "message"@)
}

/// Every row carries an in-range iteration index and a message.
pub open spec fn error_rows_ok(col: ColumnData) -> bool {
    forall|i: int|
        0 <= i < col.num_rows() ==> {
            &&& (#[trigger] spec_int_content(field_of(col, "n"@))[i]) matches Some(nv) && i32::MIN
                <= nv <= i32::MAX
            &&& spec_str_content(field_of(col, "message"@))[i] is Some
        }
}

/// Decode a struct column of fully-required per-iteration diagnostics.
pub fn to_error_info(name: &str, col: &ColumnData) -> (r: Result<Vec<ErrorInfo>, DecodeError>)
    requires
        col.wf(),
    ensures
        (r is Ok) == (error_shape_ok(*col) && error_rows_ok(*col)),
        r matches Ok(v) ==> v@.len() == col.num_rows(),
        r matches Ok(v) ==> forall|i: int|
            0 <= i < v@.len() ==> {
                &&& spec_int_content(field_of(*col, "n"@))[i] matches Some(nv) && (
                #[trigger] v@[i]).n as int == nv
                &&& spec_str_content(field_of(*col, "message"@))[i] matches Some(mt)
                    && v@[i].message@ == mt
            },
        r matches Err(e) ==> (!error_shape_ok(*col) ==> (e matches DecodeError::TypeMismatch {
            field,
            expected,
            actual,
        } && field@ == name@ && expected@ == "{ n: int, message: str }"@ && actual@
            == col.spec_type_label())),
        r matches Err(e) ==> (error_shape_ok(*col) ==> (e matches DecodeError::MissingField { .. }
            || e matches DecodeError::IntOutOfRange { .. })),
{
    let expected = "{ n: int, message: str }";
    match col {
        ColumnData::Struct { validity, fields } => {
            let rows = validity.len();
            proof {
                lemma_lookup_field_in(fields@, "n"@);
                lemma_lookup_field_in(fields@, "message"@);
            }
            let ncol = match find_field(fields, "n") {
                Some(c) => c,
                None => {
                    return Err(mismatch_here(name, expected, col));
                },
            };
            let mcol = match find_field(fields, "message") {
                Some(c) => c,
                None => {
                    return Err(mismatch_here(name, expected, col));
                },
            };
            proof {
                assert(field_of(*col, "n"@) == *ncol);
                assert(field_of(*col, "message"@) == *mcol);
                assert(ncol.num_rows() == rows && mcol.num_rows() == rows);
            }
            let ns = match to_i64("", ncol) {
                Ok(v) => v,
                Err(_) => {
                    return Err(mismatch_here(name, expected, col));
                },
            };
            let ms = match to_str("", mcol) {
                Ok(v) => v,
                Err(_) => {
                    return Err(mismatch_here(name, expected, col));
                },
            };
            let mut out: Vec<ErrorInfo> = Vec::new();
            let mut i: usize = 0;
            while i < rows
                invariant
                    0 <= i <= rows,
                    rows == validity@.len(),
                    *col == (ColumnData::Struct { validity: *validity, fields: *fields }),
                    error_shape_ok(*col),
                    rows == col.num_rows(),
                    ns@.len() == rows,
                    ms@.len() == rows,
                    opt_i64_view(ns@) =~= spec_int_content(field_of(*col, "n"@)),
                    opt_str_view(ms@) =~= spec_str_content(field_of(*col, "message"@)),
                    out@.len() == i,
                    forall|j: int|
                        0 <= j < i ==> {
                            &&& spec_int_content(field_of(*col, "n"@))[j] matches Some(nv) && (
                            #[trigger] out@[j]).n as int == nv
                            &&& spec_str_content(field_of(*col, "message"@))[j] matches Some(mt)
                                && out@[j].message@ == mt
                        },
                    forall|j: int|
                        0 <= j < i ==> {
                            &&& (#[trigger] spec_int_content(field_of(*col, "n"@))[j])
                                matches Some(nv) && i32::MIN <= nv <= i32::MAX
                            &&& spec_str_content(field_of(*col, "message"@))[j] is Some
                        },
                decreases rows - i,
            {
                proof {
                    assert(opt_i64_view(ns@)[i as int] == spec_int_content(
                        field_of(*col, "n"@),
                    )[i as int]);
                    assert(opt_str_view(ms@)[i as int] == spec_str_content(
                        field_of(*col, "message"@),
                    )[i as int]);
                }
                let n64: i64 = match &ns[i] {
                    Some(v) => *v,
                    None => {
                        proof {
                            assert(!error_rows_ok(*col));
                        }
                        return Err(missing("n", name));
                    },
                };
                if n64 < -2147483648 || n64 > 2147483647 {
                    proof {
                        assert(!error_rows_ok(*col));
                    }
                    return Err(DecodeError::IntOutOfRange { value: n64 as i128 });
                }
                let msg: String = match &ms[i] {
                    Some(t) => t.clone(),
                    None => {
                        proof {
                            assert(!error_rows_ok(*col));
                        }
                        return Err(missing("message", name));
                    },
                };
                out.push(ErrorInfo { n: n64 as i32, message: msg });
                i = i + 1;
            }
            proof {
                assert(error_rows_ok(*col));
            }
            Ok(out)
        },
        _ => Err(mismatch_here(name, expected, col)),
    }
}

// ---------------------------------------------------------------------------
// Event annotations
// ---------------------------------------------------------------------------

/// The event-info column has `n`, `name` and `description` fields of the
/// right shapes.
pub open spec fn event_shape_ok(col: ColumnData) -> bool {
    &&& col matches ColumnData::Struct { .. }
    &&& int_field_ok(col, "n"@)
    &&& str_field_ok(col, "name"@)
    &&& str_field_ok(col, "description"@)
}

/// Every row carries an in-range iteration index, a name and a
/// description.
pub open spec fn event_rows_ok(col: ColumnData) -> bool {
    forall|i: int|
        0 <= i < col.num_rows() ==> {
            &&& (#[trigger] spec_int_content(field_of(col, "n"@))[i]) matches Some(nv) && i32::MIN
                <= nv <= i32::MAX
            &&& spec_str_content(field_of(col, "name"@))[i] is Some
            &&& spec_str_content(field_of(col, "description"@))[i] is Some
        }
}

/// Decode a struct column of fully-required named events.
pub fn to_event_info(name: &str, col: &ColumnData) -> (r: Result<Vec<EventInfo>, DecodeError>)
    requires
        col.wf(),
    ensures
        (r is Ok) == (event_shape_ok(*col) && event_rows_ok(*col)),
        r matches Ok(v) ==> v@.len() == col.num_rows(),
        r matches Ok(v) ==> forall|i: int|
            0 <= i < v@.len() ==> {
                &&& spec_int_content(field_of(*col, "n"@))[i] matches Some(nv) && (
                #[trigger] v@[i]).n as int == nv
                &&& spec_str_content(field_of(*col, "name"@))[i] matches Some(nt) && v@[i].name@
                    == nt
                &&& spec_str_content(field_of(*col, "description"@))[i] matches Some(dt)
                    && v@[i].description@ == dt
            },
        r matches Err(e) ==> (!event_shape_ok(*col) ==> (e matches DecodeError::TypeMismatch {
            field,
            expected,
            actual,
        } && field@ == name@ && expected@ == "{ n: int, name: str, description: str }"@ && actual@
            == col.spec_type_label())),
        r matches Err(e) ==> (event_shape_ok(*col) ==> (e matches DecodeError::MissingField { .. }
            || e matches DecodeError::IntOutOfRange { .. })),
{
    let expected = "{ n: int, name: str, description: str }";
    match col {
        ColumnData::Struct { validity, fields } => {
            let rows = validity.len();
            proof {
                lemma_lookup_field_in(fields@, "n"@);
                lemma_lookup_field_in(fields@, "name"@);
                lemma_lookup_field_in(fields@, "description"@);
            }
            let ncol = match find_field(fields, "n") {
                Some(c) => c,
                None => {
                    return Err(mismatch_here(name, expected, col));
                },
            };
            let namecol = match find_field(fields, "name") {
                Some(c) => c,
                None => {
                    return Err(mismatch_here(name, expected, col));
                },
            };
            let dcol = match find_field(fields, "description") {
                Some(c) => c,
                None => {
                    return Err(mismatch_here(name, expected, col));
                },
            };
            proof {
                assert(field_of(*col, "n"@) == *ncol);
                assert(field_of(*col, "name"@) == *namecol);
                assert(field_of(*col, "description"@) == *dcol);
                assert(ncol.num_rows() == rows && namecol.num_rows() == rows && dcol.num_rows()
                    == rows);
            }
            let ns = match to_i64("", ncol) {
                Ok(v) => v,
                Err(_) => {
                    return Err(mismatch_here(name, expected, col));
                },
            };
            let names = match to_str("", namecol) {
                Ok(v) => v,
                Err(_) => {
                    return Err(mismatch_here(name, expected, col));
                },
            };
            let descs = match to_str("", dcol) {
                Ok(v) => v,
                Err(_) => {
                    return Err(mismatch_here(name, expected, col));
                },
            };
            let mut out: Vec<EventInfo> = Vec::new();
            let mut i: usize = 0;
            while i < rows
                invariant
                    0 <= i <= rows,
                    rows == validity@.len(),
                    *col == (ColumnData::Struct { validity: *validity, fields: *fields }),
                    event_shape_ok(*col),
                    rows == col.num_rows(),
                    ns@.len() == rows,
                    names@.len() == rows,
                    descs@.len() == rows,
                    opt_i64_view(ns@) =~= spec_int_content(field_of(*col, "n"@)),
                    opt_str_view(names@) =~= spec_str_content(field_of(*col, "name"@)),
                    opt_str_view(descs@) =~= spec_str_content(field_of(*col, "description"@)),
                    out@.len() == i,
                    forall|j: int|
                        0 <= j < i ==> {
                            &&& spec_int_content(field_of(*col, "n"@))[j] matches Some(nv) && (
                            #[trigger] out@[j]).n as int == nv
                            &&& spec_str_content(field_of(*col, "name"@))[j] matches Some(nt)
                                && out@[j].name@ == nt
                            &&& spec_str_content(field_of(*col, "description"@))[j]
                                matches Some(dt) && out@[j].description@ == dt
                        },
                    forall|j: int|
                        0 <= j < i ==> {
                            &&& (#[trigger] spec_int_content(field_of(*col, "n"@))[j])
                                matches Some(nv) && i32::MIN <= nv <= i32::MAX
                            &&& spec_str_content(field_of(*col, "name"@))[j] is Some
                            &&& spec_str_content(field_of(*col, "description"@))[j] is Some
                        },
                decreases rows - i,
            {
                proof {
                    assert(opt_i64_view(ns@)[i as int] == spec_int_content(
                        field_of(*col, "n"@),
                    )[i as int]);
                    assert(opt_str_view(names@)[i as int] == spec_str_content(
                        field_of(*col, "name"@),
                    )[i as int]);
                    assert(opt_str_view(descs@)[i as int] == spec_str_content(
                        field_of(*col, "description"@),
                    )[i as int]);
                }
                let n64: i64 = match &ns[i] {
                    Some(v) => *v,
                    None => {
                        proof {
                            assert(!event_rows_ok(*col));
                        }
                        return Err(missing("n", name));
                    },
                };
                if n64 < -2147483648 || n64 > 2147483647 {
                    proof {
                        assert(!event_rows_ok(*col));
                    }
                    return Err(DecodeError::IntOutOfRange { value: n64 as i128 });
                }
                let nm: String = match &names[i] {
                    Some(t) => t.clone(),
                    None => {
                        proof {
                            assert(!event_rows_ok(*col));
                        }
                        return Err(missing("name", name));
                    },
                };
                let dsc: String = match &descs[i] {
                    Some(t) => t.clone(),
                    None => {
                        proof {
                            assert(!event_rows_ok(*col));
                        }
                        return Err(missing("description", name));
                    },
                };
                out.push(EventInfo { n: n64 as i32, name: nm, description: dsc });
                i = i + 1;
            }
            proof {
                assert(event_rows_ok(*col));
            }
            Ok(out)
        },
        _ => Err(mismatch_here(name, expected, col)),
    }
}

// ---------------------------------------------------------------------------
// Acceleration points
// ---------------------------------------------------------------------------

/// The accel-point column has `value` and `deviation` fields of the right
/// shapes.
pub open spec fn accel_shape_ok(col: ColumnData) -> bool {
    &&& col matches ColumnData::Struct { .. }
    &&& complex_field_ok(col, "value"@)
    &&& str_field_ok(col, "deviation"@)
}

/// Every valid row carries a present complex value and a parseable
/// deviation; null rows are free.
pub open spec fn accel_rows_ok(col: ColumnData) -> bool {
    forall|i: int|
        0 <= i < col.num_rows() ==> ((#[trigger] struct_validity(col)[i]) ==> {
            &&& complex_presence(field_of(col, "value"@))[i]
            &&& spec_str_content(field_of(col, "deviation"@))[i] matches Some(dt)
                && spec_parse_scientific(dt) is Some
        })
}

/// How one accel-point row decodes: a null row carries no point; a valid
/// row carries the complex value and deviation of its cells.
pub open spec fn accel_row_value(col: ColumnData, i: int, out: Option<AccelPoint>) -> bool {
    if struct_validity(col)[i] {
        out matches Some(p) && {
            &&& complex_row_value(
                true,
                spec_str_content(field_of(field_of(col, "value"@), "real"@))[i],
                spec_str_content(field_of(field_of(col, "value"@), "imag"@))[i],
                Some(p.value),
            )
            &&& spec_str_content(field_of(col, "deviation"@))[i] matches Some(dt) && sci_parses_to(
                dt,
                p.deviation,
            )
        }
    } else {
        out is None
    }
}

/// Decode a struct column of row-optional acceleration points.
///
/// A null row means the method produced no output at that iteration and
/// is preserved as an absent point; a valid row must carry both
/// sub-fields.
pub fn to_accel_point(name: &str, col: &ColumnData) -> (r: Result<
    Vec<Option<AccelPoint>>,
    DecodeError,
>)
    requires
        col.wf(),
    ensures
        (r is Ok) == (accel_shape_ok(*col) && accel_rows_ok(*col)),
        r matches Ok(v) ==> v@.len() == col.num_rows(),
        r matches Ok(v) ==> forall|i: int|
            0 <= i < v@.len() ==> accel_row_value(*col, i, #[trigger] v@[i]),
        r matches Err(e) ==> (!accel_shape_ok(*col) ==> (e matches DecodeError::TypeMismatch {
            field,
            expected,
            actual,
        } && field@ == name@ && expected@
            == "{ value: { real: str, imag: str }, deviation: str }"@ && actual@
            == col.spec_type_label())),
        r matches Err(e) ==> (accel_shape_ok(*col) ==> (e matches DecodeError::MissingField { .. }
            || e matches DecodeError::Parse { .. })),
{
    let expected = "{ value: { real: str, imag: str }, deviation: str }";
    match col {
        ColumnData::Struct { validity, fields } => {
            let rows = validity.len();
            proof {
                lemma_lookup_field_in(fields@, "value"@);
                lemma_lookup_field_in(fields@, "deviation"@);
            }
            let vcol = match find_field(fields, "value") {
                Some(c) => c,
                None => {
                    return Err(mismatch_here(name, expected, col));
                },
            };
            let dcol = match find_field(fields, "deviation") {
                Some(c) => c,
                None => {
                    return Err(mismatch_here(name, expected, col));
                },
            };
            proof {
                assert(field_of(*col, "value"@) == *vcol);
                assert(field_of(*col, "deviation"@) == *dcol);
                assert(vcol.num_rows() == rows && dcol.num_rows() == rows);
                assert(vcol.wf());
            }
            let vs = match to_complex("", vcol) {
                Ok(v) => v,
                Err(_) => {
                    return Err(mismatch_here(name, expected, col));
                },
            };
            let ds = match to_str("", dcol) {
                Ok(v) => v,
                Err(_) => {
                    return Err(mismatch_here(name, expected, col));
                },
            };
            let mut out: Vec<Option<AccelPoint>> = Vec::new();
            let mut i: usize = 0;
            while i < rows
                invariant
                    0 <= i <= rows,
                    rows == validity@.len(),
                    *col == (ColumnData::Struct { validity: *validity, fields: *fields }),
                    accel_shape_ok(*col),
                    rows == col.num_rows(),
                    vs@.len() == rows,
                    ds@.len() == rows,
                    opt_str_view(ds@) =~= spec_str_content(field_of(*col, "deviation"@)),
                    forall|j: int|
                        0 <= j < rows ==> complex_row_value(
                            complex_presence(field_of(*col, "value"@))[j],
                            spec_str_content(field_of(field_of(*col, "value"@), "real"@))[j],
                            spec_str_content(field_of(field_of(*col, "value"@), "imag"@))[j],
                            #[trigger] vs@[j],
                        ),
                    out@.len() == i,
                    forall|j: int| 0 <= j < i ==> accel_row_value(*col, j, #[trigger] out@[j]),
                    forall|j: int|
                        0 <= j < i ==> ((#[trigger] struct_validity(*col)[j]) ==> {
                            &&& complex_presence(field_of(*col, "value"@))[j]
                            &&& spec_str_content(field_of(*col, "deviation"@))[j] matches Some(dt)
                                && spec_parse_scientific(dt) is Some
                        }),
                decreases rows - i,
            {
                proof {
                    assert(opt_str_view(ds@)[i as int] == spec_str_content(
                        field_of(*col, "deviation"@),
                    )[i as int]);
                }
                if !validity[i] {
                    out.push(None);
                } else {
                    let value: ComplexNumber = match &vs[i] {
                        Some(c) => c.clone(),
                        None => {
                            proof {
                                assert(struct_validity(*col)[i as int]);
                                assert(!(complex_presence(field_of(*col, "value"@))[i as int]));
                                assert(!accel_rows_ok(*col));
                            }
                            return Err(missing("value", name));
                        },
                    };
                    let dev: Scientific = match &ds[i] {
                        Some(dt) => {
                            match parse_scientific(dt.as_str()) {
                                Ok(s) => s,
                                Err(e) => {
                                    proof {
                                        assert(struct_validity(*col)[i as int]);
                                        assert(!accel_rows_ok(*col));
                                    }
                                    return Err(e);
                                },
                            }
                        },
                        None => {
                            proof {
                                assert(struct_validity(*col)[i as int]);
                                assert(!accel_rows_ok(*col));
                            }
                            return Err(missing("deviation", name));
                        },
                    };
                    out.push(Some(AccelPoint { value, deviation: dev }));
                }
                i = i + 1;
            }
            proof {
                assert(accel_rows_ok(*col));
            }
            Ok(out)
        },
        _ => Err(mismatch_here(name, expected, col)),
    }
}

} // verus!
