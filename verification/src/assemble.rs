use vstd::prelude::*;
use crate::column::ColumnData;
use crate::decode::{
    accel_row_value, accel_rows_ok, accel_shape_ok, complex_presence, complex_row_value,
    error_rows_ok, error_shape_ok, event_rows_ok, event_shape_ok, field_of, find_field,
    lookup_field, series_rows_ok, series_shape_ok, sci_parses_to, to_accel_point, to_error_info,
    to_event_info, to_series_point,
};
use crate::error::DecodeError;
use crate::extract::{listish, spec_int_content, spec_str_content, to_list};
use crate::records::{
    AccelPoint, AccelRecord, ErrorInfo, EventInfo, SeriesPoint,
};

verus! {

// ---------------------------------------------------------------------------
// Nested-list decoding
// ---------------------------------------------------------------------------

/// The per-row cells of a list column: absent for a null cell or for any
/// row of the all-null placeholder.
pub open spec fn list_cells_of(col: ColumnData) -> Seq<Option<ColumnData>> {
    match col {
        ColumnData::List { cells, .. } => cells@,
        ColumnData::Nulls { len } => Seq::new(len as nat, |i: int| None),
        _ => Seq::empty(),
    }
}

/// What a decoded cell of series points must be.
pub open spec fn series_points_value(col: ColumnData, v: Seq<SeriesPoint>) -> bool {
    &&& v.len() == col.num_rows()
    &&& forall|i: int|
        0 <= i < v.len() ==> {
            &&& spec_int_content(field_of(col, "n"@))[i] matches Some(nv) && (
            #[trigger] v[i]).n as int == nv
            &&& complex_row_value(
                true,
                spec_str_content(field_of(field_of(col, "value"@), "real"@))[i],
                spec_str_content(field_of(field_of(col, "value"@), "imag"@))[i],
                Some(v[i].value),
            )
            &&& spec_str_content(field_of(col, "deviation"@))[i] matches Some(dt) && sci_parses_to(
                dt,
                v[i].deviation,
            )
        }
}

/// Every present cell of the list decodes as a cell of series points.
pub open spec fn point_lists_ok(col: ColumnData) -> bool {
    listish(col) && forall|i: int|
        0 <= i < list_cells_of(col).len() ==> match #[trigger] list_cells_of(col)[i] {
            Some(c) => series_shape_ok(c) && series_rows_ok(c),
            None => true,
        }
}

/// Decode a list column whose elements are series points, preserving
/// which rows have no list at all.
pub fn decode_point_lists(name: &str, col: &ColumnData) -> (r: Result<
    Vec<Option<Vec<SeriesPoint>>>,
    DecodeError,
>)
    requires
        col.wf(),
    ensures
        (r is Ok) == point_lists_ok(*col),
        r matches Ok(v) ==> v@.len() == col.num_rows(),
        r matches Ok(v) ==> forall|i: int|
            0 <= i < v@.len() ==> match (#[trigger] v@[i], list_cells_of(*col)[i]) {
                (Some(pts), Some(c)) => series_points_value(c, pts@),
                (None, None) => true,
                _ => false,
            },
        r matches Err(e) ==> (!listish(*col) ==> (e matches DecodeError::TypeMismatch {
            field,
            expected,
            actual,
        } && field@ == name@ && expected@ == "list"@ && actual@ == col.spec_type_label())),
{
    let cells = match to_list(name, col) {
        Ok(c) => c,
        Err(e) => {
            return Err(e);
        },
    };
    let n = cells.len();
    let mut out: Vec<Option<Vec<SeriesPoint>>> = Vec::new();
    let mut i: usize = 0;
    while i < n
        invariant
            0 <= i <= n,
            n == cells@.len(),
            n == col.num_rows(),
            col.wf(),
            listish(*col),
            forall|j: int|
                0 <= j < n ==> match (#[trigger] cells@[j], list_cells_of(*col)[j]) {
                    (Some(p), Some(c)) => *p == c,
                    (None, None) => true,
                    _ => false,
                },
            out@.len() == i,
            forall|j: int|
                0 <= j < i ==> match (#[trigger] out@[j], list_cells_of(*col)[j]) {
                    (Some(pts), Some(c)) => series_points_value(c, pts@),
                    (None, None) => true,
                    _ => false,
                },
            forall|j: int|
                0 <= j < i ==> match #[trigger] list_cells_of(*col)[j] {
                    Some(c) => series_shape_ok(c) && series_rows_ok(c),
                    None => true,
                },
        decreases n - i,
    {
        match &cells[i] {
            Some(c) => {
                proof {
                    assert(list_cells_of(*col)[i as int] matches Some(cc) && cc == **c);
                    assert(c.wf());
                }
                match to_series_point("computed.[]", c) {
                    Ok(pts) => {
                        proof {
                            assert(series_points_value(**c, pts@));
                        }
                        out.push(Some(pts));
                    },
                    Err(e) => {
                        proof {
                            assert(!point_lists_ok(*col));
                        }
                        return Err(e);
                    },
                }
            },
            None => {
                out.push(None);
            },
        }
        i = i + 1;
    }
    proof {
        assert(point_lists_ok(*col));
    }
    Ok(out)
}

/// What a decoded cell of optional acceleration points must be.
pub open spec fn accel_points_value(col: ColumnData, v: Seq<Option<AccelPoint>>) -> bool {
    &&& v.len() == col.num_rows()
    &&& forall|i: int| 0 <= i < v.len() ==> accel_row_value(col, i, #[trigger] v[i])
}

/// Every present cell of the list decodes as optional acceleration
/// points.
pub open spec fn accel_point_lists_ok(col: ColumnData) -> bool {
    listish(col) && forall|i: int|
        0 <= i < list_cells_of(col).len() ==> match #[trigger] list_cells_of(col)[i] {
            Some(c) => accel_shape_ok(c) && accel_rows_ok(c),
            None => true,
        }
}

/// Decode a list column whose elements are row-optional acceleration
/// points, preserving which rows have no list at all.
pub fn decode_accel_point_lists(name: &str, col: &ColumnData) -> (r: Result<
    Vec<Option<Vec<Option<AccelPoint>>>>,
    DecodeError,
>)
    requires
        col.wf(),
    ensures
        (r is Ok) == accel_point_lists_ok(*col),
        r matches Ok(v) ==> v@.len() == col.num_rows(),
        r matches Ok(v) ==> forall|i: int|
            0 <= i < v@.len() ==> match (#[trigger] v@[i], list_cells_of(*col)[i]) {
                (Some(pts), Some(c)) => accel_points_value(c, pts@),
                (None, None) => true,
                _ => false,
            },
        r matches Err(e) ==> (!listish(*col) ==> (e matches DecodeError::TypeMismatch {
            field,
            expected,
            actual,
        } && field@ == name@ && expected@ == "list"@ && actual@ == col.spec_type_label())),
{
    let cells = match to_list(name, col) {
        Ok(c) => c,
        Err(e) => {
            return Err(e);
        },
    };
    let n = cells.len();
    let mut out: Vec<Option<Vec<Option<AccelPoint>>>> = Vec::new();
    let mut i: usize = 0;
    while i < n
        invariant
            0 <= i <= n,
            n == cells@.len(),
            n == col.num_rows(),
            col.wf(),
            listish(*col),
            forall|j: int|
                0 <= j < n ==> match (#[trigger] cells@[j], list_cells_of(*col)[j]) {
                    (Some(p), Some(c)) => *p == c,
                    (None, None) => true,
                    _ => false,
                },
            out@.len() == i,
            forall|j: int|
                0 <= j < i ==> match (#[trigger] out@[j], list_cells_of(*col)[j]) {
                    (Some(pts), Some(c)) => accel_points_value(c, pts@),
                    (None, None) => true,
                    _ => false,
                },
            forall|j: int|
                0 <= j < i ==> match #[trigger] list_cells_of(*col)[j] {
                    Some(c) => accel_shape_ok(c) && accel_rows_ok(c),
                    None => true,
                },
        decreases n - i,
    {
        match &cells[i] {
            Some(c) => {
                proof {
                    assert(list_cells_of(*col)[i as int] matches Some(cc) && cc == **c);
                    assert(c.wf());
                }
                match to_accel_point("computed.[]", c) {
                    Ok(pts) => {
                        proof {
                            assert(accel_points_value(**c, pts@));
                        }
                        out.push(Some(pts));
                    },
                    Err(e) => {
                        proof {
                            assert(!accel_point_lists_ok(*col));
                        }
                        return Err(e);
                    },
                }
            },
            None => {
                out.push(None);
            },
        }
        i = i + 1;
    }
    proof {
        assert(accel_point_lists_ok(*col));
    }
    Ok(out)
}

/// What a decoded cell of diagnostics must be.
pub open spec fn error_infos_value(col: ColumnData, v: Seq<ErrorInfo>) -> bool {
    &&& v.len() == col.num_rows()
    &&& forall|i: int|
        0 <= i < v.len() ==> {
            &&& spec_int_content(field_of(col, "n"@))[i] matches Some(nv) && (
            #[trigger] v[i]).n as int == nv
            &&& spec_str_content(field_of(col, "message"@))[i] matches Some(mt) && v[i].message@
                == mt
        }
}

/// Every present cell of the list decodes as diagnostics.
pub open spec fn error_lists_ok(col: ColumnData) -> bool {
    listish(col) && forall|i: int|
        0 <= i < list_cells_of(col).len() ==> match #[trigger] list_cells_of(col)[i] {
            Some(c) => error_shape_ok(c) && error_rows_ok(c),
            None => true,
        }
}

/// Decode a list column of diagnostics; a row with no list at all gets an
/// empty one.
pub fn decode_error_lists(name: &str, col: &ColumnData) -> (r: Result<
    Vec<Vec<ErrorInfo>>,
    DecodeError,
>)
    requires
        col.wf(),
    ensures
        (r is Ok) == error_lists_ok(*col),
        r matches Ok(v) ==> v@.len() == col.num_rows(),
        r matches Ok(v) ==> forall|i: int|
            0 <= i < v@.len() ==> match list_cells_of(*col)[i] {
                Some(c) => error_infos_value(c, (#[trigger] v@[i])@),
                None => v@[i]@.len() == 0,
            },
        r matches Err(e) ==> (!listish(*col) ==> (e matches DecodeError::TypeMismatch {
            field,
            expected,
            actual,
        } && field@ == name@ && expected@ == "list"@ && actual@ == col.spec_type_label())),
{
    let cells = match to_list(name, col) {
        Ok(c) => c,
        Err(e) => {
            return Err(e);
        },
    };
    let n = cells.len();
    let mut out: Vec<Vec<ErrorInfo>> = Vec::new();
    let mut i: usize = 0;
    while i < n
        invariant
            0 <= i <= n,
            n == cells@.len(),
            n == col.num_rows(),
            col.wf(),
            listish(*col),
            forall|j: int|
                0 <= j < n ==> match (#[trigger] cells@[j], list_cells_of(*col)[j]) {
                    (Some(p), Some(c)) => *p == c,
                    (None, None) => true,
                    _ => false,
                },
            out@.len() == i,
            forall|j: int|
                0 <= j < i ==> match list_cells_of(*col)[j] {
                    Some(c) => error_infos_value(c, (#[trigger] out@[j])@),
                    None => out@[j]@.len() == 0,
                },
            forall|j: int|
                0 <= j < i ==> match #[trigger] list_cells_of(*col)[j] {
                    Some(c) => error_shape_ok(c) && error_rows_ok(c),
                    None => true,
                },
        decreases n - i,
    {
        match &cells[i] {
            Some(c) => {
                proof {
                    assert(list_cells_of(*col)[i as int] matches Some(cc) && cc == **c);
                    assert(c.wf());
                }
                match to_error_info("errors.[]", c) {
                    Ok(infos) => {
                        proof {
                            assert(error_infos_value(**c, infos@));
                        }
                        out.push(infos);
                    },
                    Err(e) => {
                        proof {
                            assert(!error_lists_ok(*col));
                        }
                        return Err(e);
                    },
                }
            },
            None => {
                out.push(Vec::new());
            },
        }
        i = i + 1;
    }
    proof {
        assert(error_lists_ok(*col));
    }
    Ok(out)
}

/// What a decoded cell of events must be.
pub open spec fn event_infos_value(col: ColumnData, v: Seq<EventInfo>) -> bool {
    &&& v.len() == col.num_rows()
    &&& forall|i: int|
        0 <= i < v.len() ==> {
            &&& spec_int_content(field_of(col, "n"@))[i] matches Some(nv) && (
            #[trigger] v[i]).n as int == nv
            &&& spec_str_content(field_of(col, "name"@))[i] matches Some(nt) && v[i].name@ == nt
            &&& spec_str_content(field_of(col, "description"@))[i] matches Some(dt)
                && v[i].description@ == dt
        }
}

/// Every present cell of the list decodes as events.
pub open spec fn event_lists_ok(col: ColumnData) -> bool {
    listish(col) && forall|i: int|
        0 <= i < list_cells_of(col).len() ==> match #[trigger] list_cells_of(col)[i] {
            Some(c) => event_shape_ok(c) && event_rows_ok(c),
            None => true,
        }
}

/// Decode a list column of events; a row with no list at all gets an
/// empty one.
pub fn decode_event_lists(name: &str, col: &ColumnData) -> (r: Result<
    Vec<Vec<EventInfo>>,
    DecodeError,
>)
    requires
        col.wf(),
    ensures
        (r is Ok) == event_lists_ok(*col),
        r matches Ok(v) ==> v@.len() == col.num_rows(),
        r matches Ok(v) ==> forall|i: int|
            0 <= i < v@.len() ==> match list_cells_of(*col)[i] {
                Some(c) => event_infos_value(c, (#[trigger] v@[i])@),
                None => v@[i]@.len() == 0,
            },
        r matches Err(e) ==> (!listish(*col) ==> (e matches DecodeError::TypeMismatch {
            field,
            expected,
            actual,
        } && field@ == name@ && expected@ == "list"@ && actual@ == col.spec_type_label())),
{
    let cells = match to_list(name, col) {
        Ok(c) => c,
        Err(e) => {
            return Err(e);
        },
    };
    let n = cells.len();
    let mut out: Vec<Vec<EventInfo>> = Vec::new();
    let mut i: usize = 0;
    while i < n
        invariant
            0 <= i <= n,
            n == cells@.len(),
            n == col.num_rows(),
            col.wf(),
            listish(*col),
            forall|j: int|
                0 <= j < n ==> match (#[trigger] cells@[j], list_cells_of(*col)[j]) {
                    (Some(p), Some(c)) => *p == c,
                    (None, None) => true,
                    _ => false,
                },
            out@.len() == i,
            forall|j: int|
                0 <= j < i ==> match list_cells_of(*col)[j] {
                    Some(c) => event_infos_value(c, (#[trigger] out@[j])@),
                    None => out@[j]@.len() == 0,
                },
            forall|j: int|
                0 <= j < i ==> match #[trigger] list_cells_of(*col)[j] {
                    Some(c) => event_shape_ok(c) && event_rows_ok(c),
                    None => true,
                },
        decreases n - i,
    {
        match &cells[i] {
            Some(c) => {
                proof {
                    assert(list_cells_of(*col)[i as int] matches Some(cc) && cc == **c);
                    assert(c.wf());
                }
                match to_event_info("events.[]", c) {
                    Ok(infos) => {
                        proof {
                            assert(event_infos_value(**c, infos@));
                        }
                        out.push(infos);
                    },
                    Err(e) => {
                        proof {
                            assert(!event_lists_ok(*col));
                        }
                        return Err(e);
                    },
                }
            },
            None => {
                out.push(Vec::new());
            },
        }
        i = i + 1;
    }
    proof {
        assert(event_lists_ok(*col));
    }
    Ok(out)
}

} // verus!

verus! {

// ---------------------------------------------------------------------------
// Batches
// ---------------------------------------------------------------------------

use crate::decode::{complex_ok, sci_is_zero_default, to_complex};
use crate::extract::{
    fields_stringish, int_content_fits, intish, opt_i64_view, opt_str_view, spec_row_args,
    stringish, to_i64, to_str, to_struct_str,
};
use crate::records::{
    accel_records_view, clone_accel_records, clone_series_points, AccelInfo, ArgMap,
    ComplexNumber, SeriesData, SeriesRecord,
};

/// One record batch, reduced to named plain columns of equal row count.
pub struct Batch {
    pub num_rows: usize,
    pub columns: Vec<(String, ColumnData)>,
}

impl Batch {
    /// Every column is well-formed and has exactly the batch's row count.
    pub open spec fn wf(self) -> bool {
        forall|k: int|
            0 <= k < self.columns@.len() ==> (#[trigger] self.columns@[k]).1.num_rows()
                == self.num_rows && self.columns@[k].1.wf()
    }

    /// The first column of this name, if any.
    pub open spec fn spec_column(self, name: Seq<char>) -> Option<ColumnData> {
        lookup_field(self.columns@, name)
    }

    pub fn column<'a>(&'a self, name: &str) -> (r: Option<&'a ColumnData>)
        ensures
            match r {
                Some(c) => self.spec_column(name@) == Some(*c),
                None => self.spec_column(name@) is None,
            },
    {
        find_field(&self.columns, name)
    }
}

/// The named column, with a zero-row placeholder where it is absent (the
/// decoders only apply this under a presence guard).
pub open spec fn batch_col(b: Batch, name: Seq<char>) -> ColumnData {
    match lookup_field(b.columns@, name) {
        Some(c) => c,
        None => ColumnData::Nulls { len: 0 },
    }
}

// ---------------------------------------------------------------------------
// Series batches
// ---------------------------------------------------------------------------

/// The series batch carries all six required columns in decodable
/// shapes.
pub open spec fn series_batch_shape_ok(b: Batch) -> bool {
    &&& b.spec_column("precision"@) matches Some(c) && stringish(c)
    &&& b.spec_column("series_id"@) matches Some(c) && intish(c) && int_content_fits(c)
    &&& b.spec_column("series_name"@) matches Some(c) && stringish(c)
    &&& b.spec_column("arguments"@) matches Some(c) && (c matches ColumnData::Nulls { .. } || (c
        matches ColumnData::Struct { fields, .. } && fields_stringish(fields@)))
    &&& b.spec_column("series_limit"@) matches Some(c) && (c matches ColumnData::Nulls { .. }
        || complex_ok(c))
    &&& b.spec_column("computed"@) matches Some(c) && point_lists_ok(c)
}

/// Every row of the series batch carries its required values.
pub open spec fn series_rows_decodable(b: Batch) -> bool {
    forall|i: int|
        0 <= i < b.num_rows ==> {
            &&& (#[trigger] spec_str_content(batch_col(b, "precision"@))[i]) is Some
            &&& spec_int_content(batch_col(b, "series_id"@))[i] matches Some(v) && i32::MIN <= v
                <= i32::MAX
            &&& spec_str_content(batch_col(b, "series_name"@))[i] is Some
            &&& list_cells_of(batch_col(b, "computed"@))[i] is Some
        }
}

/// What the series record decoded from row `i` must hold.
pub open spec fn series_record_value(b: Batch, i: int, rec: SeriesRecord) -> bool {
    &&& spec_str_content(batch_col(b, "precision"@))[i] matches Some(t) && rec.precision@ == t
    &&& spec_int_content(batch_col(b, "series_id"@))[i] matches Some(v) && rec.series_id as int
        == v
    &&& spec_str_content(batch_col(b, "series_name"@))[i] matches Some(t) && rec.name@ == t
    &&& (batch_col(b, "arguments"@) matches ColumnData::Struct { fields, .. } ==> rec.arguments@
        == spec_row_args(fields@, i))
    &&& (batch_col(b, "arguments"@) matches ColumnData::Nulls { .. } ==> rec.arguments@.len()
        == 0)
    &&& if complex_presence(batch_col(b, "series_limit"@))[i] {
        complex_row_value(
            true,
            spec_str_content(field_of(batch_col(b, "series_limit"@), "real"@))[i],
            spec_str_content(field_of(batch_col(b, "series_limit"@), "imag"@))[i],
            Some(rec.series_limit),
        )
    } else {
        sci_is_zero_default(rec.series_limit.real) && sci_is_zero_default(rec.series_limit.imag)
    }
    &&& list_cells_of(batch_col(b, "computed"@))[i] matches Some(c) && series_points_value(
        c,
        rec.computed@,
    )
}

/// Decode one series batch into its records, row by row.
///
/// Succeeds exactly when the six columns are present in decodable shapes
/// and every row carries its required values; any failure aborts the
/// whole batch.
pub fn decode_series_rows(b: &Batch) -> (r: Result<Vec<SeriesRecord>, DecodeError>)
    requires
        b.wf(),
    ensures
        (r is Ok) == (series_batch_shape_ok(*b) && series_rows_decodable(*b)),
        r matches Ok(v) ==> v@.len() == b.num_rows,
        r matches Ok(v) ==> forall|i: int|
            0 <= i < v@.len() ==> series_record_value(*b, i, #[trigger] v@[i]),
{
    let rows = b.num_rows;
    let pcol = match b.column("precision") {
        Some(c) => c,
        None => {
            return Err(DecodeError::MissingColumn { name: String::from_str("precision") });
        },
    };
    let idcol = match b.column("series_id") {
        Some(c) => c,
        None => {
            return Err(DecodeError::MissingColumn { name: String::from_str("series_id") });
        },
    };
    let ncol = match b.column("series_name") {
        Some(c) => c,
        None => {
            return Err(DecodeError::MissingColumn { name: String::from_str("series_name") });
        },
    };
    let acol = match b.column("arguments") {
        Some(c) => c,
        None => {
            return Err(DecodeError::MissingColumn { name: String::from_str("arguments") });
        },
    };
    let lcol = match b.column("series_limit") {
        Some(c) => c,
        None => {
            return Err(DecodeError::MissingColumn { name: String::from_str("series_limit") });
        },
    };
    let ccol = match b.column("computed") {
        Some(c) => c,
        None => {
            return Err(DecodeError::MissingColumn { name: String::from_str("computed") });
        },
    };
    proof {
        lemma_lookup_col(*b, "precision"@);
        lemma_lookup_col(*b, "series_id"@);
        lemma_lookup_col(*b, "series_name"@);
        lemma_lookup_col(*b, "arguments"@);
        lemma_lookup_col(*b, "series_limit"@);
        lemma_lookup_col(*b, "computed"@);
        assert(batch_col(*b, "precision"@) == *pcol);
        assert(batch_col(*b, "series_id"@) == *idcol);
        assert(batch_col(*b, "series_name"@) == *ncol);
        assert(batch_col(*b, "arguments"@) == *acol);
        assert(batch_col(*b, "series_limit"@) == *lcol);
        assert(batch_col(*b, "computed"@) == *ccol);
    }
    let precisions = match to_str("precision", pcol) {
        Ok(v) => v,
        Err(e) => {
            return Err(e);
        },
    };
    let ids = match to_i64("series_id", idcol) {
        Ok(v) => v,
        Err(e) => {
            return Err(e);
        },
    };
    let names = match to_str("series_name", ncol) {
        Ok(v) => v,
        Err(e) => {
            return Err(e);
        },
    };
    let args = match to_struct_str("arguments", acol) {
        Ok(v) => v,
        Err(e) => {
            return Err(e);
        },
    };
    let limits = match to_complex("series_limit", lcol) {
        Ok(v) => v,
        Err(e) => {
            return Err(e);
        },
    };
    let computed = match decode_point_lists("computed", ccol) {
        Ok(v) => v,
        Err(e) => {
            return Err(e);
        },
    };
    let mut out: Vec<SeriesRecord> = Vec::new();
    let mut i: usize = 0;
    while i < rows
        invariant
            0 <= i <= rows,
            rows == b.num_rows,
            series_batch_shape_ok(*b),
            precisions@.len() == rows,
            ids@.len() == rows,
            names@.len() == rows,
            args@.len() == rows,
            limits@.len() == rows,
            computed@.len() == rows,
            opt_str_view(precisions@) =~= spec_str_content(batch_col(*b, "precision"@)),
            opt_i64_view(ids@) =~= spec_int_content(batch_col(*b, "series_id"@)),
            opt_str_view(names@) =~= spec_str_content(batch_col(*b, "series_name"@)),
            batch_col(*b, "arguments"@) matches ColumnData::Struct { fields, .. } ==> forall|
                j: int,
            |
                0 <= j < rows ==> (#[trigger] args@[j])@ == spec_row_args(fields@, j),
            batch_col(*b, "arguments"@) matches ColumnData::Nulls { .. } ==> forall|j: int|
                0 <= j < rows ==> (#[trigger] args@[j])@.len() == 0,
            forall|j: int|
                0 <= j < rows ==> complex_row_value(
                    complex_presence(batch_col(*b, "series_limit"@))[j],
                    spec_str_content(field_of(batch_col(*b, "series_limit"@), "real"@))[j],
                    spec_str_content(field_of(batch_col(*b, "series_limit"@), "imag"@))[j],
                    #[trigger] limits@[j],
                ),
            forall|j: int|
                0 <= j < rows ==> match (#[trigger] computed@[j], list_cells_of(
                    batch_col(*b, "computed"@),
                )[j]) {
                    (Some(pts), Some(c)) => series_points_value(c, pts@),
                    (None, None) => true,
                    _ => false,
                },
            out@.len() == i,
            forall|j: int| 0 <= j < i ==> series_record_value(*b, j, #[trigger] out@[j]),
            forall|j: int|
                0 <= j < i ==> {
                    &&& (#[trigger] spec_str_content(batch_col(*b, "precision"@))[j]) is Some
                    &&& spec_int_content(batch_col(*b, "series_id"@))[j] matches Some(v)
                        && i32::MIN <= v <= i32::MAX
                    &&& spec_str_content(batch_col(*b, "series_name"@))[j] is Some
                    &&& list_cells_of(batch_col(*b, "computed"@))[j] is Some
                },
        decreases rows - i,
    {
        proof {
            assert(opt_str_view(precisions@)[i as int] == spec_str_content(
                batch_col(*b, "precision"@),
            )[i as int]);
            assert(opt_i64_view(ids@)[i as int] == spec_int_content(
                batch_col(*b, "series_id"@),
            )[i as int]);
            assert(opt_str_view(names@)[i as int] == spec_str_content(
                batch_col(*b, "series_name"@),
            )[i as int]);
        }
        let precision: String = match &precisions[i] {
            Some(t) => t.clone(),
            None => {
                proof {
                    assert(!series_rows_decodable(*b));
                }
                return Err(DecodeError::MissingField {
                    field: String::from_str("precision"),
                    container: String::from_str("series"),
                });
            },
        };
        let id64: i64 = match &ids[i] {
            Some(v) => *v,
            None => {
                proof {
                    assert(!series_rows_decodable(*b));
                }
                return Err(DecodeError::MissingField {
                    field: String::from_str("series_id"),
                    container: String::from_str("series"),
                });
            },
        };
        if id64 < -2147483648 || id64 > 2147483647 {
            proof {
                assert(!series_rows_decodable(*b));
            }
            return Err(DecodeError::IntOutOfRange { value: id64 as i128 });
        }
        let name: String = match &names[i] {
            Some(t) => t.clone(),
            None => {
                proof {
                    assert(!series_rows_decodable(*b));
                }
                return Err(DecodeError::MissingField {
                    field: String::from_str("series_name"),
                    container: String::from_str("series"),
                });
            },
        };
        let arguments: ArgMap = args[i].clone();
        let series_limit: ComplexNumber = match &limits[i] {
            Some(c) => c.clone(),
            None => ComplexNumber::zero(),
        };
        let computed_points = match &computed[i] {
            Some(pts) => clone_series_points(pts),
            None => {
                proof {
                    assert(!series_rows_decodable(*b));
                }
                return Err(DecodeError::MissingField {
                    field: String::from_str("computed"),
                    container: String::from_str("series"),
                });
            },
        };
        out.push(
            SeriesRecord {
                precision,
                series_id: id64 as i32,
                name,
                arguments,
                series_limit,
                computed: computed_points,
            },
        );
        i = i + 1;
    }
    proof {
        assert(series_rows_decodable(*b));
    }
    Ok(out)
}

/// A present column of the batch is well-formed with the batch's row
/// count.
proof fn lemma_lookup_col(b: Batch, name: Seq<char>)
    requires
        b.wf(),
    ensures
        lookup_field(b.columns@, name) matches Some(c) ==> c.num_rows() == b.num_rows && c.wf(),
{
    crate::decode::lemma_lookup_in_pub(b.columns@, name);
    match lookup_field(b.columns@, name) {
        Some(c) => {
            let k = choose|k: int|
                0 <= k < b.columns@.len() && (#[trigger] b.columns@[k]).1 == c;
        },
        None => {},
    }
}

} // verus!

verus! {

// ---------------------------------------------------------------------------
// Acceleration batches
// ---------------------------------------------------------------------------

/// The accelerations batch carries its required columns in decodable
/// shapes; `additional_args`, `errors` and `events` may be absent
/// entirely.
pub open spec fn accel_batch_shape_ok(b: Batch) -> bool {
    &&& b.spec_column("series_id"@) matches Some(c) && intish(c) && int_content_fits(c)
    &&& b.spec_column("accel_name"@) matches Some(c) && stringish(c)
    &&& b.spec_column("m_value"@) matches Some(c) && intish(c) && int_content_fits(c)
    &&& match b.spec_column("additional_args"@) {
        Some(c) => c matches ColumnData::Nulls { .. } || (c matches ColumnData::Struct {
            fields,
            ..
        } && fields_stringish(fields@)),
        None => true,
    }
    &&& b.spec_column("computed"@) matches Some(c) && accel_point_lists_ok(c)
    &&& match b.spec_column("errors"@) {
        Some(c) => error_lists_ok(c),
        None => true,
    }
    &&& match b.spec_column("events"@) {
        Some(c) => event_lists_ok(c),
        None => true,
    }
}

/// Every row of the accelerations batch carries its required values.
pub open spec fn accel_rows_decodable(b: Batch) -> bool {
    forall|i: int|
        0 <= i < b.num_rows ==> {
            &&& (#[trigger] spec_int_content(batch_col(b, "series_id"@))[i]) matches Some(v)
                && i32::MIN <= v <= i32::MAX
            &&& spec_str_content(batch_col(b, "accel_name"@))[i] is Some
            &&& spec_int_content(batch_col(b, "m_value"@))[i] matches Some(v) && i32::MIN <= v
                <= i32::MAX
            &&& list_cells_of(batch_col(b, "computed"@))[i] is Some
        }
}

/// What the keyed acceleration record decoded from row `i` must hold.
pub open spec fn accel_record_value(b: Batch, i: int, key: i32, rec: AccelRecord) -> bool {
    &&& spec_int_content(batch_col(b, "series_id"@))[i] matches Some(v) && key as int == v
    &&& spec_str_content(batch_col(b, "accel_name"@))[i] matches Some(t) && rec.accel_info.name@
        == t
    &&& spec_int_content(batch_col(b, "m_value"@))[i] matches Some(v) && rec.accel_info.m_value
        as int == v
    &&& match b.spec_column("additional_args"@) {
        Some(c) => (c matches ColumnData::Struct { fields, .. }
            ==> rec.accel_info.additional_args@ == spec_row_args(fields@, i)) && (c
            matches ColumnData::Nulls { .. } ==> rec.accel_info.additional_args@.len() == 0),
        None => rec.accel_info.additional_args@.len() == 0,
    }
    &&& list_cells_of(batch_col(b, "computed"@))[i] matches Some(c) && accel_points_value(
        c,
        rec.computed@,
    )
    &&& match b.spec_column("errors"@) {
        Some(c) => match list_cells_of(c)[i] {
            Some(cc) => error_infos_value(cc, rec.errors@),
            None => rec.errors@.len() == 0,
        },
        None => rec.errors@.len() == 0,
    }
    &&& match b.spec_column("events"@) {
        Some(c) => match list_cells_of(c)[i] {
            Some(cc) => event_infos_value(cc, rec.events@),
            None => rec.events@.len() == 0,
        },
        None => rec.events@.len() == 0,
    }
}

fn empty_arg_rows(rows: usize) -> (r: Vec<ArgMap>)
    ensures
        r@.len() == rows,
        forall|j: int| 0 <= j < rows ==> (#[trigger] r@[j])@.len() == 0,
{
    let mut out: Vec<ArgMap> = Vec::new();
    let mut i: usize = 0;
    while i < rows
        invariant
            0 <= i <= rows,
            out@.len() == i,
            forall|j: int| 0 <= j < i ==> (#[trigger] out@[j])@.len() == 0,
        decreases rows - i,
    {
        out.push(ArgMap::new());
        i = i + 1;
    }
    out
}

fn empty_error_rows(rows: usize) -> (r: Vec<Vec<ErrorInfo>>)
    ensures
        r@.len() == rows,
        forall|j: int| 0 <= j < rows ==> (#[trigger] r@[j])@.len() == 0,
{
    let mut out: Vec<Vec<ErrorInfo>> = Vec::new();
    let mut i: usize = 0;
    while i < rows
        invariant
            0 <= i <= rows,
            out@.len() == i,
            forall|j: int| 0 <= j < i ==> (#[trigger] out@[j])@.len() == 0,
        decreases rows - i,
    {
        out.push(Vec::new());
        i = i + 1;
    }
    out
}

fn empty_event_rows(rows: usize) -> (r: Vec<Vec<EventInfo>>)
    ensures
        r@.len() == rows,
        forall|j: int| 0 <= j < rows ==> (#[trigger] r@[j])@.len() == 0,
    {
    let mut out: Vec<Vec<EventInfo>> = Vec::new();
    let mut i: usize = 0;
    while i < rows
        invariant
            0 <= i <= rows,
            out@.len() == i,
            forall|j: int| 0 <= j < i ==> (#[trigger] out@[j])@.len() == 0,
        decreases rows - i,
    {
        out.push(Vec::new());
        i = i + 1;
    }
    out
}

fn clone_opt_accel_points_pub(v: &Vec<Option<AccelPoint>>) -> (r: Vec<Option<AccelPoint>>)
    ensures
        r@ =~= v@,
{
    let n = v.len();
    let mut out: Vec<Option<AccelPoint>> = Vec::new();
    let mut i: usize = 0;
    while i < n
        invariant
            0 <= i <= n,
            n == v@.len(),
            out@.len() == i,
            forall|j: int| 0 <= j < i ==> out@[j] == v@[j],
        decreases n - i,
    {
        match &v[i] {
            Some(p) => {
                let c = p.clone();
                assert(v@[i as int] == Some(*p));
                out.push(Some(c));
                assert(out@[i as int] == v@[i as int]);
            },
            None => {
                assert(v@[i as int] == None::<AccelPoint>);
                out.push(None);
                assert(out@[i as int] == v@[i as int]);
            },
        }
        i = i + 1;
    }
    out
}

fn clone_error_infos_pub(v: &Vec<ErrorInfo>) -> (r: Vec<ErrorInfo>)
    ensures
        r@ =~= v@,
{
    let n = v.len();
    let mut out: Vec<ErrorInfo> = Vec::new();
    let mut i: usize = 0;
    while i < n
        invariant
            0 <= i <= n,
            n == v@.len(),
            out@.len() == i,
            forall|j: int| 0 <= j < i ==> out@[j] == v@[j],
        decreases n - i,
    {
        out.push(v[i].clone());
        i = i + 1;
    }
    out
}

fn clone_event_infos_pub(v: &Vec<EventInfo>) -> (r: Vec<EventInfo>)
    ensures
        r@ =~= v@,
{
    let n = v.len();
    let mut out: Vec<EventInfo> = Vec::new();
    let mut i: usize = 0;
    while i < n
        invariant
            0 <= i <= n,
            n == v@.len(),
            out@.len() == i,
            forall|j: int| 0 <= j < i ==> out@[j] == v@[j],
        decreases n - i,
    {
        out.push(v[i].clone());
        i = i + 1;
    }
    out
}

/// Decode one accelerations batch into keyed records, row by row.
///
/// Each row yields its join key (`series_id`) and the record; missing
/// `additional_args`, `errors` or `events` columns default to empty, and
/// a null `errors`/`events` cell defaults to an empty list.
pub fn decode_accel_rows(b: &Batch) -> (r: Result<Vec<(i32, AccelRecord)>, DecodeError>)
    requires
        b.wf(),
    ensures
        (r is Ok) == (accel_batch_shape_ok(*b) && accel_rows_decodable(*b)),
        r matches Ok(v) ==> v@.len() == b.num_rows,
        r matches Ok(v) ==> forall|i: int|
            0 <= i < v@.len() ==> accel_record_value(*b, i, (#[trigger] v@[i]).0, v@[i].1),
{
    let rows = b.num_rows;
    let idcol = match b.column("series_id") {
        Some(c) => c,
        None => {
            return Err(DecodeError::MissingColumn { name: String::from_str("series_id") });
        },
    };
    let ncol = match b.column("accel_name") {
        Some(c) => c,
        None => {
            return Err(DecodeError::MissingColumn { name: String::from_str("accel_name") });
        },
    };
    let mcol = match b.column("m_value") {
        Some(c) => c,
        None => {
            return Err(DecodeError::MissingColumn { name: String::from_str("m_value") });
        },
    };
    let ccol = match b.column("computed") {
        Some(c) => c,
        None => {
            return Err(DecodeError::MissingColumn { name: String::from_str("computed") });
        },
    };
    proof {
        lemma_lookup_col(*b, "series_id"@);
        lemma_lookup_col(*b, "accel_name"@);
        lemma_lookup_col(*b, "m_value"@);
        lemma_lookup_col(*b, "computed"@);
        lemma_lookup_col(*b, "additional_args"@);
        lemma_lookup_col(*b, "errors"@);
        lemma_lookup_col(*b, "events"@);
        assert(batch_col(*b, "series_id"@) == *idcol);
        assert(batch_col(*b, "accel_name"@) == *ncol);
        assert(batch_col(*b, "m_value"@) == *mcol);
        assert(batch_col(*b, "computed"@) == *ccol);
    }
    let ids = match to_i64("series_id", idcol) {
        Ok(v) => v,
        Err(e) => {
            return Err(e);
        },
    };
    let names = match to_str("accel_name", ncol) {
        Ok(v) => v,
        Err(e) => {
            return Err(e);
        },
    };
    let ms = match to_i64("m_value", mcol) {
        Ok(v) => v,
        Err(e) => {
            return Err(e);
        },
    };
    let args = match b.column("additional_args") {
        Some(acol) => {
            match to_struct_str("additional_args", acol) {
                Ok(v) => v,
                Err(e) => {
                    return Err(e);
                },
            }
        },
        None => empty_arg_rows(rows),
    };
    let computed = match decode_accel_point_lists("computed", ccol) {
        Ok(v) => v,
        Err(e) => {
            return Err(e);
        },
    };
    let errors = match b.column("errors") {
        Some(ecol) => {
            match decode_error_lists("errors", ecol) {
                Ok(v) => v,
                Err(e) => {
                    return Err(e);
                },
            }
        },
        None => empty_error_rows(rows),
    };
    let events = match b.column("events") {
        Some(ecol) => {
            match decode_event_lists("events", ecol) {
                Ok(v) => v,
                Err(e) => {
                    return Err(e);
                },
            }
        },
        None => empty_event_rows(rows),
    };
    let mut out: Vec<(i32, AccelRecord)> = Vec::new();
    let mut i: usize = 0;
    while i < rows
        invariant
            0 <= i <= rows,
            rows == b.num_rows,
            accel_batch_shape_ok(*b),
            ids@.len() == rows,
            names@.len() == rows,
            ms@.len() == rows,
            args@.len() == rows,
            computed@.len() == rows,
            errors@.len() == rows,
            events@.len() == rows,
            opt_i64_view(ids@) =~= spec_int_content(batch_col(*b, "series_id"@)),
            opt_str_view(names@) =~= spec_str_content(batch_col(*b, "accel_name"@)),
            opt_i64_view(ms@) =~= spec_int_content(batch_col(*b, "m_value"@)),
            match b.spec_column("additional_args"@) {
                Some(c) => (c matches ColumnData::Struct { fields, .. } ==> forall|j: int|
                    0 <= j < rows ==> (#[trigger] args@[j])@ == spec_row_args(fields@, j)) && (c
                    matches ColumnData::Nulls { .. } ==> forall|j: int|
                    0 <= j < rows ==> (#[trigger] args@[j])@.len() == 0),
                None => forall|j: int| 0 <= j < rows ==> (#[trigger] args@[j])@.len() == 0,
            },
            forall|j: int|
                0 <= j < rows ==> match (#[trigger] computed@[j], list_cells_of(
                    batch_col(*b, "computed"@),
                )[j]) {
                    (Some(pts), Some(c)) => accel_points_value(c, pts@),
                    (None, None) => true,
                    _ => false,
                },
            match b.spec_column("errors"@) {
                Some(c) => forall|j: int|
                    0 <= j < rows ==> match list_cells_of(c)[j] {
                        Some(cc) => error_infos_value(cc, (#[trigger] errors@[j])@),
                        None => errors@[j]@.len() == 0,
                    },
                None => forall|j: int| 0 <= j < rows ==> (#[trigger] errors@[j])@.len() == 0,
            },
            match b.spec_column("events"@) {
                Some(c) => forall|j: int|
                    0 <= j < rows ==> match list_cells_of(c)[j] {
                        Some(cc) => event_infos_value(cc, (#[trigger] events@[j])@),
                        None => events@[j]@.len() == 0,
                    },
                None => forall|j: int| 0 <= j < rows ==> (#[trigger] events@[j])@.len() == 0,
            },
            out@.len() == i,
            forall|j: int|
                0 <= j < i ==> accel_record_value(*b, j, (#[trigger] out@[j]).0, out@[j].1),
            forall|j: int|
                0 <= j < i ==> {
                    &&& (#[trigger] spec_int_content(batch_col(*b, "series_id"@))[j])
                        matches Some(v) && i32::MIN <= v <= i32::MAX
                    &&& spec_str_content(batch_col(*b, "accel_name"@))[j] is Some
                    &&& spec_int_content(batch_col(*b, "m_value"@))[j] matches Some(v) && i32::MIN
                        <= v <= i32::MAX
                    &&& list_cells_of(batch_col(*b, "computed"@))[j] is Some
                },
        decreases rows - i,
    {
        proof {
            assert(opt_i64_view(ids@)[i as int] == spec_int_content(
                batch_col(*b, "series_id"@),
            )[i as int]);
            assert(opt_str_view(names@)[i as int] == spec_str_content(
                batch_col(*b, "accel_name"@),
            )[i as int]);
            assert(opt_i64_view(ms@)[i as int] == spec_int_content(
                batch_col(*b, "m_value"@),
            )[i as int]);
        }
        let id64: i64 = match &ids[i] {
            Some(v) => *v,
            None => {
                proof {
                    assert(!accel_rows_decodable(*b));
                }
                return Err(DecodeError::MissingField {
                    field: String::from_str("series_id"),
                    container: String::from_str("accelerations"),
                });
            },
        };
        if id64 < -2147483648 || id64 > 2147483647 {
            proof {
                assert(!accel_rows_decodable(*b));
            }
            return Err(DecodeError::IntOutOfRange { value: id64 as i128 });
        }
        let name: String = match &names[i] {
            Some(t) => t.clone(),
            None => {
                proof {
                    assert(!accel_rows_decodable(*b));
                }
                return Err(DecodeError::MissingField {
                    field: String::from_str("accel_name"),
                    container: String::from_str("accelerations"),
                });
            },
        };
        let m64: i64 = match &ms[i] {
            Some(v) => *v,
            None => {
                proof {
                    assert(!accel_rows_decodable(*b));
                }
                return Err(DecodeError::MissingField {
                    field: String::from_str("m_value"),
                    container: String::from_str("accelerations"),
                });
            },
        };
        if m64 < -2147483648 || m64 > 2147483647 {
            proof {
                assert(!accel_rows_decodable(*b));
            }
            return Err(DecodeError::IntOutOfRange { value: m64 as i128 });
        }
        let additional_args: ArgMap = args[i].clone();
        let computed_points = match &computed[i] {
            Some(pts) => clone_opt_accel_points_pub(pts),
            None => {
                proof {
                    assert(!accel_rows_decodable(*b));
                }
                return Err(DecodeError::MissingField {
                    field: String::from_str("computed"),
                    container: String::from_str("accelerations"),
                });
            },
        };
        let errs = clone_error_infos_pub(&errors[i]);
        let evts = clone_event_infos_pub(&events[i]);
        out.push(
            (
                id64 as i32,
                AccelRecord {
                    accel_info: AccelInfo {
                        name,
                        m_value: m64 as i32,
                        additional_args,
                    },
                    computed: computed_points,
                    errors: errs,
                    events: evts,
                },
            ),
        );
        i = i + 1;
    }
    proof {
        assert(accel_rows_decodable(*b));
    }
    Ok(out)
}

} // verus!

verus! {

// ---------------------------------------------------------------------------
// Grouping accelerations by series
// ---------------------------------------------------------------------------

/// The records keyed `k`, in order of appearance.
pub open spec fn accels_for(s: Seq<(i32, AccelRecord)>, k: i32) -> Seq<AccelRecord>
    decreases s.len(),
{
    if s.len() == 0 {
        Seq::empty()
    } else if s[0].0 == k {
        seq![s[0].1] + accels_for(s.skip(1), k)
    } else {
        accels_for(s.skip(1), k)
    }
}

/// The group of the first entry keyed `k`, if any.
pub open spec fn group_lookup(gs: Seq<(i32, Vec<AccelRecord>)>, k: i32) -> Option<
    Vec<AccelRecord>,
>
    decreases gs.len(),
{
    if gs.len() == 0 {
        None
    } else if gs[0].0 == k {
        Some(gs[0].1)
    } else {
        group_lookup(gs.skip(1), k)
    }
}

/// No two groups share a key.
pub open spec fn group_keys_unique(gs: Seq<(i32, Vec<AccelRecord>)>) -> bool {
    forall|a: int, b: int|
        0 <= a < gs.len() && 0 <= b < gs.len() && (#[trigger] gs[a]).0 == (#[trigger] gs[b]).0
            ==> a == b
}

/// Replacing the group that holds `k` changes only `k`'s lookup.
proof fn lemma_group_lookup_update(
    gs: Seq<(i32, Vec<AccelRecord>)>,
    gi: int,
    g2: Vec<AccelRecord>,
    k: i32,
    k2: i32,
)
    requires
        0 <= gi < gs.len(),
        gs[gi].0 == k,
        forall|j: int| 0 <= j < gi ==> (#[trigger] gs[j]).0 != k,
    ensures
        group_lookup(gs.update(gi, (k, g2)), k) == Some(g2),
        k2 != k ==> group_lookup(gs.update(gi, (k, g2)), k2) == group_lookup(gs, k2),
    decreases gi,
{
    let upd = gs.update(gi, (k, g2));
    if gi == 0 {
        assert(upd[0] == (k, g2));
        assert(upd.skip(1) =~= gs.skip(1));
    } else {
        assert(upd[0] == gs[0]);
        assert(gs.skip(1).update(gi - 1, (k, g2)) =~= upd.skip(1));
        assert(forall|j: int| 0 <= j < gi - 1 ==> (#[trigger] gs.skip(1)[j]).0 != k);
        lemma_group_lookup_update(gs.skip(1), gi - 1, g2, k, k2);
    }
}

/// Appending a group changes only lookups that found nothing before.
proof fn lemma_group_lookup_push(
    gs: Seq<(i32, Vec<AccelRecord>)>,
    p: (i32, Vec<AccelRecord>),
    k: i32,
)
    ensures
        group_lookup(gs.push(p), k) == (match group_lookup(gs, k) {
            Some(g) => Some(g),
            None => if p.0 == k {
                Some(p.1)
            } else {
                None
            },
        }),
    decreases gs.len(),
{
    if gs.len() == 0 {
        assert(gs.push(p)[0] == p);
        assert(gs.push(p).skip(1) =~= Seq::<(i32, Vec<AccelRecord>)>::empty());
        assert(group_lookup(Seq::<(i32, Vec<AccelRecord>)>::empty(), k) is None);
    } else {
        assert(gs.push(p)[0] == gs[0]);
        assert(gs.push(p).skip(1) =~= gs.skip(1).push(p));
        lemma_group_lookup_push(gs.skip(1), p, k);
    }
}

fn find_group(groups: &Vec<(i32, Vec<AccelRecord>)>, k: i32) -> (r: Option<usize>)
    ensures
        match r {
            Some(gi) => {
                &&& gi < groups@.len()
                &&& groups@[gi as int].0 == k
                &&& forall|j: int| 0 <= j < gi ==> (#[trigger] groups@[j]).0 != k
                &&& group_lookup(groups@, k) == Some(groups@[gi as int].1)
            },
            None => {
                &&& group_lookup(groups@, k) is None
                &&& forall|j: int| 0 <= j < groups@.len() ==> (#[trigger] groups@[j]).0 != k
            },
        },
{
    let n = groups.len();
    let mut i: usize = 0;
    proof {
        assert(groups@.skip(0) =~= groups@);
    }
    while i < n
        invariant
            0 <= i <= n,
            n == groups@.len(),
            group_lookup(groups@, k) == group_lookup(groups@.skip(i as int), k),
            forall|j: int| 0 <= j < i ==> (#[trigger] groups@[j]).0 != k,
        decreases n - i,
    {
        proof {
            assert(groups@.skip(i as int)[0] == groups@[i as int]);
            assert(groups@.skip(i as int).skip(1) =~= groups@.skip(i + 1));
        }
        if groups[i].0 == k {
            return Some(i);
        }
        i = i + 1;
    }
    proof {
        assert(groups@.skip(n as int).len() == 0);
    }
    None
}

/// Group keyed acceleration records by their series key.
///
/// Each key's group holds exactly that key's records, in their original
/// order; no key appears twice.
pub fn group_accels(pairs: Vec<(i32, AccelRecord)>) -> (r: Vec<(i32, Vec<AccelRecord>)>)
    ensures
        group_keys_unique(r@),
        forall|k: i32|
            #![trigger group_lookup(r@, k)]
            match group_lookup(r@, k) {
                Some(g) => g@ == accels_for(pairs@, k) && g@.len() > 0,
                None => accels_for(pairs@, k).len() == 0,
            },
{
    let ghost orig = pairs@;
    let mut rest = pairs;
    let mut groups: Vec<(i32, Vec<AccelRecord>)> = Vec::new();
    proof {
        assert(rest@ =~= orig.take(orig.len() as int));
    }
    while rest.len() > 0
        invariant
            rest@.len() <= orig.len(),
            rest@ =~= orig.take(rest@.len() as int),
            group_keys_unique(groups@),
            forall|k: i32|
                #![trigger group_lookup(groups@, k)]
                match group_lookup(groups@, k) {
                    Some(g) => g@ == accels_for(orig.skip(rest@.len() as int), k) && g@.len() > 0,
                    None => accels_for(orig.skip(rest@.len() as int), k).len() == 0,
                },
        decreases rest@.len(),
    {
        let ghost i = rest@.len() as int;
        let p = match rest.pop() {
            Some(q) => q,
            None => {
                proof {
                    assert(false);
                }
                return groups;
            },
        };
        proof {
            assert(p == orig[i - 1]);
            assert(rest@ =~= orig.take(i - 1));
            assert(orig.skip(i - 1)[0] == orig[i - 1]);
            assert(orig.skip(i - 1).skip(1) =~= orig.skip(i));
        }
        let key = p.0;
        match find_group(&groups, key) {
            Some(gi) => {
                let ghost old_groups = groups@;
                let mut g = groups.remove(gi);
                g.1.insert(0, p.1);
                proof {
                    assert(g.1@ =~= seq![p.1] + accels_for(orig.skip(i), key));
                }
                groups.insert(gi, g);
                proof {
                    assert(groups@ =~= old_groups.update(gi as int, (key, g.1)));
                    assert(g.0 == key);
                    assert forall|k2: i32|
                        #![trigger group_lookup(groups@, k2)]
                        true implies group_lookup(groups@, k2) == (if k2 == key {
                        Some(g.1)
                    } else {
                        group_lookup(old_groups, k2)
                    }) by {
                        lemma_group_lookup_update(old_groups, gi as int, g.1, key, k2);
                    }
                    assert(g.1@ == accels_for(orig.skip(i - 1), key));
                }
            },
            None => {
                let ghost old_groups = groups@;
                let mut single: Vec<AccelRecord> = Vec::new();
                single.push(p.1);
                proof {
                    assert(single@ =~= seq![p.1]);
                    assert(accels_for(orig.skip(i), key).len() == 0);
                    assert(single@ =~= seq![p.1] + accels_for(orig.skip(i), key));
                }
                groups.push((key, single));
                proof {
                    assert(groups@ =~= old_groups.push((key, single)));
                    assert forall|k2: i32|
                        #![trigger group_lookup(groups@, k2)]
                        true implies group_lookup(groups@, k2) == (match group_lookup(
                        old_groups,
                        k2,
                    ) {
                        Some(g) => Some(g),
                        None => if k2 == key {
                            Some(single)
                        } else {
                            None
                        },
                    }) by {
                        lemma_group_lookup_push(old_groups, (key, single), k2);
                    }
                    assert forall|a: int, b: int|
                        0 <= a < groups@.len() && 0 <= b < groups@.len() && (#[trigger] groups@[a]).0
                            == (#[trigger] groups@[b]).0 implies a == b by {
                        if a < old_groups.len() && b < old_groups.len() {
                            assert(old_groups[a] == groups@[a] && old_groups[b] == groups@[b]);
                        }
                    }
                }
            },
        }
        proof {
            assert forall|k: i32| #![trigger group_lookup(groups@, k)] true implies match
                group_lookup(groups@, k) {
                Some(g) => g@ == accels_for(orig.skip(i - 1), k) && g@.len() > 0,
                None => accels_for(orig.skip(i - 1), k).len() == 0,
            } by {
                if k != key {
                    assert(accels_for(orig.skip(i - 1), k) == accels_for(orig.skip(i), k));
                }
            }
        }
    }
    proof {
        assert(orig.skip(0) =~= orig);
        assert(rest@.len() == 0);
    }
    groups
}

// ---------------------------------------------------------------------------
// Final assembly
// ---------------------------------------------------------------------------

/// Pair every series with its accelerations, defaulting to none.
///
/// A series whose key has no group assembles with an empty acceleration
/// list; that is the expected state of a not-yet-accelerated series, not
/// an error.
pub fn assemble(series: &Vec<SeriesRecord>, groups: &Vec<(i32, Vec<AccelRecord>)>) -> (r: Vec<
    SeriesData,
>)
    ensures
        r@.len() == series@.len(),
        forall|i: int|
            0 <= i < series@.len() ==> {
                &&& (#[trigger] r@[i]).0@ == series@[i]@
                &&& match group_lookup(groups@, series@[i].series_id) {
                    Some(g) => accel_records_view(r@[i].1@) == accel_records_view(g@),
                    None => r@[i].1@.len() == 0,
                }
            },
{
    let n = series.len();
    let mut out: Vec<SeriesData> = Vec::new();
    let mut i: usize = 0;
    while i < n
        invariant
            0 <= i <= n,
            n == series@.len(),
            out@.len() == i,
            forall|j: int|
                0 <= j < i ==> {
                    &&& (#[trigger] out@[j]).0@ == series@[j]@
                    &&& match group_lookup(groups@, series@[j].series_id) {
                        Some(g) => accel_records_view(out@[j].1@) == accel_records_view(g@),
                        None => out@[j].1@.len() == 0,
                    }
                },
        decreases n - i,
    {
        let rec = series[i].clone();
        proof {
            assert(rec@ == series@[i as int]@);
            assert(rec.series_id == series@[i as int].series_id);
        }
        let accels: Vec<AccelRecord> = match find_group(groups, rec.series_id) {
            Some(gi) => {
                let c = clone_accel_records(&groups[gi].1);
                proof {
                    assert(accel_records_view(c@) =~= accel_records_view(groups@[gi as int].1@));
                }
                c
            },
            None => Vec::new(),
        };
        out.push((rec, accels));
        i = i + 1;
    }
    out
}

// ---------------------------------------------------------------------------
// Whole-query decoding
// ---------------------------------------------------------------------------

/// Total rows over a sequence of batches.
pub open spec fn total_rows(bs: Seq<Batch>) -> int
    decreases bs.len(),
{
    if bs.len() == 0 {
        0
    } else {
        bs[0].num_rows + total_rows(bs.skip(1))
    }
}

/// Decode a whole query's batches into assembled series data.
///
/// Every series batch contributes one record per row; the acceleration
/// batches are decoded, grouped by series key, and joined to the series
/// by `series_id`, an absent key yielding an empty acceleration list.
/// Any malformed batch aborts the whole decode with its error.
pub fn decode_series_data(series_batches: &Vec<Batch>, accel_batches: &Vec<Batch>) -> (r: Result<
    Vec<SeriesData>,
    DecodeError,
>)
    requires
        forall|k: int| 0 <= k < series_batches@.len() ==> (#[trigger] series_batches@[k]).wf(),
        forall|k: int| 0 <= k < accel_batches@.len() ==> (#[trigger] accel_batches@[k]).wf(),
    ensures
        (r is Ok) == ((forall|k: int|
            0 <= k < series_batches@.len() ==> series_batch_shape_ok(#[trigger] series_batches@[k])
                && series_rows_decodable(series_batches@[k])) && (forall|k: int|
            0 <= k < accel_batches@.len() ==> accel_batch_shape_ok(#[trigger] accel_batches@[k])
                && accel_rows_decodable(accel_batches@[k]))),
        r matches Ok(v) ==> v@.len() == total_rows(series_batches@),
{
    let mut records: Vec<SeriesRecord> = Vec::new();
    let ns = series_batches.len();
    let mut bi: usize = 0;
    proof {
        assert(series_batches@.take(0) =~= Seq::<Batch>::empty());
    }
    while bi < ns
        invariant
            0 <= bi <= ns,
            ns == series_batches@.len(),
            forall|k: int| 0 <= k < series_batches@.len() ==> (#[trigger] series_batches@[k]).wf(),
            records@.len() == total_rows(series_batches@.take(bi as int)),
            forall|k: int|
                0 <= k < bi ==> series_batch_shape_ok(#[trigger] series_batches@[k])
                    && series_rows_decodable(series_batches@[k]),
        decreases ns - bi,
    {
        let mut batch_records = match decode_series_rows(&series_batches[bi]) {
            Ok(v) => v,
            Err(e) => {
                return Err(e);
            },
        };
        records.append(&mut batch_records);
        proof {
            lemma_total_rows_take(series_batches@, bi as int);
        }
        bi = bi + 1;
    }
    proof {
        assert(series_batches@.take(ns as int) =~= series_batches@);
    }
    let mut pairs: Vec<(i32, AccelRecord)> = Vec::new();
    let na = accel_batches.len();
    let mut ai: usize = 0;
    while ai < na
        invariant
            0 <= ai <= na,
            na == accel_batches@.len(),
            forall|k: int| 0 <= k < accel_batches@.len() ==> (#[trigger] accel_batches@[k]).wf(),
            forall|k: int|
                0 <= k < ai ==> accel_batch_shape_ok(#[trigger] accel_batches@[k])
                    && accel_rows_decodable(accel_batches@[k]),
        decreases na - ai,
    {
        let mut batch_pairs = match decode_accel_rows(&accel_batches[ai]) {
            Ok(v) => v,
            Err(e) => {
                return Err(e);
            },
        };
        pairs.append(&mut batch_pairs);
        ai = ai + 1;
    }
    let groups = group_accels(pairs);
    let result = assemble(&records, &groups);
    Ok(result)
}

/// One more batch adds its rows to the running total.
proof fn lemma_total_rows_take(bs: Seq<Batch>, i: int)
    requires
        0 <= i < bs.len(),
    ensures
        total_rows(bs.take(i + 1)) == total_rows(bs.take(i)) + bs[i].num_rows,
    decreases i,
{
    if i == 0 {
        assert(bs.take(1)[0] == bs[0]);
        assert(bs.take(1).skip(1) =~= Seq::<Batch>::empty());
        assert(bs.take(0) =~= Seq::<Batch>::empty());
    } else {
        assert(bs.take(i + 1)[0] == bs[0]);
        assert(bs.take(i)[0] == bs[0]);
        assert(bs.take(i + 1).skip(1) =~= bs.skip(1).take(i));
        assert(bs.take(i).skip(1) =~= bs.skip(1).take(i - 1));
        assert(bs.skip(1)[i - 1] == bs[i as int]);
        lemma_total_rows_take(bs.skip(1), i - 1);
    }
}

} // verus!
