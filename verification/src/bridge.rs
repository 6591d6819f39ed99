use vstd::prelude::*;
use arrow::array::Array;
use arrow::array::AsArray;
use crate::column::{ColumnData, ListEncoding, TextEncoding};
use crate::extract::opt_str_view;

verus! {

// ---------------------------------------------------------------------------
// The trusted boundary to the columnar engine
// ---------------------------------------------------------------------------
//
// A real column arrives as a reference-counted dynamically-typed array.
// That type cannot be declared to the verifier, so it is held in an opaque
// handle; the uninterpreted functions below name what the handle contains,
// and one small trusted wrapper per physical encoding probes it.  The
// verified `read_column` owns the probing order and builds the plain
// tagged union every decoder works on.

/// An opaque handle on one record batch as the columnar engine hands it
/// over.  The batch type itself cannot be declared to the verifier, so
/// values enter through the engine's interchange stream form (see
/// [`batches_from_ipc`]).
#[verifier::external_body]
pub struct BatchHandle {
    batch: arrow::array::RecordBatch,
}

/// An opaque handle on one dynamically-typed column.  The array behind it
/// is a trait object the verifier cannot see into; the `col_*` functions
/// name its content.
#[verifier::external_body]
pub struct ColumnHandle {
    arr: arrow::array::ArrayRef,
}

/// Number of rows behind the handle.
pub uninterp spec fn col_len(c: ColumnHandle) -> nat;

/// Code of the concrete physical type behind the handle; each `ENC_*`
/// constant below names one recognised type, every other type has some
/// other code.
pub uninterp spec fn col_encoding(c: ColumnHandle) -> int;

/// String content of the column, when it is string-encoded.
pub uninterp spec fn col_strings(c: ColumnHandle) -> Seq<Option<Seq<char>>>;

/// Integer content of the column, when it is integer-encoded.
pub uninterp spec fn col_ints(c: ColumnHandle) -> Seq<Option<int>>;

/// Per-row null mask of the column (from its validity buffer).
pub uninterp spec fn col_nulls(c: ColumnHandle) -> Seq<bool>;

/// Height of the column's nested structure; children are strictly
/// shallower.
pub uninterp spec fn col_depth(c: ColumnHandle) -> nat;

/// Display name of the column's data type, as reported in errors.
pub uninterp spec fn col_kind_name(c: ColumnHandle) -> Seq<char>;

/// Field names of a struct column, in field order.
pub uninterp spec fn struct_field_names(c: ColumnHandle) -> Seq<Seq<char>>;

/// Number of rows of a batch.
pub uninterp spec fn batch_rows(b: BatchHandle) -> nat;

/// Column names of a batch, in schema order.
pub uninterp spec fn batch_col_names(b: BatchHandle) -> Seq<Seq<char>>;

pub const ENC_NULL: u64 = 0;

pub const ENC_UTF8: u64 = 1;

pub const ENC_LARGE_UTF8: u64 = 2;

pub const ENC_UTF8_VIEW: u64 = 3;

pub const ENC_INT8: u64 = 4;

pub const ENC_INT16: u64 = 5;

pub const ENC_INT32: u64 = 6;

pub const ENC_INT64: u64 = 7;

pub const ENC_UINT8: u64 = 8;

pub const ENC_UINT16: u64 = 9;

pub const ENC_UINT32: u64 = 10;

pub const ENC_UINT64: u64 = 11;

pub const ENC_STRUCT: u64 = 12;

pub const ENC_LIST: u64 = 13;

pub const ENC_LARGE_LIST: u64 = 14;

pub const ENC_LIST_VIEW: u64 = 15;

pub const ENC_LARGE_LIST_VIEW: u64 = 16;

/// Relies on `Array::len`: the number of rows of the array.
#[verifier::external_body]
fn col_len_of(c: &ColumnHandle) -> (r: usize)
    ensures
        r == col_len(*c),
{
    c.arr.len()
}

/// Relies on `Array::is_null`: whether row `i` is null in the array's
/// validity buffer.
#[verifier::external_body]
fn cell_is_null(c: &ColumnHandle, i: usize) -> (r: bool)
    requires
        i < col_len(*c),
    ensures
        r == col_nulls(*c)[i as int],
{
    c.arr.is_null(i)
}

/// Relies on `DataType`'s display form, via `Array::data_type`.
#[verifier::external_body]
fn col_kind_label(c: &ColumnHandle) -> (r: String)
    ensures
        r@ == col_kind_name(*c),
{
    format!("{}", c.arr.data_type())
}

/// Relies on `AsArray::as_string_opt::<i32>`: succeeds exactly on a
/// narrow-offset string array, yielding its rows.
#[verifier::external_body]
fn try_utf8(c: &ColumnHandle) -> (r: Option<Vec<Option<String>>>)
    ensures
        (r is Some) == (col_encoding(*c) == ENC_UTF8),
        r matches Some(v) ==> v@.len() == col_len(*c) && opt_str_view(v@) == col_strings(*c),
{
    c.arr.as_string_opt::<i32>().map(|a| a.iter().map(|o| o.map(|s| s.to_string())).collect())
}

/// Relies on `AsArray::as_string_opt::<i64>`: succeeds exactly on a
/// wide-offset string array, yielding its rows.
#[verifier::external_body]
fn try_large_utf8(c: &ColumnHandle) -> (r: Option<Vec<Option<String>>>)
    ensures
        (r is Some) == (col_encoding(*c) == ENC_LARGE_UTF8),
        r matches Some(v) ==> v@.len() == col_len(*c) && opt_str_view(v@) == col_strings(*c),
{
    c.arr.as_string_opt::<i64>().map(|a| a.iter().map(|o| o.map(|s| s.to_string())).collect())
}

/// Relies on `AsArray::as_string_view_opt`: succeeds exactly on a
/// view-encoded string array, yielding its rows.
#[verifier::external_body]
fn try_utf8_view(c: &ColumnHandle) -> (r: Option<Vec<Option<String>>>)
    ensures
        (r is Some) == (col_encoding(*c) == ENC_UTF8_VIEW),
        r matches Some(v) ==> v@.len() == col_len(*c) && opt_str_view(v@) == col_strings(*c),
{
    c.arr.as_string_view_opt().map(|a| a.iter().map(|o| o.map(|s| s.to_string())).collect())
}

/// Relies on `Any::downcast_ref::<NullArray>`: succeeds exactly on the
/// untyped all-null array, yielding its length.
#[verifier::external_body]
fn try_null(c: &ColumnHandle) -> (r: Option<usize>)
    ensures
        (r is Some) == (col_encoding(*c) == ENC_NULL),
        r matches Some(n) ==> n == col_len(*c),
{
    c.arr.as_any().downcast_ref::<arrow::array::NullArray>().map(|a| a.len())
}

/// Relies on `AsArray::as_primitive_opt::<Int8Type>`: succeeds exactly on
/// an 8-bit signed integer array, yielding its rows.
#[verifier::external_body]
fn try_int8(c: &ColumnHandle) -> (r: Option<Vec<Option<i8>>>)
    ensures
        (r is Some) == (col_encoding(*c) == ENC_INT8),
        r matches Some(v) ==> v@.len() == col_len(*c) && col_ints(*c).len() == col_len(*c) && (
        forall|j: int|
            0 <= j < v@.len() ==> (match #[trigger] v@[j] {
                Some(x) => Some(x as int),
                None => None,
            }) == col_ints(*c)[j]),
{
    c.arr.as_primitive_opt::<arrow::datatypes::Int8Type>().map(|a| a.iter().collect())
}

/// Relies on `AsArray::as_primitive_opt::<Int16Type>`: succeeds exactly
/// on a 16-bit signed integer array, yielding its rows.
#[verifier::external_body]
fn try_int16(c: &ColumnHandle) -> (r: Option<Vec<Option<i16>>>)
    ensures
        (r is Some) == (col_encoding(*c) == ENC_INT16),
        r matches Some(v) ==> v@.len() == col_len(*c) && col_ints(*c).len() == col_len(*c) && (
        forall|j: int|
            0 <= j < v@.len() ==> (match #[trigger] v@[j] {
                Some(x) => Some(x as int),
                None => None,
            }) == col_ints(*c)[j]),
{
    c.arr.as_primitive_opt::<arrow::datatypes::Int16Type>().map(|a| a.iter().collect())
}

/// Relies on `AsArray::as_primitive_opt::<Int32Type>`: succeeds exactly
/// on a 32-bit signed integer array, yielding its rows.
#[verifier::external_body]
fn try_int32(c: &ColumnHandle) -> (r: Option<Vec<Option<i32>>>)
    ensures
        (r is Some) == (col_encoding(*c) == ENC_INT32),
        r matches Some(v) ==> v@.len() == col_len(*c) && col_ints(*c).len() == col_len(*c) && (
        forall|j: int|
            0 <= j < v@.len() ==> (match #[trigger] v@[j] {
                Some(x) => Some(x as int),
                None => None,
            }) == col_ints(*c)[j]),
{
    c.arr.as_primitive_opt::<arrow::datatypes::Int32Type>().map(|a| a.iter().collect())
}

/// Relies on `AsArray::as_primitive_opt::<Int64Type>`: succeeds exactly
/// on a 64-bit signed integer array, yielding its rows.
#[verifier::external_body]
fn try_int64(c: &ColumnHandle) -> (r: Option<Vec<Option<i64>>>)
    ensures
        (r is Some) == (col_encoding(*c) == ENC_INT64),
        r matches Some(v) ==> v@.len() == col_len(*c) && col_ints(*c).len() == col_len(*c) && (
        forall|j: int|
            0 <= j < v@.len() ==> (match #[trigger] v@[j] {
                Some(x) => Some(x as int),
                None => None,
            }) == col_ints(*c)[j]),
{
    c.arr.as_primitive_opt::<arrow::datatypes::Int64Type>().map(|a| a.iter().collect())
}

/// Relies on `AsArray::as_primitive_opt::<UInt8Type>`: succeeds exactly
/// on an 8-bit unsigned integer array, yielding its rows.
#[verifier::external_body]
fn try_uint8(c: &ColumnHandle) -> (r: Option<Vec<Option<u8>>>)
    ensures
        (r is Some) == (col_encoding(*c) == ENC_UINT8),
        r matches Some(v) ==> v@.len() == col_len(*c) && col_ints(*c).len() == col_len(*c) && (
        forall|j: int|
            0 <= j < v@.len() ==> (match #[trigger] v@[j] {
                Some(x) => Some(x as int),
                None => None,
            }) == col_ints(*c)[j]),
{
    c.arr.as_primitive_opt::<arrow::datatypes::UInt8Type>().map(|a| a.iter().collect())
}

/// Relies on `AsArray::as_primitive_opt::<UInt16Type>`: succeeds exactly
/// on a 16-bit unsigned integer array, yielding its rows.
#[verifier::external_body]
fn try_uint16(c: &ColumnHandle) -> (r: Option<Vec<Option<u16>>>)
    ensures
        (r is Some) == (col_encoding(*c) == ENC_UINT16),
        r matches Some(v) ==> v@.len() == col_len(*c) && col_ints(*c).len() == col_len(*c) && (
        forall|j: int|
            0 <= j < v@.len() ==> (match #[trigger] v@[j] {
                Some(x) => Some(x as int),
                None => None,
            }) == col_ints(*c)[j]),
{
    c.arr.as_primitive_opt::<arrow::datatypes::UInt16Type>().map(|a| a.iter().collect())
}

/// Relies on `AsArray::as_primitive_opt::<UInt32Type>`: succeeds exactly
/// on a 32-bit unsigned integer array, yielding its rows.
#[verifier::external_body]
fn try_uint32(c: &ColumnHandle) -> (r: Option<Vec<Option<u32>>>)
    ensures
        (r is Some) == (col_encoding(*c) == ENC_UINT32),
        r matches Some(v) ==> v@.len() == col_len(*c) && col_ints(*c).len() == col_len(*c) && (
        forall|j: int|
            0 <= j < v@.len() ==> (match #[trigger] v@[j] {
                Some(x) => Some(x as int),
                None => None,
            }) == col_ints(*c)[j]),
{
    c.arr.as_primitive_opt::<arrow::datatypes::UInt32Type>().map(|a| a.iter().collect())
}

/// Relies on `AsArray::as_primitive_opt::<UInt64Type>`: succeeds exactly
/// on a 64-bit unsigned integer array, yielding its rows.
#[verifier::external_body]
fn try_uint64(c: &ColumnHandle) -> (r: Option<Vec<Option<u64>>>)
    ensures
        (r is Some) == (col_encoding(*c) == ENC_UINT64),
        r matches Some(v) ==> v@.len() == col_len(*c) && col_ints(*c).len() == col_len(*c) && (
        forall|j: int|
            0 <= j < v@.len() ==> (match #[trigger] v@[j] {
                Some(x) => Some(x as int),
                None => None,
            }) == col_ints(*c)[j]),
{
    c.arr.as_primitive_opt::<arrow::datatypes::UInt64Type>().map(|a| a.iter().collect())
}

/// Relies on `AsArray::as_struct_opt`, `StructArray::column_names` and
/// `StructArray::columns`: succeeds exactly on a struct array, yielding
/// its named children, which are as long as the parent and strictly
/// shallower.
#[verifier::external_body]
fn try_struct(c: &ColumnHandle) -> (r: Option<Vec<(String, ColumnHandle)>>)
    ensures
        (r is Some) == (col_encoding(*c) == ENC_STRUCT),
        r matches Some(v) ==> {
            &&& v@.len() == struct_field_names(*c).len()
            &&& forall|k: int|
                0 <= k < v@.len() ==> (#[trigger] v@[k]).0@ == struct_field_names(*c)[k]
                    && col_len(v@[k].1) == col_len(*c) && col_depth(v@[k].1) < col_depth(*c)
        },
{
    c.arr.as_struct_opt().map(
        |a|
            a.column_names().into_iter().map(|s| s.to_string()).zip(
                a.columns().iter().map(|arr| ColumnHandle { arr: arr.clone() }),
            ).collect(),
    )
}

/// Relies on `AsArray::as_list_opt::<i32>` and `GenericListArray::iter`:
/// succeeds exactly on a narrow-offset list array; each present cell is a
/// strictly shallower child holding that row's elements, each absent cell
/// is a null row.
#[verifier::external_body]
fn try_list(c: &ColumnHandle) -> (r: Option<Vec<Option<ColumnHandle>>>)
    ensures
        (r is Some) == (col_encoding(*c) == ENC_LIST),
        r matches Some(v) ==> {
            &&& v@.len() == col_len(*c)
            &&& forall|j: int|
                0 <= j < v@.len() ==> ((#[trigger] v@[j]) is Some) == !col_nulls(*c)[j] && (
                v@[j] matches Some(h) ==> col_depth(h) < col_depth(*c))
        },
{
    c.arr.as_list_opt::<i32>().map(
        |a| a.iter().map(|o| o.map(|sub| ColumnHandle { arr: sub })).collect(),
    )
}

/// Relies on `AsArray::as_list_opt::<i64>` and `GenericListArray::iter`:
/// as the narrow-offset form, for wide offsets.
#[verifier::external_body]
fn try_large_list(c: &ColumnHandle) -> (r: Option<Vec<Option<ColumnHandle>>>)
    ensures
        (r is Some) == (col_encoding(*c) == ENC_LARGE_LIST),
        r matches Some(v) ==> {
            &&& v@.len() == col_len(*c)
            &&& forall|j: int|
                0 <= j < v@.len() ==> ((#[trigger] v@[j]) is Some) == !col_nulls(*c)[j] && (
                v@[j] matches Some(h) ==> col_depth(h) < col_depth(*c))
        },
{
    c.arr.as_list_opt::<i64>().map(
        |a| a.iter().map(|o| o.map(|sub| ColumnHandle { arr: sub })).collect(),
    )
}

/// Relies on `AsArray::as_list_view_opt::<i32>` and
/// `GenericListViewArray::iter`: as the offset forms, for the view
/// layout.
#[verifier::external_body]
fn try_list_view(c: &ColumnHandle) -> (r: Option<Vec<Option<ColumnHandle>>>)
    ensures
        (r is Some) == (col_encoding(*c) == ENC_LIST_VIEW),
        r matches Some(v) ==> {
            &&& v@.len() == col_len(*c)
            &&& forall|j: int|
                0 <= j < v@.len() ==> ((#[trigger] v@[j]) is Some) == !col_nulls(*c)[j] && (
                v@[j] matches Some(h) ==> col_depth(h) < col_depth(*c))
        },
{
    c.arr.as_list_view_opt::<i32>().map(
        |a| a.iter().map(|o| o.map(|sub| ColumnHandle { arr: sub })).collect(),
    )
}

/// Relies on `AsArray::as_list_view_opt::<i64>` and
/// `GenericListViewArray::iter`: as the view form, for wide offsets.
#[verifier::external_body]
fn try_large_list_view(c: &ColumnHandle) -> (r: Option<Vec<Option<ColumnHandle>>>)
    ensures
        (r is Some) == (col_encoding(*c) == ENC_LARGE_LIST_VIEW),
        r matches Some(v) ==> {
            &&& v@.len() == col_len(*c)
            &&& forall|j: int|
                0 <= j < v@.len() ==> ((#[trigger] v@[j]) is Some) == !col_nulls(*c)[j] && (
                v@[j] matches Some(h) ==> col_depth(h) < col_depth(*c))
        },
{
    c.arr.as_list_view_opt::<i64>().map(
        |a| a.iter().map(|o| o.map(|sub| ColumnHandle { arr: sub })).collect(),
    )
}

/// Whether the bytes form a well-formed interchange stream; a function
/// of the bytes alone.
pub uninterp spec fn ipc_batches_ok(bytes: Seq<u8>) -> bool;

/// Relies on `ipc::reader::StreamReader` (`try_new` and its batch
/// iteration): parse a whole interchange stream from in-memory bytes
/// into its record batches, or nothing if the bytes are not a
/// well-formed stream.
#[verifier::external_body]
pub fn batches_from_ipc(bytes: &[u8]) -> (r: Option<Vec<BatchHandle>>)
    ensures
        (r is Some) == ipc_batches_ok(bytes@),
{
    let reader = arrow::ipc::reader::StreamReader::try_new(std::io::Cursor::new(bytes), None)
        .ok()?;
    let mut out = Vec::new();
    for b in reader {
        out.push(BatchHandle { batch: b.ok()? });
    }
    Some(out)
}

/// Relies on `RecordBatch::num_rows`.
#[verifier::external_body]
pub fn batch_num_rows(b: &BatchHandle) -> (r: usize)
    ensures
        r == batch_rows(*b),
{
    b.batch.num_rows()
}

/// Relies on `RecordBatch::schema` and `RecordBatch::columns`: the named
/// columns of the batch in schema order, each as long as the batch.
#[verifier::external_body]
pub fn batch_columns(b: &BatchHandle) -> (r: Vec<(String, ColumnHandle)>)
    ensures
        r@.len() == batch_col_names(*b).len(),
        forall|k: int|
            0 <= k < r@.len() ==> (#[trigger] r@[k]).0@ == batch_col_names(*b)[k] && col_len(
                r@[k].1,
            ) == batch_rows(*b),
{
    let schema = b.batch.schema();
    schema.fields().iter().map(|f| f.name().clone()).zip(
        b.batch.columns().iter().map(|arr| ColumnHandle { arr: arr.clone() }),
    ).collect()
}

} // verus!

verus! {

// ---------------------------------------------------------------------------
// Verified probing: from handles to the plain column model
// ---------------------------------------------------------------------------

use crate::assemble::{decode_series_data, total_rows, Batch};
use crate::error::DecodeError;
use crate::records::SeriesData;

/// Reduce one dynamically-typed column to the plain tagged union.
///
/// The recognised physical encodings are probed one by one, exactly as
/// the decoders expect them; children of struct and list columns are
/// reduced recursively, and an unrecognised type is kept as an opaque
/// row count with its type name.
pub fn read_column(c: &ColumnHandle) -> (r: ColumnData)
    ensures
        r.wf(),
        r.num_rows() == col_len(*c),
        (r matches ColumnData::Nulls { .. }) == (col_encoding(*c) == ENC_NULL),
        (r matches ColumnData::Text { enc: TextEncoding::Narrow, .. }) == (col_encoding(*c)
            == ENC_UTF8),
        (r matches ColumnData::Text { enc: TextEncoding::Wide, .. }) == (col_encoding(*c)
            == ENC_LARGE_UTF8),
        (r matches ColumnData::Text { enc: TextEncoding::View, .. }) == (col_encoding(*c)
            == ENC_UTF8_VIEW),
        (r matches ColumnData::Int8 { .. }) == (col_encoding(*c) == ENC_INT8),
        (r matches ColumnData::Int16 { .. }) == (col_encoding(*c) == ENC_INT16),
        (r matches ColumnData::Int32 { .. }) == (col_encoding(*c) == ENC_INT32),
        (r matches ColumnData::Int64 { .. }) == (col_encoding(*c) == ENC_INT64),
        (r matches ColumnData::UInt8 { .. }) == (col_encoding(*c) == ENC_UINT8),
        (r matches ColumnData::UInt16 { .. }) == (col_encoding(*c) == ENC_UINT16),
        (r matches ColumnData::UInt32 { .. }) == (col_encoding(*c) == ENC_UINT32),
        (r matches ColumnData::UInt64 { .. }) == (col_encoding(*c) == ENC_UINT64),
        (r matches ColumnData::Struct { .. }) == (col_encoding(*c) == ENC_STRUCT),
        (r matches ColumnData::List { enc: ListEncoding::Offset, .. }) == (col_encoding(*c)
            == ENC_LIST),
        (r matches ColumnData::List { enc: ListEncoding::LargeOffset, .. }) == (col_encoding(*c)
            == ENC_LARGE_LIST),
        (r matches ColumnData::List { enc: ListEncoding::OffsetView, .. }) == (col_encoding(*c)
            == ENC_LIST_VIEW),
        (r matches ColumnData::List { enc: ListEncoding::LargeOffsetView, .. }) == (col_encoding(
            *c,
        ) == ENC_LARGE_LIST_VIEW),
        r matches ColumnData::Text { .. } ==> r.text_cells() == col_strings(*c),
        r.is_int_encoded() ==> r.int_cells() == col_ints(*c),
        r matches ColumnData::Struct { validity, fields } ==> {
            &&& forall|i: int| 0 <= i < validity@.len() ==> validity@[i] == !col_nulls(*c)[i]
            &&& fields@.len() == struct_field_names(*c).len()
            &&& forall|k: int|
                0 <= k < fields@.len() ==> (#[trigger] fields@[k]).0@ == struct_field_names(*c)[k]
        },
        r matches ColumnData::List { cells, .. } ==> forall|i: int|
            0 <= i < cells@.len() ==> ((#[trigger] cells@[i]) is Some) == !col_nulls(*c)[i],
    decreases col_depth(*c),
{
    if let Some(n) = try_null(c) {
        ColumnData::Nulls { len: n }
    } else if let Some(v) = try_utf8(c) {
        let r = ColumnData::Text { enc: TextEncoding::Narrow, cells: v };
        proof {
            assert(r.text_cells() =~= col_strings(*c));
        }
        r
    } else if let Some(v) = try_large_utf8(c) {
        let r = ColumnData::Text { enc: TextEncoding::Wide, cells: v };
        proof {
            assert(r.text_cells() =~= col_strings(*c));
        }
        r
    } else if let Some(v) = try_utf8_view(c) {
        let r = ColumnData::Text { enc: TextEncoding::View, cells: v };
        proof {
            assert(r.text_cells() =~= col_strings(*c));
        }
        r
    } else if let Some(v) = try_int8(c) {
        let r = ColumnData::Int8 { cells: v };
        proof {
            assert(r.int_cells() =~= col_ints(*c));
        }
        r
    } else if let Some(v) = try_int16(c) {
        let r = ColumnData::Int16 { cells: v };
        proof {
            assert(r.int_cells() =~= col_ints(*c));
        }
        r
    } else if let Some(v) = try_int32(c) {
        let r = ColumnData::Int32 { cells: v };
        proof {
            assert(r.int_cells() =~= col_ints(*c));
        }
        r
    } else if let Some(v) = try_int64(c) {
        let r = ColumnData::Int64 { cells: v };
        proof {
            assert(r.int_cells() =~= col_ints(*c));
        }
        r
    } else if let Some(v) = try_uint8(c) {
        let r = ColumnData::UInt8 { cells: v };
        proof {
            assert(r.int_cells() =~= col_ints(*c));
        }
        r
    } else if let Some(v) = try_uint16(c) {
        let r = ColumnData::UInt16 { cells: v };
        proof {
            assert(r.int_cells() =~= col_ints(*c));
        }
        r
    } else if let Some(v) = try_uint32(c) {
        let r = ColumnData::UInt32 { cells: v };
        proof {
            assert(r.int_cells() =~= col_ints(*c));
        }
        r
    } else if let Some(v) = try_uint64(c) {
        let r = ColumnData::UInt64 { cells: v };
        proof {
            assert(r.int_cells() =~= col_ints(*c));
        }
        r
    } else if let Some(fhs) = try_struct(c) {
        let rows = col_len_of(c);
        let mut validity: Vec<bool> = Vec::new();
        let mut i: usize = 0;
        while i < rows
            invariant
                0 <= i <= rows,
                rows == col_len(*c),
                validity@.len() == i,
                forall|j: int| 0 <= j < i ==> validity@[j] == !col_nulls(*c)[j],
            decreases rows - i,
        {
            let null_here = cell_is_null(c, i);
            validity.push(!null_here);
            i = i + 1;
        }
        let nf = fhs.len();
        let mut fields: Vec<(String, ColumnData)> = Vec::new();
        let mut k: usize = 0;
        while k < nf
            invariant
                0 <= k <= nf,
                nf == fhs@.len(),
                nf == struct_field_names(*c).len(),
                rows == col_len(*c),
                forall|q: int|
                    0 <= q < nf ==> (#[trigger] fhs@[q]).0@ == struct_field_names(*c)[q]
                        && col_len(fhs@[q].1) == col_len(*c) && col_depth(fhs@[q].1) < col_depth(
                        *c,
                    ),
                fields@.len() == k,
                forall|q: int|
                    0 <= q < k ==> (#[trigger] fields@[q]).0@ == struct_field_names(*c)[q]
                        && fields@[q].1.num_rows() == rows && fields@[q].1.wf(),
            decreases nf - k,
        {
            let sub = read_column(&fhs[k].1);
            let fname = fhs[k].0.clone();
            fields.push((fname, sub));
            k = k + 1;
        }
        ColumnData::Struct { validity, fields }
    } else if let Some(chs) = try_list(c) {
        let cells = read_list_cells(c, &chs);
        ColumnData::List { enc: ListEncoding::Offset, cells }
    } else if let Some(chs) = try_large_list(c) {
        let cells = read_list_cells(c, &chs);
        ColumnData::List { enc: ListEncoding::LargeOffset, cells }
    } else if let Some(chs) = try_list_view(c) {
        let cells = read_list_cells(c, &chs);
        ColumnData::List { enc: ListEncoding::OffsetView, cells }
    } else if let Some(chs) = try_large_list_view(c) {
        let cells = read_list_cells(c, &chs);
        ColumnData::List { enc: ListEncoding::LargeOffsetView, cells }
    } else {
        let len = col_len_of(c);
        let label = col_kind_label(c);
        ColumnData::Other { len, label }
    }
}

/// Reduce the cells of a list column, preserving null rows.
fn read_list_cells(c: &ColumnHandle, chs: &Vec<Option<ColumnHandle>>) -> (r: Vec<
    Option<ColumnData>,
>)
    requires
        chs@.len() == col_len(*c),
        forall|j: int|
            0 <= j < chs@.len() ==> ((#[trigger] chs@[j]) is Some) == !col_nulls(*c)[j] && (
            chs@[j] matches Some(h) ==> col_depth(h) < col_depth(*c)),
    ensures
        r@.len() == col_len(*c),
        forall|j: int|
            0 <= j < r@.len() ==> ((#[trigger] r@[j]) is Some) == !col_nulls(*c)[j] && (r@[j]
                matches Some(d) ==> d.wf()),
    decreases col_depth(*c), 0nat,
{
    let n = chs.len();
    let mut out: Vec<Option<ColumnData>> = Vec::new();
    let mut i: usize = 0;
    while i < n
        invariant
            0 <= i <= n,
            n == chs@.len(),
            n == col_len(*c),
            forall|j: int|
                0 <= j < chs@.len() ==> ((#[trigger] chs@[j]) is Some) == !col_nulls(*c)[j] && (
                chs@[j] matches Some(h) ==> col_depth(h) < col_depth(*c)),
            out@.len() == i,
            forall|j: int|
                0 <= j < i ==> ((#[trigger] out@[j]) is Some) == !col_nulls(*c)[j] && (out@[j]
                    matches Some(d) ==> d.wf()),
        decreases n - i,
    {
        match &chs[i] {
            Some(h) => {
                let sub = read_column(h);
                out.push(Some(sub));
            },
            None => {
                out.push(None);
            },
        }
        i = i + 1;
    }
    out
}

/// Reduce one whole batch to named plain columns.
pub fn read_batch(b: &BatchHandle) -> (r: Batch)
    ensures
        r.wf(),
        r.num_rows == batch_rows(*b),
        r.columns@.len() == batch_col_names(*b).len(),
        forall|k: int|
            0 <= k < r.columns@.len() ==> (#[trigger] r.columns@[k]).0@ == batch_col_names(*b)[k],
{
    let rows = batch_num_rows(b);
    let cols_h = batch_columns(b);
    let n = cols_h.len();
    let mut columns: Vec<(String, ColumnData)> = Vec::new();
    let mut k: usize = 0;
    while k < n
        invariant
            0 <= k <= n,
            n == cols_h@.len(),
            n == batch_col_names(*b).len(),
            forall|q: int|
                0 <= q < n ==> (#[trigger] cols_h@[q]).0@ == batch_col_names(*b)[q] && col_len(
                    cols_h@[q].1,
                ) == batch_rows(*b),
            columns@.len() == k,
            forall|q: int|
                0 <= q < k ==> (#[trigger] columns@[q]).0@ == batch_col_names(*b)[q]
                    && columns@[q].1.num_rows() == batch_rows(*b) && columns@[q].1.wf(),
        decreases n - k,
    {
        let data = read_column(&cols_h[k].1);
        let cname = cols_h[k].0.clone();
        columns.push((cname, data));
        k = k + 1;
    }
    Batch { num_rows: rows, columns }
}

/// Decode two interchange streams — the series table's batches and the
/// accelerations table's batches — into assembled series data.
///
/// Either stream failing to parse is reported as a mismatch on the
/// stream itself; everything past that point is the verified decoding
/// pipeline.
pub fn decode_ipc_series_data(series_bytes: &[u8], accel_bytes: &[u8]) -> (r: Result<
    Vec<SeriesData>,
    DecodeError,
>)
    ensures
        r is Ok ==> ipc_batches_ok(series_bytes@) && ipc_batches_ok(accel_bytes@),
        !ipc_batches_ok(series_bytes@) || !ipc_batches_ok(accel_bytes@) ==> (r matches Err(e)
            && e matches DecodeError::TypeMismatch { .. }),
{
    let sbs = match batches_from_ipc(series_bytes) {
        Some(v) => v,
        None => {
            return Err(DecodeError::TypeMismatch {
                field: String::from_str("series"),
                expected: String::from_str("ipc stream"),
                actual: String::from_str("malformed stream"),
            });
        },
    };
    let abs = match batches_from_ipc(accel_bytes) {
        Some(v) => v,
        None => {
            return Err(DecodeError::TypeMismatch {
                field: String::from_str("accelerations"),
                expected: String::from_str("ipc stream"),
                actual: String::from_str("malformed stream"),
            });
        },
    };
    let mut series_batches: Vec<Batch> = Vec::new();
    let mut i: usize = 0;
    let ns = sbs.len();
    while i < ns
        invariant
            0 <= i <= ns,
            ns == sbs@.len(),
            series_batches@.len() == i,
            forall|q: int| 0 <= q < i ==> (#[trigger] series_batches@[q]).wf(),
        decreases ns - i,
    {
        series_batches.push(read_batch(&sbs[i]));
        i = i + 1;
    }
    let mut accel_batches: Vec<Batch> = Vec::new();
    let mut j: usize = 0;
    let na = abs.len();
    while j < na
        invariant
            0 <= j <= na,
            na == abs@.len(),
            accel_batches@.len() == j,
            forall|q: int| 0 <= q < j ==> (#[trigger] accel_batches@[q]).wf(),
        decreases na - j,
    {
        accel_batches.push(read_batch(&abs[j]));
        j = j + 1;
    }
    decode_series_data(&series_batches, &accel_batches)
}

} // verus!
