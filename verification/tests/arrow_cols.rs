use std::sync::Arc;

use arrow::array::{
    ArrayRef, Float64Array, Int64Array, Int8Array, LargeStringArray, ListArray, NullArray,
    StringArray, StringViewArray, UInt64Array,
};
use arrow::buffer::{NullBuffer, OffsetBuffer};
use arrow::datatypes::{DataType, Field, Schema};
use arrow::record_batch::RecordBatch;

use vizr::bridge::{batches_from_ipc, read_batch};
use vizr::column::ColumnData;
use vizr::error::DecodeError;
use vizr::extract::{to_i64, to_list, to_str};

fn ipc_bytes(batch: &RecordBatch) -> Vec<u8> {
    let mut buf = Vec::new();
    {
        let mut w = arrow::ipc::writer::StreamWriter::try_new(&mut buf, &batch.schema()).unwrap();
        w.write(batch).unwrap();
        w.finish().unwrap();
    }
    buf
}

fn single_column_batch(name: &str, ty: DataType, col: ArrayRef) -> RecordBatch {
    let schema = Arc::new(Schema::new(vec![Field::new(name, ty, true)]));
    RecordBatch::try_new(schema, vec![col]).unwrap()
}

fn read_single(name: &str, ty: DataType, col: ArrayRef) -> ColumnData {
    let batch = single_column_batch(name, ty, col);
    let handles = batches_from_ipc(&ipc_bytes(&batch)).unwrap();
    assert_eq!(handles.len(), 1);
    let b = read_batch(&handles[0]);
    let mut found = None;
    for (n, c) in b.columns {
        if n == name {
            found = Some(c);
        }
    }
    found.unwrap()
}

#[test]
fn three_physical_string_encodings_agree() {
    let narrow: ArrayRef = Arc::new(StringArray::from(vec![Some("a"), None, Some("c")]));
    let wide: ArrayRef = Arc::new(LargeStringArray::from(vec![Some("a"), None, Some("c")]));
    let view: ArrayRef = Arc::new(StringViewArray::from(vec![Some("a"), None, Some("c")]));
    let expected = vec![Some("a".to_string()), None, Some("c".to_string())];

    let c1 = read_single("s", DataType::Utf8, narrow);
    let c2 = read_single("s", DataType::LargeUtf8, wide);
    let c3 = read_single("s", DataType::Utf8View, view);
    assert!(matches!(c1, ColumnData::Text { .. }));
    assert!(matches!(c2, ColumnData::Text { .. }));
    assert!(matches!(c3, ColumnData::Text { .. }));
    assert_eq!(to_str("s", &c1).unwrap(), expected);
    assert_eq!(to_str("s", &c2).unwrap(), expected);
    assert_eq!(to_str("s", &c3).unwrap(), expected);
}

#[test]
fn untyped_null_column_reads_as_absent_rows() {
    let nulls: ArrayRef = Arc::new(NullArray::new(5));
    let col = read_single("anything", DataType::Null, nulls);
    assert!(matches!(col, ColumnData::Nulls { len: 5 }));
    assert_eq!(to_str("anything", &col).unwrap(), vec![None; 5]);
    assert_eq!(to_i64("anything", &col).unwrap(), vec![None; 5]);
    assert!(to_list("anything", &col).unwrap().iter().all(|c| c.is_none()));
}

#[test]
fn narrow_ints_widen_through_real_arrays() {
    let ints: ArrayRef = Arc::new(Int8Array::from(vec![Some(-3i8), None, Some(7)]));
    let col = read_single("n", DataType::Int8, ints);
    assert_eq!(to_i64("n", &col).unwrap(), vec![Some(-3i64), None, Some(7)]);
}

#[test]
fn unsigned_overflow_is_reported_not_wrapped() {
    let ints: ArrayRef = Arc::new(UInt64Array::from(vec![Some(u64::MAX)]));
    let col = read_single("n", DataType::UInt64, ints);
    assert!(matches!(
        to_i64("n", &col),
        Err(DecodeError::IntOutOfRange { .. })
    ));
}

#[test]
fn unrecognised_type_is_a_mismatch_with_its_name() {
    let floats: ArrayRef = Arc::new(Float64Array::from(vec![Some(1.5)]));
    let col = read_single("x", DataType::Float64, floats);
    match to_str("x", &col) {
        Err(DecodeError::TypeMismatch { field, expected, actual }) => {
            assert_eq!(field, "x");
            assert_eq!(expected, "string");
            assert_eq!(actual, "Float64");
        },
        other => panic!("expected mismatch, got {:?}", other),
    }
}

#[test]
fn list_rows_keep_null_and_empty_apart() {
    // rows: null, [], [42]
    let values = Int64Array::from(vec![42i64]);
    let field = Arc::new(Field::new("item", DataType::Int64, true));
    let offsets = OffsetBuffer::new(vec![0i32, 0, 0, 1].into());
    let nulls = NullBuffer::from(vec![false, true, true]);
    let list = ListArray::new(field.clone(), offsets, Arc::new(values), Some(nulls));
    let col = read_single(
        "xs",
        DataType::List(field),
        Arc::new(list) as ArrayRef,
    );
    let rows = to_list("xs", &col).unwrap();
    assert_eq!(rows.len(), 3);
    assert!(rows[0].is_none());
    assert_eq!(rows[1].unwrap().row_count(), 0);
    assert_eq!(rows[2].unwrap().row_count(), 1);
    assert_eq!(to_i64("xs.[]", rows[2].unwrap()).unwrap(), vec![Some(42i64)]);
}

#[test]
fn malformed_stream_is_rejected() {
    assert!(batches_from_ipc(&[1, 2, 3, 4]).is_none());
}
