use std::sync::Arc;

use arrow::array::{ArrayRef, Int32Array, ListArray, NullArray, StringArray, StructArray};
use arrow::buffer::{NullBuffer, OffsetBuffer};
use arrow::datatypes::{DataType, Field, Fields, Schema};
use arrow::record_batch::RecordBatch;

use vizr::bridge::decode_ipc_series_data;

fn ipc_bytes(batch: &RecordBatch) -> Vec<u8> {
    let mut buf = Vec::new();
    {
        let mut w = arrow::ipc::writer::StreamWriter::try_new(&mut buf, &batch.schema()).unwrap();
        w.write(batch).unwrap();
        w.finish().unwrap();
    }
    buf
}

fn strings(vals: Vec<Option<&str>>) -> ArrayRef {
    Arc::new(StringArray::from(vals))
}

fn complex_struct(reals: Vec<Option<&str>>, imags: Vec<Option<&str>>, validity: Option<Vec<bool>>) -> StructArray {
    let fields = Fields::from(vec![
        Field::new("real", DataType::Utf8, true),
        Field::new("imag", DataType::Utf8, true),
    ]);
    StructArray::try_new(
        fields,
        vec![strings(reals), strings(imags)],
        validity.map(NullBuffer::from),
    )
    .unwrap()
}

fn series_batch() -> RecordBatch {
    // computed points, flattened: two for series 7, one for series 8
    let point_fields = Fields::from(vec![
        Field::new("n", DataType::Int32, true),
        Field::new(
            "value",
            DataType::Struct(Fields::from(vec![
                Field::new("real", DataType::Utf8, true),
                Field::new("imag", DataType::Utf8, true),
            ])),
            true,
        ),
        Field::new("deviation", DataType::Utf8, true),
    ]);
    let points = StructArray::try_new(
        point_fields.clone(),
        vec![
            Arc::new(Int32Array::from(vec![0, 1, 0])) as ArrayRef,
            Arc::new(complex_struct(
                vec![Some("1.0"), Some("1.5"), Some("1.0")],
                vec![Some("0.0"), Some("0.0"), Some("0.0")],
                None,
            )) as ArrayRef,
            strings(vec![Some("1.0"), Some("5.0e-1"), Some("1.0")]),
        ],
        None,
    )
    .unwrap();
    let point_field = Arc::new(Field::new("item", DataType::Struct(point_fields), true));
    let computed = ListArray::new(
        point_field.clone(),
        OffsetBuffer::new(vec![0i32, 2, 3].into()),
        Arc::new(points),
        None,
    );
    let schema = Arc::new(Schema::new(vec![
        Field::new("precision", DataType::Utf8, true),
        Field::new("series_id", DataType::Int32, true),
        Field::new("series_name", DataType::Utf8, true),
        Field::new("arguments", DataType::Null, true),
        Field::new(
            "series_limit",
            DataType::Struct(Fields::from(vec![
                Field::new("real", DataType::Utf8, true),
                Field::new("imag", DataType::Utf8, true),
            ])),
            true,
        ),
        Field::new("computed", DataType::List(point_field), true),
    ]));
    RecordBatch::try_new(
        schema,
        vec![
            strings(vec![Some("f64"), Some("f64")]),
            Arc::new(Int32Array::from(vec![7, 8])),
            strings(vec![Some("geometric"), Some("other")]),
            Arc::new(NullArray::new(2)),
            Arc::new(complex_struct(
                vec![Some("2.0"), Some("1.0")],
                vec![Some("0.0"), Some("0.0")],
                None,
            )),
            Arc::new(computed),
        ],
    )
    .unwrap()
}

fn accel_batch() -> RecordBatch {
    // one acceleration row for series 7, two per-iteration cells:
    // the first absent, the second a computed point
    let cell_fields = Fields::from(vec![
        Field::new(
            "value",
            DataType::Struct(Fields::from(vec![
                Field::new("real", DataType::Utf8, true),
                Field::new("imag", DataType::Utf8, true),
            ])),
            true,
        ),
        Field::new("deviation", DataType::Utf8, true),
    ]);
    let cells = StructArray::try_new(
        cell_fields.clone(),
        vec![
            Arc::new(complex_struct(
                vec![None, Some("2.0")],
                vec![None, Some("0.0")],
                Some(vec![false, true]),
            )) as ArrayRef,
            strings(vec![None, Some("0.0")]),
        ],
        Some(NullBuffer::from(vec![false, true])),
    )
    .unwrap();
    let cell_field = Arc::new(Field::new("item", DataType::Struct(cell_fields), true));
    let computed = ListArray::new(
        cell_field.clone(),
        OffsetBuffer::new(vec![0i32, 2].into()),
        Arc::new(cells),
        None,
    );
    let schema = Arc::new(Schema::new(vec![
        Field::new("series_id", DataType::Int32, true),
        Field::new("accel_name", DataType::Utf8, true),
        Field::new("m_value", DataType::Int32, true),
        Field::new("computed", DataType::List(cell_field), true),
    ]));
    RecordBatch::try_new(
        schema,
        vec![
            Arc::new(Int32Array::from(vec![7])),
            strings(vec![Some("aitken")]),
            Arc::new(Int32Array::from(vec![2])),
            Arc::new(computed),
        ],
    )
    .unwrap()
}

#[test]
fn end_to_end_series_with_acceleration() {
    let data = decode_ipc_series_data(&ipc_bytes(&series_batch()), &ipc_bytes(&accel_batch()))
        .unwrap();
    assert_eq!(data.len(), 2);

    let (series, accels) = &data[0];
    assert_eq!(series.series_id, 7);
    assert_eq!(series.name, "geometric");
    assert_eq!(series.precision, "f64");
    assert_eq!(series.arguments.len(), 0);
    assert_eq!(series.series_limit.real.mantissa, "2.0");
    assert_eq!(series.series_limit.imag.mantissa, "0.0");
    assert_eq!(series.computed.len(), 2);
    assert_eq!(series.computed[0].n, 0);
    assert_eq!(series.computed[0].value.real.mantissa, "1.0");
    assert_eq!(series.computed[1].n, 1);
    assert_eq!(series.computed[1].value.real.mantissa, "1.5");
    assert_eq!(series.computed[1].deviation.mantissa, "5.0");
    assert_eq!(series.computed[1].deviation.exponent, -1);

    assert_eq!(accels.len(), 1);
    let accel = &accels[0];
    assert_eq!(accel.accel_info.name, "aitken");
    assert_eq!(accel.accel_info.m_value, 2);
    assert_eq!(accel.computed.len(), 2);
    assert!(accel.computed[0].is_none());
    let p = accel.computed[1].as_ref().unwrap();
    assert_eq!(p.value.real.mantissa, "2.0");
    assert_eq!(p.value.imag.mantissa, "0.0");
    assert_eq!(p.deviation.mantissa, "0.0");
    assert!(accel.errors.is_empty());
    assert!(accel.events.is_empty());
}

#[test]
fn series_without_matching_accelerations_gets_none() {
    let data = decode_ipc_series_data(&ipc_bytes(&series_batch()), &ipc_bytes(&accel_batch()))
        .unwrap();
    // series 8 has no acceleration rows: it assembles with an empty list
    let (series, accels) = &data[1];
    assert_eq!(series.series_id, 8);
    assert_eq!(series.name, "other");
    assert_eq!(series.computed.len(), 1);
    assert!(accels.is_empty());
}
