use vizr::assemble::{
    assemble, decode_accel_rows, decode_point_lists, decode_series_rows, group_accels, Batch,
};
use vizr::column::{ColumnData, ListEncoding, TextEncoding};
use vizr::decode::{to_accel_point, to_complex, to_error_info, to_event_info, to_series_point};
use vizr::error::DecodeError;
use vizr::extract::{to_i64, to_list, to_str, to_struct_str};

fn text(enc: TextEncoding, cells: Vec<Option<&str>>) -> ColumnData {
    ColumnData::Text {
        enc,
        cells: cells.into_iter().map(|o| o.map(|s| s.to_string())).collect(),
    }
}

fn struct_col(validity: Vec<bool>, fields: Vec<(&str, ColumnData)>) -> ColumnData {
    ColumnData::Struct {
        validity,
        fields: fields.into_iter().map(|(n, c)| (n.to_string(), c)).collect(),
    }
}

#[test]
fn string_extraction_all_three_encodings() {
    // logically identical columns in three physical encodings
    let cells = vec![Some("a"), None, Some("c")];
    for enc in [TextEncoding::Narrow, TextEncoding::Wide, TextEncoding::View] {
        let col = text(enc, cells.clone());
        let out = to_str("s", &col).unwrap();
        assert_eq!(
            out,
            vec![Some("a".to_string()), None, Some("c".to_string())]
        );
    }
}

#[test]
fn string_extraction_null_column_fallback() {
    let out = to_str("s", &ColumnData::Nulls { len: 4 }).unwrap();
    assert_eq!(out, vec![None, None, None, None]);
}

#[test]
fn string_extraction_mismatch_names_column() {
    let col = ColumnData::Int8 { cells: vec![Some(1)] };
    match to_str("mycol", &col) {
        Err(DecodeError::TypeMismatch { field, expected, actual }) => {
            assert_eq!(field, "mycol");
            assert_eq!(expected, "string");
            assert_eq!(actual, "Int8");
        },
        other => panic!("expected mismatch, got {:?}", other),
    }
}

#[test]
fn int_extraction_widens_every_width() {
    let cases: Vec<ColumnData> = vec![
        ColumnData::Int8 { cells: vec![Some(-7), None] },
        ColumnData::Int16 { cells: vec![Some(-7), None] },
        ColumnData::Int32 { cells: vec![Some(-7), None] },
        ColumnData::Int64 { cells: vec![Some(-7), None] },
    ];
    for col in cases {
        assert_eq!(to_i64("n", &col).unwrap(), vec![Some(-7i64), None]);
    }
    let unsigned: Vec<ColumnData> = vec![
        ColumnData::UInt8 { cells: vec![Some(7), None] },
        ColumnData::UInt16 { cells: vec![Some(7), None] },
        ColumnData::UInt32 { cells: vec![Some(7), None] },
        ColumnData::UInt64 { cells: vec![Some(7), None] },
    ];
    for col in unsigned {
        assert_eq!(to_i64("n", &col).unwrap(), vec![Some(7i64), None]);
    }
}

#[test]
fn int_extraction_null_column_fallback() {
    assert_eq!(
        to_i64("n", &ColumnData::Nulls { len: 2 }).unwrap(),
        vec![None, None]
    );
}

#[test]
fn int_extraction_rejects_unsigned_overflow() {
    let col = ColumnData::UInt64 { cells: vec![Some(u64::MAX)] };
    match to_i64("n", &col) {
        Err(DecodeError::IntOutOfRange { value }) => assert_eq!(value, u64::MAX as i128),
        other => panic!("expected out-of-range, got {:?}", other),
    }
}

#[test]
fn struct_str_keeps_present_fields_per_row() {
    let col = struct_col(
        vec![true, true],
        vec![
            ("alpha", text(TextEncoding::Narrow, vec![Some("1"), None])),
            ("beta", text(TextEncoding::Wide, vec![None, Some("2")])),
        ],
    );
    let rows = to_struct_str("args", &col).unwrap();
    assert_eq!(rows.len(), 2);
    assert_eq!(rows[0].get("alpha").map(|s| s.as_str()), Some("1"));
    assert!(rows[0].get("beta").is_none());
    assert_eq!(rows[1].get("beta").map(|s| s.as_str()), Some("2"));
    assert_eq!(rows[0].len(), 1);
}

#[test]
fn struct_str_null_column_gives_empty_bags() {
    let rows = to_struct_str("args", &ColumnData::Nulls { len: 3 }).unwrap();
    assert_eq!(rows.len(), 3);
    assert!(rows.iter().all(|m| m.len() == 0));
}

#[test]
fn struct_str_names_offending_field() {
    let col = struct_col(
        vec![true],
        vec![("ok", text(TextEncoding::Narrow, vec![Some("1")])), (
            "bad",
            ColumnData::Int32 { cells: vec![Some(1)] },
        )],
    );
    match to_struct_str("args", &col) {
        Err(DecodeError::TypeMismatch { field, .. }) => assert_eq!(field, "bad"),
        other => panic!("expected mismatch, got {:?}", other),
    }
}

#[test]
fn list_extraction_distinguishes_null_and_empty() {
    let col = ColumnData::List {
        enc: ListEncoding::Offset,
        cells: vec![
            None,
            Some(text(TextEncoding::Narrow, vec![])),
            Some(text(TextEncoding::Narrow, vec![Some("x")])),
        ],
    };
    let out = to_list("computed", &col).unwrap();
    assert_eq!(out.len(), 3);
    assert!(out[0].is_none());
    assert_eq!(out[1].unwrap().row_count(), 0);
    assert_eq!(out[2].unwrap().row_count(), 1);
}

#[test]
fn list_extraction_null_column_fallback() {
    let out = to_list("computed", &ColumnData::Nulls { len: 2 }).unwrap();
    assert!(out.iter().all(|c| c.is_none()));
}

#[test]
fn complex_decoding_defaults_and_requirements() {
    let col = struct_col(
        vec![true, true, false, true],
        vec![
            (
                "real",
                text(TextEncoding::Narrow, vec![Some("1.5"), Some("2.0"), None, Some("3e2")]),
            ),
            (
                "imag",
                text(TextEncoding::Narrow, vec![Some("-2e-3"), None, None, Some("")]),
            ),
        ],
    );
    let out = to_complex("limit", &col).unwrap();
    assert_eq!(out.len(), 4);
    let c0 = out[0].as_ref().unwrap();
    assert_eq!(c0.real.mantissa, "1.5");
    assert_eq!(c0.imag.mantissa, "-2");
    assert_eq!(c0.imag.exponent, -3);
    // absent imag defaults to zero
    let c1 = out[1].as_ref().unwrap();
    assert_eq!(c1.imag.mantissa, "0");
    assert_eq!(c1.imag.exponent, 0);
    // null row carries no value
    assert!(out[2].is_none());
    // present-but-empty imag also defaults to zero
    let c3 = out[3].as_ref().unwrap();
    assert_eq!(c3.real.mantissa, "3");
    assert_eq!(c3.real.exponent, 2);
    assert_eq!(c3.imag.mantissa, "0");
}

#[test]
fn complex_decoding_requires_real() {
    let col = struct_col(
        vec![true],
        vec![
            ("real", text(TextEncoding::Narrow, vec![None])),
            ("imag", text(TextEncoding::Narrow, vec![None])),
        ],
    );
    match to_complex("limit", &col) {
        Err(DecodeError::MissingField { field, .. }) => assert_eq!(field, "real"),
        other => panic!("expected missing field, got {:?}", other),
    }
}

#[test]
fn complex_decoding_null_column_fallback() {
    let out = to_complex("limit", &ColumnData::Nulls { len: 2 }).unwrap();
    assert_eq!(out, vec![None, None]);
}

#[test]
fn complex_decoding_mismatch_without_both_fields() {
    let col = struct_col(vec![true], vec![("real", text(TextEncoding::Narrow, vec![Some("1")]))]);
    assert!(matches!(
        to_complex("limit", &col),
        Err(DecodeError::TypeMismatch { .. })
    ));
}

fn complex_field(reals: Vec<Option<&str>>, imags: Vec<Option<&str>>, validity: Vec<bool>) -> ColumnData {
    struct_col(
        validity,
        vec![
            ("real", text(TextEncoding::Narrow, reals)),
            ("imag", text(TextEncoding::Narrow, imags)),
        ],
    )
}

#[test]
fn series_point_decoding_requires_every_field() {
    let col = struct_col(
        vec![true, true],
        vec![
            ("n", ColumnData::Int32 { cells: vec![Some(0), Some(1)] }),
            (
                "value",
                complex_field(
                    vec![Some("1.0"), Some("1.5")],
                    vec![Some("0.0"), Some("0.0")],
                    vec![true, true],
                ),
            ),
            ("deviation", text(TextEncoding::Narrow, vec![Some("1.0"), Some("5.0e-1")])),
        ],
    );
    let pts = to_series_point("computed.[]", &col).unwrap();
    assert_eq!(pts.len(), 2);
    assert_eq!(pts[0].n, 0);
    assert_eq!(pts[1].n, 1);
    assert_eq!(pts[1].value.real.mantissa, "1.5");
    assert_eq!(pts[1].deviation.mantissa, "5.0");
    assert_eq!(pts[1].deviation.exponent, -1);
}

#[test]
fn series_point_decoding_fails_on_null_n() {
    let col = struct_col(
        vec![true],
        vec![
            ("n", ColumnData::Int32 { cells: vec![None] }),
            ("value", complex_field(vec![Some("1.0")], vec![None], vec![true])),
            ("deviation", text(TextEncoding::Narrow, vec![Some("1.0")])),
        ],
    );
    match to_series_point("computed.[]", &col) {
        Err(DecodeError::MissingField { field, .. }) => assert_eq!(field, "n"),
        other => panic!("expected missing field, got {:?}", other),
    }
}

#[test]
fn series_point_decoding_checks_index_range() {
    let col = struct_col(
        vec![true],
        vec![
            ("n", ColumnData::Int64 { cells: vec![Some(1i64 << 40)] }),
            ("value", complex_field(vec![Some("1.0")], vec![None], vec![true])),
            ("deviation", text(TextEncoding::Narrow, vec![Some("1.0")])),
        ],
    );
    assert!(matches!(
        to_series_point("computed.[]", &col),
        Err(DecodeError::IntOutOfRange { .. })
    ));
}

#[test]
fn error_info_decoding() {
    let col = struct_col(
        vec![true, true],
        vec![
            ("n", ColumnData::Int32 { cells: vec![Some(3), Some(4)] }),
            ("message", text(TextEncoding::Narrow, vec![Some("overflow"), Some("nan")])),
        ],
    );
    let infos = to_error_info("errors.[]", &col).unwrap();
    assert_eq!(infos.len(), 2);
    assert_eq!(infos[0].n, 3);
    assert_eq!(infos[0].message, "overflow");
}

#[test]
fn event_info_decoding_requires_description() {
    let col = struct_col(
        vec![true],
        vec![
            ("n", ColumnData::Int32 { cells: vec![Some(3)] }),
            ("name", text(TextEncoding::Narrow, vec![Some("restart")])),
            ("description", text(TextEncoding::Narrow, vec![None])),
        ],
    );
    match to_event_info("events.[]", &col) {
        Err(DecodeError::MissingField { field, .. }) => assert_eq!(field, "description"),
        other => panic!("expected missing field, got {:?}", other),
    }
}

#[test]
fn accel_point_decoding_preserves_absent_rows() {
    let col = struct_col(
        vec![false, true],
        vec![
            (
                "value",
                complex_field(vec![None, Some("2.0")], vec![None, Some("0.0")], vec![false, true]),
            ),
            ("deviation", text(TextEncoding::Narrow, vec![None, Some("0.0")])),
        ],
    );
    let pts = to_accel_point("computed.[]", &col).unwrap();
    assert_eq!(pts.len(), 2);
    assert!(pts[0].is_none());
    let p = pts[1].as_ref().unwrap();
    assert_eq!(p.value.real.mantissa, "2.0");
    assert_eq!(p.deviation.mantissa, "0.0");
}

#[test]
fn point_lists_decoding_distinguishes_null_and_empty_rows() {
    let element = |ns: Vec<i32>| -> ColumnData {
        let len = ns.len();
        struct_col(
            vec![true; len],
            vec![
                ("n", ColumnData::Int32 { cells: ns.into_iter().map(Some).collect() }),
                (
                    "value",
                    complex_field(vec![Some("1.0"); len], vec![None; len], vec![true; len]),
                ),
                ("deviation", text(TextEncoding::Narrow, vec![Some("1.0"); len])),
            ],
        )
    };
    let col = ColumnData::List {
        enc: ListEncoding::Offset,
        cells: vec![None, Some(element(vec![])), Some(element(vec![5]))],
    };
    let rows = decode_point_lists("computed", &col).unwrap();
    assert_eq!(rows.len(), 3);
    assert!(rows[0].is_none());
    assert_eq!(rows[1].as_ref().unwrap().len(), 0);
    assert_eq!(rows[2].as_ref().unwrap().len(), 1);
    assert_eq!(rows[2].as_ref().unwrap()[0].n, 5);
}

#[test]
fn missing_join_key_assembles_empty() {
    // a series whose id has no accelerations gets an empty list, not an error
    let batch = Batch {
        num_rows: 1,
        columns: vec![
            ("precision".to_string(), text(TextEncoding::Narrow, vec![Some("f64")])),
            ("series_id".to_string(), ColumnData::Int32 { cells: vec![Some(9)] }),
            ("series_name".to_string(), text(TextEncoding::Narrow, vec![Some("alt")])),
            ("arguments".to_string(), ColumnData::Nulls { len: 1 }),
            ("series_limit".to_string(), ColumnData::Nulls { len: 1 }),
            ("computed".to_string(), ColumnData::List { enc: ListEncoding::Offset, cells: vec![Some(struct_col(
                vec![],
                vec![
                    ("n", ColumnData::Int32 { cells: vec![] }),
                    ("value", complex_field(vec![], vec![], vec![])),
                    ("deviation", text(TextEncoding::Narrow, vec![])),
                ],
            ))] }),
        ],
    };
    let records = decode_series_rows(&batch).unwrap();
    assert_eq!(records.len(), 1);
    // the all-null limit column decodes to the zero limit
    assert_eq!(records[0].series_limit.real.mantissa, "0");
    let groups = group_accels(Vec::new());
    let data = assemble(&records, &groups);
    assert_eq!(data.len(), 1);
    assert!(data[0].1.is_empty());
}

#[test]
fn accel_rows_default_optional_columns() {
    let batch = Batch {
        num_rows: 1,
        columns: vec![
            ("series_id".to_string(), ColumnData::Int32 { cells: vec![Some(7)] }),
            ("accel_name".to_string(), text(TextEncoding::Narrow, vec![Some("aitken")])),
            ("m_value".to_string(), ColumnData::Int64 { cells: vec![Some(2)] }),
            ("computed".to_string(), ColumnData::List {
                enc: ListEncoding::Offset,
                cells: vec![Some(struct_col(
                    vec![],
                    vec![
                        ("value", complex_field(vec![], vec![], vec![])),
                        ("deviation", text(TextEncoding::Narrow, vec![])),
                    ],
                ))],
            }),
        ],
    };
    let rows = decode_accel_rows(&batch).unwrap();
    assert_eq!(rows.len(), 1);
    assert_eq!(rows[0].0, 7);
    assert_eq!(rows[0].1.accel_info.name, "aitken");
    assert_eq!(rows[0].1.accel_info.m_value, 2);
    assert_eq!(rows[0].1.accel_info.additional_args.len(), 0);
    assert!(rows[0].1.errors.is_empty());
    assert!(rows[0].1.events.is_empty());
}
