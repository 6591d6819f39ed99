use vizr::error::DecodeError;
use vizr::metadata::{collect_param_info, require_all_m_values, require_all_strings, Metadata};
use vizr::records::ArgMap;

#[test]
fn metadata_strings_require_presence() {
    let cells = vec![Some("f32".to_string()), Some("f64".to_string())];
    assert_eq!(
        require_all_strings("precision", &cells).unwrap(),
        vec!["f32".to_string(), "f64".to_string()]
    );
    let with_null = vec![Some("f32".to_string()), None];
    match require_all_strings("precision", &with_null) {
        Err(DecodeError::MissingField { field, .. }) => assert_eq!(field, "precision"),
        other => panic!("expected missing field, got {:?}", other),
    }
}

#[test]
fn metadata_m_values_narrow_and_check() {
    assert_eq!(
        require_all_m_values(vec![Some(2), Some(-7)]).unwrap(),
        vec![2i32, -7]
    );
    assert!(matches!(
        require_all_m_values(vec![Some(1i64 << 40)]),
        Err(DecodeError::IntOutOfRange { .. })
    ));
    assert!(matches!(
        require_all_m_values(vec![None]),
        Err(DecodeError::MissingField { .. })
    ));
}

#[test]
fn metadata_param_info_merges_distinct_values() {
    let mut row1 = ArgMap::new();
    row1.push("ratio".to_string(), "0.5".to_string());
    row1.push("shift".to_string(), "1".to_string());
    let mut row2 = ArgMap::new();
    row2.push("ratio".to_string(), "0.9".to_string());
    row2.push("ratio".to_string(), "0.5".to_string());
    let rows = vec![row1, row2];
    let info = collect_param_info(&rows);
    assert_eq!(info.len(), 2);
    let ratio = info.iter().find(|p| p.0 == "ratio").unwrap();
    let mut vals = ratio.1.clone();
    vals.sort();
    assert_eq!(vals, vec!["0.5".to_string(), "0.9".to_string()]);
    let shift = info.iter().find(|p| p.0 == "shift").unwrap();
    assert_eq!(shift.1, vec!["1".to_string()]);
    let meta = Metadata {
        precisions: vec![],
        series_names: vec![],
        accel_names: vec![],
        m_values: vec![],
        accel_param_info: vec![],
        series_param_info: info,
    };
    assert_eq!(meta.series_param_info.len(), 2);
}
