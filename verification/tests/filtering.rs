use vizr::filters::{filter_data_items, filterable, Filters};
use vizr::records::{
    AccelInfo, AccelRecord, ArgMap, ComplexNumber, SeriesData, SeriesRecord,
};

fn args(pairs: &[(&str, &str)]) -> ArgMap {
    let mut m = ArgMap::new();
    for (k, v) in pairs {
        m.push(k.to_string(), v.to_string());
    }
    m
}

fn series(id: i32, precision: &str, name: &str, arguments: ArgMap) -> SeriesRecord {
    SeriesRecord {
        precision: precision.to_string(),
        series_id: id,
        name: name.to_string(),
        arguments,
        series_limit: ComplexNumber::zero(),
        computed: Vec::new(),
    }
}

fn accel(name: &str, m_value: i32, additional: ArgMap) -> AccelRecord {
    AccelRecord {
        accel_info: AccelInfo { name: name.to_string(), m_value, additional_args: additional },
        computed: Vec::new(),
        errors: Vec::new(),
        events: Vec::new(),
    }
}

fn sample() -> Vec<SeriesData> {
    vec![
        (
            series(1, "f64", "geometric", args(&[("ratio", "0.5")])),
            vec![accel("aitken", 2, args(&[])), accel("wynn", 4, args(&[]))],
        ),
        (
            series(2, "f32", "harmonic", args(&[("ratio", "0.9")])),
            vec![accel("aitken", 3, args(&[]))],
        ),
        (series(3, "f64", "geometric", args(&[("ratio", "0.5")])), vec![]),
    ]
}

#[test]
fn no_filters_keeps_everything() {
    let data = sample();
    let kept = filter_data_items(&data, &Filters::default());
    assert_eq!(kept.len(), 3);
    assert_eq!(kept[0], (0, vec![0, 1]));
    assert_eq!(kept[1], (1, vec![0]));
    assert_eq!(kept[2], (2, vec![]));
}

#[test]
fn series_level_filter_narrows_series() {
    let data = sample();
    let mut f = Filters::default();
    f.precisions = vec!["f32".to_string()];
    let kept = filter_data_items(&data, &f);
    assert_eq!(kept, vec![(1, vec![0])]);
}

#[test]
fn accel_filter_narrows_both_levels() {
    let data = sample();
    let mut f = Filters::default();
    f.m_values = vec![2];
    let kept = filter_data_items(&data, &f);
    // only the first series has an m=2 acceleration; only that
    // acceleration survives within it
    assert_eq!(kept, vec![(0, vec![0])]);
}

#[test]
fn restricted_filters_drop_series_without_matching_accels() {
    let data = sample();
    let mut f = Filters::default();
    f.base_accel = vec!["aitken".to_string()];
    let kept = filter_data_items(&data, &f);
    // the third series has no accelerations at all, so under any
    // restriction it is dropped
    assert_eq!(kept, vec![(0, vec![0]), (1, vec![0])]);
}

#[test]
fn param_filter_requires_binding() {
    let data = sample();
    let mut f = Filters::default();
    f.series_params = vec![("ratio".to_string(), vec!["0.5".to_string()])];
    let kept = filter_data_items(&data, &f);
    // series 3 matches the parameter but has no accelerations
    assert_eq!(kept, vec![(0, vec![0, 1])]);
}

#[test]
fn filterable_offers_only_real_choices() {
    let data = sample();
    let f = filterable(&data);
    let mut precisions = f.precisions.clone();
    precisions.sort();
    assert_eq!(precisions, vec!["f32".to_string(), "f64".to_string()]);
    let mut names = f.base_series.clone();
    names.sort();
    assert_eq!(names, vec!["geometric".to_string(), "harmonic".to_string()]);
    let mut accels = f.base_accel.clone();
    accels.sort();
    assert_eq!(accels, vec!["aitken".to_string(), "wynn".to_string()]);
    let mut ms = f.m_values.clone();
    ms.sort();
    assert_eq!(ms, vec![2, 3, 4]);
    // the ratio parameter has two distinct values, so it is offered
    assert_eq!(f.series_params.len(), 1);
    assert_eq!(f.series_params[0].0, "ratio");
    let mut vals = f.series_params[0].1.clone();
    vals.sort();
    assert_eq!(vals, vec!["0.5".to_string(), "0.9".to_string()]);
    // no acceleration has arguments at all
    assert!(f.accel_params.is_empty());
}

#[test]
fn filterable_drops_single_valued_categories() {
    let data = vec![
        (series(1, "f64", "geometric", args(&[])), vec![accel("aitken", 2, args(&[]))]),
        (series(2, "f64", "geometric", args(&[])), vec![accel("aitken", 2, args(&[]))]),
    ];
    let f = filterable(&data);
    assert!(f.precisions.is_empty());
    assert!(f.base_series.is_empty());
    assert!(f.base_accel.is_empty());
    assert!(f.m_values.is_empty());
    assert!(f.series_params.is_empty());
    assert!(f.accel_params.is_empty());
}
