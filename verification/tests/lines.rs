use vizr::lines::{indtov, vtoind, LineKind, LineReal, TOTAL_VIS};

#[test]
fn every_line_class_round_trips_through_its_index() {
    let parts = [
        LineReal::Real,
        LineReal::Imag { zero: false },
        LineReal::Imag { zero: true },
    ];
    let kinds = [LineKind::Accel, LineKind::PartialSum, LineKind::Limit];
    let mut seen = [false; TOTAL_VIS];
    for part in parts {
        for kind in kinds {
            let i = vtoind(part, kind);
            assert!(i < TOTAL_VIS);
            assert!(!seen[i], "index used twice");
            seen[i] = true;
            assert_eq!(indtov(i), Some((part, kind)));
        }
    }
    assert!(seen.iter().all(|&s| s));
}

#[test]
fn indices_past_the_table_map_to_nothing() {
    assert_eq!(indtov(TOTAL_VIS), None);
    assert_eq!(indtov(100), None);
}
