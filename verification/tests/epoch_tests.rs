use net_common::epoch::{apply_offset_micros, apply_offset_micros_checked, normalize, Epoch};

#[test]
fn normalize_carries_whole_seconds() {
    assert_eq!(normalize(5, 2_500_000_000), Epoch { seconds: 7, nanoseconds: 500_000_000 });
    assert_eq!(normalize(5, -2_500_000_000), Epoch { seconds: 2, nanoseconds: 500_000_000 });
    assert_eq!(normalize(0, 999_999_999), Epoch { seconds: 0, nanoseconds: 999_999_999 });
    assert_eq!(normalize(1, -1), Epoch { seconds: 0, nanoseconds: 999_999_999 });
    assert_eq!(normalize(3, 1_000_000_000), Epoch { seconds: 4, nanoseconds: 0 });
    assert_eq!(
        normalize(0, 10_000_000_000),
        Epoch { seconds: 10, nanoseconds: 0 },
    );
    assert_eq!(
        normalize(11, -10_000_000_000),
        Epoch { seconds: 1, nanoseconds: 0 },
    );
}

#[test]
fn normalize_conserves_total_nanoseconds() {
    let cases: Vec<(u64, i64)> = vec![
        (0, 0),
        (12, 34),
        (5, 9_999_999_999),
        (42, -9_999_999_999),
        (1_700_000_000, 123_456_789),
    ];
    for (seconds, delta) in cases {
        let e = normalize(seconds, delta);
        assert!(e.nanoseconds < 1_000_000_000);
        let total = seconds as i128 * 1_000_000_000 + delta as i128;
        assert_eq!(e.seconds as i128 * 1_000_000_000 + e.nanoseconds as i128, total);
    }
}

#[test]
fn zero_offset_is_identity() {
    let samples = vec![
        Epoch { seconds: 0, nanoseconds: 0 },
        Epoch { seconds: 100, nanoseconds: 999_999_999 },
        Epoch { seconds: 1_700_000_000, nanoseconds: 1 },
    ];
    for e in samples {
        assert_eq!(apply_offset_micros(e, 0), e);
    }
}

#[test]
fn offset_symmetry_round_trip() {
    let e = Epoch { seconds: 100, nanoseconds: 250_000_000 };
    for x in [1i64, -7, 50_000_000, -50_000_000, 1_000_000_000] {
        let mid = apply_offset_micros(e, x);
        assert_eq!(apply_offset_micros(mid, -x), e);
    }
}

#[test]
fn negative_offset_borrows_seconds() {
    assert_eq!(
        apply_offset_micros(Epoch { seconds: 100, nanoseconds: 0 }, -50_000),
        Epoch { seconds: 99, nanoseconds: 950_000_000 },
    );
    assert_eq!(
        apply_offset_micros(Epoch { seconds: 100, nanoseconds: 0 }, -50_000_000),
        Epoch { seconds: 50, nanoseconds: 0 },
    );
}

#[test]
fn underflowing_offset_is_rejected() {
    assert_eq!(
        apply_offset_micros_checked(Epoch { seconds: 100, nanoseconds: 0 }, -150_000_000),
        None,
    );
    assert_eq!(
        apply_offset_micros_checked(Epoch { seconds: 100, nanoseconds: 0 }, -50_000),
        Some(Epoch { seconds: 99, nanoseconds: 950_000_000 }),
    );
    assert_eq!(
        apply_offset_micros_checked(Epoch { seconds: 0, nanoseconds: 999_999_000 }, -1000),
        Some(Epoch { seconds: 0, nanoseconds: 998_999_000 }),
    );
    assert_eq!(
        apply_offset_micros_checked(Epoch { seconds: 0, nanoseconds: 0 }, -1),
        None,
    );
}
