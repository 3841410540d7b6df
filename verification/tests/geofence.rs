use geodrop::geofence::{
    abs_diff, dist_sq, inside, LNG_SCALE_DEN, LNG_SCALE_NUM, MAX_RADIUS_UNITS,
};

const DROP_LAT: i64 = 520_000_000;
const DROP_LNG: i64 = 210_000_000;

#[test]
fn constants_have_their_documented_values() {
    assert_eq!(MAX_RADIUS_UNITS, 15_000);
    assert_eq!(LNG_SCALE_NUM, 16);
    assert_eq!(LNG_SCALE_DEN, 10);
}

#[test]
fn accepts_claimer_next_to_drop() {
    assert!(inside(520_000_050, 210_000_050, DROP_LAT, DROP_LNG));
}

#[test]
fn accepts_claimer_on_the_drop() {
    assert!(inside(DROP_LAT, DROP_LNG, DROP_LAT, DROP_LNG));
}

#[test]
fn rejects_latitude_outside_bounding_box() {
    assert!(!inside(520_050_000, DROP_LNG, DROP_LAT, DROP_LNG));
}

#[test]
fn rejects_longitude_outside_bounding_box() {
    assert!(!inside(DROP_LAT, DROP_LNG + 24_001, DROP_LAT, DROP_LNG));
    assert!(!inside(DROP_LAT, DROP_LNG - 24_001, DROP_LAT, DROP_LNG));
}

#[test]
fn rejects_inside_box_but_outside_circle() {
    // dlat = 10,000 and dlng = 20,000 pass the box; the normalised longitude
    // difference is 12,500 and the squared distance 256,250,000.
    assert_eq!(dist_sq(10_000, 20_000), 256_250_000);
    assert!(!inside(DROP_LAT + 10_000, DROP_LNG + 20_000, DROP_LAT, DROP_LNG));
}

#[test]
fn direction_does_not_matter() {
    for (dlat, dlng) in [(50, 50), (-50, 50), (50, -50), (-50, -50)] {
        assert!(inside(DROP_LAT + dlat, DROP_LNG + dlng, DROP_LAT, DROP_LNG));
    }
    for (dlat, dlng) in [(10_000, 20_000), (-10_000, 20_000), (10_000, -20_000), (-10_000, -20_000)]
    {
        assert!(!inside(DROP_LAT + dlat, DROP_LNG + dlng, DROP_LAT, DROP_LNG));
    }
}

#[test]
fn edge_of_the_circle_is_inside() {
    // 15,000^2 + 0^2 == 225,000,000
    assert_eq!(dist_sq(15_000, 0), 225_000_000);
    assert!(inside(15_000, 0, 0, 0));
    assert!(inside(-15_000, 0, 0, 0));
    // 9,000^2 + 12,000^2 == 225,000,000, and 19,200 * 10 / 16 == 12,000
    assert_eq!(dist_sq(9_000, 19_200), 225_000_000);
    assert!(inside(9_000, 19_200, 0, 0));
    // 24,000 * 10 / 16 == 15,000
    assert_eq!(dist_sq(0, 24_000), 225_000_000);
    assert!(inside(0, 24_000, 0, 0));
}

#[test]
fn one_unit_beyond_the_edge_is_outside() {
    // 15,000^2 + 1^2 == 225,000,001, and 2 * 10 / 16 == 1
    assert_eq!(dist_sq(15_000, 2), 225_000_001);
    assert!(!inside(15_000, 2, 0, 0));
    assert!(inside(15_000, 1, 0, 0));
    assert!(!inside(15_001, 0, 0, 0));
}

#[test]
fn bounding_box_refuses_what_the_circle_alone_would_take() {
    // 24,001 * 10 / 16 == 15,000, so the squared distance is still the
    // squared radius, but the longitude difference is over its limit.
    assert_eq!(dist_sq(0, 24_001), 225_000_000);
    assert!(!inside(0, 24_001, 0, 0));
}

#[test]
fn longitude_is_normalised_by_ten_sixteenths_rounded_down() {
    assert_eq!(dist_sq(0, 16), 100);
    assert_eq!(dist_sq(0, 31), 19 * 19);
    assert_eq!(dist_sq(0, 1), 0);
    assert_eq!(dist_sq(3, 16), 109);
}

#[test]
fn abs_diff_covers_the_whole_range() {
    assert_eq!(abs_diff(5, 3), 2);
    assert_eq!(abs_diff(3, 5), 2);
    assert_eq!(abs_diff(-3, 5), 8);
    assert_eq!(abs_diff(i64::MIN, i64::MAX), u64::MAX);
    assert_eq!(abs_diff(i64::MAX, i64::MIN), u64::MAX);
    assert_eq!(abs_diff(i64::MIN, 0), 1u64 << 63);
    assert_eq!(abs_diff(i64::MIN, i64::MIN), 0);
}

#[test]
fn dist_sq_saturates() {
    assert_eq!(dist_sq(u64::MAX, 0), u64::MAX);
    assert_eq!(dist_sq(0, u64::MAX), u64::MAX);
    assert_eq!(dist_sq(u64::MAX, u64::MAX), u64::MAX);
    // 2^32 squared no longer fits; one less does.
    assert_eq!(dist_sq(1 << 32, 0), u64::MAX);
    assert_eq!(dist_sq((1 << 32) - 1, 0), 18_446_744_065_119_617_025);
    // each square fits, their sum does not
    assert_eq!(dist_sq(4_000_000_000, 6_400_000_000), u64::MAX);
}

/// The decision written out in wide arithmetic, where nothing can overflow.
fn inside_in_wide_arithmetic(lat: i64, lng: i64, drop_lat: i64, drop_lng: i64) -> bool {
    let dlat = (lat as i128 - drop_lat as i128).abs();
    let dlng = (lng as i128 - drop_lng as i128).abs();
    if dlat > 15_000 || dlng > 15_000 * 16 / 10 {
        return false;
    }
    let norm = dlng * 10 / 16;
    dlat * dlat + norm * norm <= 15_000 * 15_000
}

/// A small generator of well-spread 64-bit values.
fn next(state: &mut u64) -> u64 {
    *state = state.wrapping_mul(6_364_136_223_846_793_005).wrapping_add(1_442_695_040_888_963_407);
    let mut x = *state;
    x ^= x >> 33;
    x = x.wrapping_mul(0xff51_afd7_ed55_8ccd);
    x ^= x >> 33;
    x
}

#[test]
fn agrees_with_wide_arithmetic_near_the_drop() {
    let mut state = 1u64;
    let mut accepted = 0;
    for _ in 0..20_000 {
        let drop_lat = next(&mut state) as i64;
        let drop_lng = next(&mut state) as i64;
        let dlat = (next(&mut state) % 40_001) as i64 - 20_000;
        let dlng = (next(&mut state) % 60_001) as i64 - 30_000;
        let lat = drop_lat.saturating_add(dlat);
        let lng = drop_lng.saturating_add(dlng);
        let expected = inside_in_wide_arithmetic(lat, lng, drop_lat, drop_lng);
        assert_eq!(inside(lat, lng, drop_lat, drop_lng), expected);
        assert_eq!(inside(drop_lat, drop_lng, lat, lng), expected);
        if expected {
            accepted += 1;
        }
    }
    assert!(accepted > 1_000);
}

#[test]
fn agrees_with_wide_arithmetic_anywhere() {
    let mut state = 2u64;
    for _ in 0..20_000 {
        let (a, b, c, d) = (
            next(&mut state) as i64,
            next(&mut state) as i64,
            next(&mut state) as i64,
            next(&mut state) as i64,
        );
        assert_eq!(inside(a, b, c, d), inside_in_wide_arithmetic(a, b, c, d));
    }
}

#[test]
fn dist_sq_agrees_with_wide_arithmetic() {
    let mut state = 3u64;
    for i in 0..20_000 {
        // all sizes of operands: shift by a varying amount
        let dlat = next(&mut state) >> (i % 64);
        let dlng = next(&mut state) >> ((i / 64) % 64);
        let norm = dlng as u128 * 10 / 16;
        let exact = dlat as u128 * dlat as u128 + norm * norm;
        let expected = if exact > u64::MAX as u128 { u64::MAX } else { exact as u64 };
        assert_eq!(dist_sq(dlat, dlng), expected);
        let (a, b) = (dlat as i64, dlng as i64);
        assert_eq!(abs_diff(a, b) as i128, (a as i128 - b as i128).abs());
    }
}

#[test]
fn extreme_coordinates_are_decided_without_overflow() {
    let valid: i64 = 1_800 * 10_000_000;
    assert!(!inside(valid, valid, -valid, -valid));
    assert!(inside(valid, -valid, valid - 9_000, -valid + 19_200));
    // 19,201 * 10 / 16 is still 12,000; 19,202 gives 12,001
    assert!(inside(valid, -valid, valid - 9_000, -valid + 19_201));
    assert!(!inside(valid, -valid, valid - 9_000, -valid + 19_202));
    let far: i64 = 1_800_000_000_000_000;
    assert!(!inside(far, far, -far, -far));
    assert!(!inside(-far, -far, far, far));
    assert!(inside(far, far, far, far));
    assert!(inside(-far, -far, -far + 50, -far + 50));
    assert!(!inside(i64::MAX, i64::MAX, i64::MIN, i64::MIN));
    assert!(!inside(i64::MIN, i64::MIN, i64::MAX, i64::MAX));
    assert!(inside(i64::MAX, i64::MIN, i64::MAX, i64::MIN));
    assert!(inside(i64::MIN, i64::MAX, i64::MIN + 15_000, i64::MAX));
    assert!(!inside(i64::MIN, i64::MAX, i64::MIN + 15_001, i64::MAX));
}
