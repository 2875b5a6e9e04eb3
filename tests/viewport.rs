use faraday_art::viewport::{
    get_shift_speed, scale, shift, zoom, zoom_relative, Factor, COORD_ONE, MAX_ZOOM_DELTA,
};

const ONE: i64 = COORD_ONE;

#[test]
fn shift_then_unshift_returns_range() {
    let r = (-2 * ONE, ONE / 2);
    let moved = shift(r, 123_456_789).unwrap();
    assert_eq!(moved, (-2 * ONE + 123_456_789, ONE / 2 + 123_456_789));
    assert_eq!(shift(moved, -123_456_789), Some(r));
}

#[test]
fn shift_out_of_range_is_refused() {
    assert_eq!(shift((i64::MAX - 1, i64::MAX), 5), None);
    assert_eq!(shift((i64::MIN, 0), -1), None);
}

#[test]
fn scale_then_inverse_returns_range() {
    let r = (-3 * ONE, 7 * ONE);
    let f = Factor { num: 3, den: 1 };
    let s = scale(r, f).unwrap();
    assert_eq!(s, (-9 * ONE, 21 * ONE));
    assert_eq!(scale(s, Factor { num: 1, den: 3 }), Some(r));
    let g = Factor { num: 3, den: 4 };
    let t = scale((-8, 16), g).unwrap();
    assert_eq!(t, (-6, 12));
    assert_eq!(scale(t, Factor { num: 4, den: 3 }), Some((-8, 16)));
}

#[test]
fn scale_rounds_toward_negative_infinity() {
    assert_eq!(scale((-3, 3), Factor { num: 1, den: 2 }), Some((-2, 1)));
    assert_eq!(scale((-3, 3), Factor { num: -1, den: 2 }), Some((1, -2)));
}

#[test]
fn scale_with_zero_denominator_is_refused() {
    assert_eq!(scale((1, 2), Factor { num: 1, den: 0 }), None);
    assert_eq!(scale((i64::MAX, 0), Factor { num: 2, den: 1 }), None);
}

#[test]
fn zoom_scales_around_focus() {
    let r = (0, 4 * ONE);
    let z = zoom(r, r, Factor { num: 1, den: 2 }, (2 * ONE, ONE)).unwrap();
    assert_eq!(z, ((ONE, 3 * ONE), (ONE / 2, 5 * ONE / 2)));
}

#[test]
fn zoom_relative_by_one_changes_nothing() {
    let x = (-2 * ONE, ONE / 2);
    let y = (-5 * ONE / 4, 5 * ONE / 4);
    let one = Factor { num: 1, den: 1 };
    assert_eq!(zoom_relative(x, y, one, (ONE / 4, 3 * ONE / 4)), Some((x, y)));
    assert_eq!(zoom_relative(x, y, one, (0, ONE)), Some((x, y)));
    let same = Factor { num: ONE, den: ONE };
    assert_eq!(zoom_relative(x, y, same, (ONE / 3, ONE / 7)), Some((x, y)));
}

#[test]
fn zoom_relative_uses_relative_focus() {
    let x = (0, 4 * ONE);
    let y = (4 * ONE, 8 * ONE);
    let half = Factor { num: 1, den: 2 };
    let z = zoom_relative(x, y, half, (ONE / 2, 0)).unwrap();
    assert_eq!(z, ((ONE, 3 * ONE), (4 * ONE, 6 * ONE)));
}

#[test]
fn repeated_zoom_shrinks_width_geometrically() {
    let mut x = (0, ONE);
    let mut y = (0, ONE);
    let f = Factor { num: 99, den: 100 };
    for _ in 0..10 {
        let (nx, ny) = zoom_relative(x, y, f, (ONE / 2, ONE / 2)).unwrap();
        x = nx;
        y = ny;
    }
    let expected = 0.99f64.powi(10) * ONE as f64;
    let width = (x.1 - x.0) as f64;
    assert!((width - expected).abs() < 16.0, "width {} expected {}", width, expected);
    let centre = (x.0 + x.1) as f64 / 2.0;
    assert!((centre - ONE as f64 / 2.0).abs() < 16.0);
    assert!(x.1 - x.0 >= MAX_ZOOM_DELTA);
}

#[test]
fn map_is_linear_and_rounds_down() {
    assert_eq!(faraday_art::viewport::map(5, (0, 10), (0, 100)), Some(50));
    assert_eq!(faraday_art::viewport::map(1, (0, 3), (0, 10)), Some(3));
    assert_eq!(faraday_art::viewport::map(-1, (0, 3), (0, 10)), Some(-4));
    assert_eq!(faraday_art::viewport::map(2, (0, 4), (10, 20)), Some(15));
    assert_eq!(faraday_art::viewport::map(1, (4, 0), (0, 8)), Some(6));
}

#[test]
fn map_with_empty_input_range_is_refused() {
    assert_eq!(faraday_art::viewport::map(3, (1, 1), (0, 10)), None);
    assert_eq!(faraday_art::viewport::map(i64::MAX, (0, 1), (0, i64::MAX)), None);
}

#[test]
fn shift_speed_divides_width() {
    assert_eq!(get_shift_speed((0, 100), 50), Some(2));
    assert_eq!(get_shift_speed((-2 * ONE, ONE / 2), 50), Some(5 * ONE / 2 / 50));
    assert_eq!(get_shift_speed((0, -7), 2), Some(-4));
    assert_eq!(get_shift_speed((0, 100), 0), None);
    assert_eq!(get_shift_speed((i64::MIN, i64::MAX), 1), None);
}
