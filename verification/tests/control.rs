use android_sender::control::{compute_millis_between, evaluate_control_points, insert_by_time, remove_by_id};
use android_sender::protocol::{ControlMode, ControlPoint};
use android_sender::value::{JsonValue, Number};
use std::time::{SystemTime, UNIX_EPOCH};

const SECOND: i128 = 1_000_000_000;

fn now_nanos() -> i128 {
    SystemTime::now().duration_since(UNIX_EPOCH).unwrap().as_nanos() as i128
}

fn float_number(x: f64) -> Number {
    if x == 0.0 {
        return Number::Float { mantissa: 0, exponent: 0 };
    }
    let bits = x.to_bits();
    let sign: i64 = if bits >> 63 == 1 { -1 } else { 1 };
    let exp = ((bits >> 52) & 0x7ff) as i32;
    let frac = (bits & ((1u64 << 52) - 1)) as i64;
    if exp == 0 {
        Number::Float { mantissa: sign * frac, exponent: -1074 }
    } else {
        Number::Float { mantissa: sign * (frac | (1i64 << 52)), exponent: exp - 1075 }
    }
}

fn to_f64(n: &Number) -> f64 {
    match n {
        Number::PosInt(u) => *u as f64,
        Number::NegInt(i) => *i as f64,
        Number::Float { mantissa, exponent } => (*mantissa as f64) * 2f64.powi(*exponent),
    }
}

fn float(x: f64) -> JsonValue {
    JsonValue::Number(float_number(x))
}

fn integer(i: i64) -> JsonValue {
    if i >= 0 {
        JsonValue::Number(Number::PosInt(i as u64))
    } else {
        JsonValue::Number(Number::NegInt(i))
    }
}

/// Linear interpolation between two numbers, as far along as the elapsed
/// share of the total time (at most all the way).
fn lerp(a: Number, b: Number, elapsed: i64, total: i64) -> JsonValue {
    let ratio = (elapsed as f64 / total as f64).clamp(0.0, 1.0);
    let start = to_f64(&a);
    let end = to_f64(&b);
    float(start + (end - start) * ratio)
}

fn point(id: &str, time: i128, value: JsonValue, mode: ControlMode) -> ControlPoint {
    ControlPoint { id: id.to_string(), time, value, mode }
}

#[test]
fn evaluate_returns_none_for_empty_points() {
    assert!(evaluate_control_points(&[], now_nanos(), &lerp).is_none());
}

#[test]
fn evaluate_set_mode_uses_latest_point_at_or_before_timestamp() {
    let now = now_nanos();
    let points = vec![
        point("a", now - 10 * SECOND, float(0.1), ControlMode::Hold),
        point("b", now - 2 * SECOND, float(0.5), ControlMode::Hold),
        point("c", now + 10 * SECOND, float(0.9), ControlMode::Hold),
    ];

    let value = evaluate_control_points(&points, now, &lerp).unwrap();
    assert_eq!(value, float(0.5));
}

#[test]
fn evaluate_before_first_point_returns_first_value() {
    let now = now_nanos();
    let points = vec![
        point("a", now + 3 * SECOND, integer(7), ControlMode::Hold),
        point("b", now + 5 * SECOND, integer(9), ControlMode::Hold),
    ];

    let value = evaluate_control_points(&points, now, &lerp).unwrap();
    assert_eq!(value, integer(7));
}

#[test]
fn evaluate_interpolates_numeric_values() {
    let now = now_nanos();
    let points = vec![
        point("a", now - 10 * SECOND, float(10.0), ControlMode::Interpolate),
        point("b", now + 10 * SECOND, float(30.0), ControlMode::Hold),
    ];

    let value = evaluate_control_points(&points, now, &lerp).unwrap();
    let interpolated = match value {
        JsonValue::Number(n) => to_f64(&n),
        other => panic!("expected a number, got {other:?}"),
    };
    assert!((interpolated - 20.0).abs() < 0.001);
}

#[test]
fn evaluate_interpolate_with_non_numeric_values_falls_back_to_current() {
    let now = now_nanos();
    let points = vec![
        point("a", now - SECOND, JsonValue::Text("left".to_string()), ControlMode::Interpolate),
        point("b", now + SECOND, JsonValue::Text("right".to_string()), ControlMode::Hold),
    ];

    let value = evaluate_control_points(&points, now, &lerp).unwrap();
    assert_eq!(value, JsonValue::Text("left".to_string()));
}

#[test]
fn evaluate_interpolate_with_same_timestamp_does_not_divide_by_zero() {
    let now = now_nanos();
    let points = vec![point("a", now + SECOND, float(42.0), ControlMode::Interpolate)];

    let value = evaluate_control_points(&points, now, &lerp).unwrap();
    assert_eq!(value, float(42.0));
}

#[test]
fn evaluate_takes_the_latest_of_points_at_the_same_time() {
    let now = 1_000 * SECOND;
    let points = vec![
        point("a", now - SECOND, integer(1), ControlMode::Hold),
        point("b", now - SECOND, integer(2), ControlMode::Hold),
    ];
    assert_eq!(evaluate_control_points(&points, now, &lerp).unwrap(), integer(2));
}

#[test]
fn evaluate_passes_elapsed_and_total_milliseconds_to_interpolation() {
    let start = 5_000 * SECOND;
    let points = vec![
        point("a", start, integer(0), ControlMode::Interpolate),
        point("b", start + 4 * SECOND, integer(100), ControlMode::Hold),
    ];
    let seen = |_a: Number, _b: Number, elapsed: i64, total: i64| integer(elapsed * 1_000_000 + total);
    assert_eq!(evaluate_control_points(&points, start + 1_500_000_000, &seen).unwrap(), integer(1_500 * 1_000_000 + 4_000));
    assert_eq!(evaluate_control_points(&points, start - SECOND, &seen).unwrap(), integer(0));
}

fn point_at(offset_secs: i128, value: JsonValue) -> ControlPoint {
    ControlPoint {
        id: format!("cp-{offset_secs}"),
        time: now_nanos() + offset_secs * SECOND,
        value,
        mode: ControlMode::Hold,
    }
}

#[test]
fn control_points_sort_by_timestamp() {
    let mut points = vec![point_at(20, float(1.0)), point_at(-10, float(2.0)), point_at(5, float(3.0))];

    points.sort_by(|a, b| a.cmp(b));
    assert_eq!(points[0].id, "cp--10");
    assert_eq!(points[1].id, "cp-5");
    assert_eq!(points[2].id, "cp-20");
}

#[test]
fn insert_by_time_keeps_points_ordered_and_remove_by_id_drops_them() {
    let mut points = Vec::new();
    insert_by_time(&mut points, point("late", 30, integer(3), ControlMode::Hold));
    insert_by_time(&mut points, point("early", 10, integer(1), ControlMode::Hold));
    insert_by_time(&mut points, point("tie", 10, integer(2), ControlMode::Hold));
    let ids: Vec<&str> = points.iter().map(|p| p.id.as_str()).collect();
    assert_eq!(ids, vec!["early", "tie", "late"]);

    remove_by_id(&mut points, &"early".to_string());
    let ids: Vec<&str> = points.iter().map(|p| p.id.as_str()).collect();
    assert_eq!(ids, vec!["tie", "late"]);
}

#[test]
fn millis_between_keeps_nanosecond_times_and_saturates() {
    assert_eq!(compute_millis_between(0, 1_999_999), 1);
    assert_eq!(compute_millis_between(0, 999_999), 0);
    assert_eq!(compute_millis_between(5, -1_000_001), -1);
    assert_eq!(compute_millis_between(1_000_000_000_123, 1_000_004_000_122), 3);
    assert_eq!(compute_millis_between(i128::MIN, i128::MAX), i64::MAX);
    assert_eq!(compute_millis_between(i128::MAX, i128::MIN), i64::MIN);
}
