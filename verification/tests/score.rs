//! Scores: order, range and printing of 64-bit floats.

use scaffold_ai::score::Score;

fn score(value: f64) -> Score {
    Score::new(value.to_bits(), format!("{value}"))
}

fn samples() -> Vec<f64> {
    let mut list = vec![
        0.0, -0.0, 0.005, 0.015, 0.025, 0.125, 0.135, 0.375, 0.695, 0.7, 0.705, 0.999, 0.995, 1.0,
        1.5, 2.675, 1e-300, 5e-324, -5e-324, -0.004, -0.006, -1.25, 123456.785, 9007199254740993.0,
        1e22, 1.7976931348623157e308, f64::MIN_POSITIVE, f64::EPSILON, f64::INFINITY,
        f64::NEG_INFINITY, f64::NAN, -f64::NAN,
    ];
    let mut x: u64 = 0x9e37_79b9_7f4a_7c15;
    for _ in 0..2000 {
        x ^= x << 13;
        x ^= x >> 7;
        x ^= x << 17;
        list.push(f64::from_bits(x));
        list.push((x % 100_000) as f64 / 1000.0);
    }
    list
}

#[test]
fn two_places_agree_with_format() {
    for v in samples() {
        assert_eq!(score(v).to_two_places(), format!("{v:.2}"), "{v:e}");
    }
}

#[test]
fn order_agrees_with_floats() {
    let list = samples();
    for a in list.iter().take(60) {
        for b in list.iter().take(60) {
            assert_eq!(score(*a).less_than(&score(*b)), a < b, "{a} {b}");
        }
    }
    for w in list.windows(2) {
        assert_eq!(score(w[0]).less_than(&score(w[1])), w[0] < w[1]);
    }
}

#[test]
fn the_unit_interval_agrees_with_floats() {
    for v in samples() {
        assert_eq!(score(v).is_confidence(), (0.0..=1.0).contains(&v), "{v}");
    }
}
