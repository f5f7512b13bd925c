use monte_pi::coordinator::{ConfigError, PiEstimate, SampleConfig, run_sampler, total_in_circle};
use monte_pi::point::{ceil_sqrt, Point, UNIT};
use monte_pi::sampler::{count_in_circle, monte_carlo_fast, monte_carlo_slow, sample_in_circle};
use monte_pi::source::{PointSource, RandomPoints, ScriptedPoints};

/// 1000 points of which exactly 785 lie inside the quarter circle.
fn points_785_of_1000() -> Vec<Point> {
    let mut pts = Vec::new();
    for i in 0..1000u64 {
        let p = if i < 785 {
            // on or well inside the circle
            let x = (i * (UNIT / 1000)) / 2;
            Point::new(x, x / 3).unwrap()
        } else {
            Point::new(UNIT - 1 - i, UNIT - 1 - 2 * i).unwrap()
        };
        pts.push(p);
    }
    pts
}

fn value_of(e: &PiEstimate) -> f64 {
    4.0 * (e.in_circle() as f64) / (e.total_samples() as f64)
}

#[test]
fn point_new_rejects_outside_square() {
    assert!(Point::new(0, 0).is_some());
    assert!(Point::new(UNIT - 1, UNIT - 1).is_some());
    assert!(Point::new(UNIT, 0).is_none());
    assert!(Point::new(0, UNIT).is_none());
}

#[test]
fn squared_distance_is_exact() {
    let p = Point::new(3, 4).unwrap();
    assert_eq!(p.squared_distance(), 25);
    let q = Point::new(UNIT - 1, UNIT - 1).unwrap();
    let m = (UNIT - 1) as u128;
    assert_eq!(q.squared_distance(), 2 * m * m);
}

#[test]
fn ceil_sqrt_rounds_up() {
    assert_eq!(ceil_sqrt(0), 0);
    assert_eq!(ceil_sqrt(1), 1);
    assert_eq!(ceil_sqrt(2), 2);
    assert_eq!(ceil_sqrt(16), 4);
    assert_eq!(ceil_sqrt(17), 5);
    let u = UNIT as u128;
    assert_eq!(ceil_sqrt(u * u), UNIT);
    assert_eq!(ceil_sqrt(u * u + 1), UNIT + 1);
}

#[test]
fn in_circle_boundary() {
    // (1, 0) is not in the square; the nearest points on the axes are inside
    let on_axis = Point::new(UNIT - 1, 0).unwrap();
    assert!(on_axis.in_circle_fast());
    assert!(on_axis.in_circle_slow());
    // 0.6^2 + 0.8^2 == 1 exactly when the scale is a multiple of 5
    let five = UNIT / 5 * 5;
    let on_circle = Point::new(five / 5 * 3, five / 5 * 4).unwrap();
    let d = on_circle.squared_distance();
    let f = five as u128;
    assert_eq!(d, f * f);
    assert!(on_circle.in_circle_fast());
    assert!(on_circle.in_circle_slow());
    let corner = Point::new(UNIT - 1, UNIT - 1).unwrap();
    assert!(!corner.in_circle_fast());
    assert!(!corner.in_circle_slow());
    // just outside the circle: x = 1 - tiny, y large
    let out = Point::new(UNIT - 1, UNIT / 1000).unwrap();
    assert!(!out.in_circle_fast());
    assert!(!out.in_circle_slow());
}

#[test]
fn fast_and_slow_counts_agree_on_fixed_points() {
    let pts = points_785_of_1000();
    for p in pts.iter() {
        assert_eq!(p.in_circle_fast(), p.in_circle_slow());
    }
    let mut fast = ScriptedPoints::new(pts.clone()).unwrap();
    let mut slow = ScriptedPoints::new(pts).unwrap();
    let a = count_in_circle(&mut fast, 1000, true);
    let b = count_in_circle(&mut slow, 1000, false);
    assert_eq!(a, 785);
    assert_eq!(a, b);
}

#[test]
fn scripted_points_repeat_in_order() {
    let a = Point::new(1, 2).unwrap();
    let b = Point::new(3, 4).unwrap();
    let mut s = ScriptedPoints::new(vec![a, b]).unwrap();
    assert_eq!(s.next_point(), a);
    assert_eq!(s.next_point(), b);
    assert_eq!(s.next_point(), a);
}

#[test]
fn scripted_points_reject_bad_lists() {
    assert!(ScriptedPoints::new(Vec::new()).is_none());
    let good = Point::new(1, 2).unwrap();
    let bad = Point { x: UNIT, y: 0 };
    assert!(ScriptedPoints::new(vec![good, bad]).is_none());
}

#[test]
fn four_threads_of_785_give_3_14() {
    let config = SampleConfig::new(1000, 4, true).unwrap();
    let mut partials = Vec::new();
    for _ in 0..4 {
        let mut source = ScriptedPoints::new(points_785_of_1000()).unwrap();
        partials.push(count_in_circle(&mut source, config.samples_per_thread(), config.use_fast_distance()));
    }
    assert_eq!(total_in_circle(&config, &partials), 3140);
    let e = PiEstimate::from_partials(&config, &partials);
    assert_eq!(e.in_circle(), 3140);
    assert_eq!(e.total_samples(), 4000);
    assert_eq!(e.numerator(), 12560);
    assert_eq!(e.denominator(), 4000);
    assert_eq!(value_of(&e), 3.14);
}

#[test]
fn join_order_does_not_change_total() {
    let config = SampleConfig::new(10, 4, false).unwrap();
    let a = vec![1u64, 7, 10, 0];
    let b = vec![10u64, 0, 1, 7];
    assert_eq!(total_in_circle(&config, &a), 18);
    assert_eq!(total_in_circle(&config, &b), 18);
    let ea = PiEstimate::from_partials(&config, &a);
    let eb = PiEstimate::from_partials(&config, &b);
    assert_eq!(ea.numerator(), eb.numerator());
    assert_eq!(ea.denominator(), eb.denominator());
}

#[test]
fn estimate_bounds_at_extremes() {
    let config = SampleConfig::new(5, 2, true).unwrap();
    let none = PiEstimate::from_partials(&config, &vec![0, 0]);
    assert_eq!(value_of(&none), 0.0);
    let all = PiEstimate::from_partials(&config, &vec![5, 5]);
    assert_eq!(all.numerator(), 40);
    assert_eq!(value_of(&all), 4.0);
}

#[test]
fn config_rejects_zero_samples() {
    assert_eq!(SampleConfig::new(0, 1, true).err(), Some(ConfigError::NoSamples));
}

#[test]
fn config_rejects_zero_threads() {
    assert_eq!(SampleConfig::new(1000, 0, false).err(), Some(ConfigError::NoThreads));
    assert_eq!(SampleConfig::new(0, 0, false).err(), Some(ConfigError::NoThreads));
}

#[test]
fn config_rejects_total_over_u64() {
    assert_eq!(SampleConfig::new(u64::MAX, 2, false).err(), Some(ConfigError::TooManySamples));
    let c = SampleConfig::new(u64::MAX / 2, 2, false).unwrap();
    assert_eq!(c.total_samples(), u64::MAX - 1);
}

#[test]
fn config_keeps_its_values() {
    let c = SampleConfig::new(10_000, 8, true).unwrap();
    assert_eq!(c.samples_per_thread(), 10_000);
    assert_eq!(c.thread_count(), 8);
    assert!(c.use_fast_distance());
    assert_eq!(c.total_samples(), 80_000);
    assert!(c.is_valid());
}

#[test]
fn random_points_lie_in_the_square() {
    let mut src = RandomPoints::new();
    let mut distinct = false;
    let first = src.next_point();
    for _ in 0..1000 {
        let p = src.next_point();
        assert!(p.x < UNIT && p.y < UNIT);
        if p != first {
            distinct = true;
        }
    }
    assert!(distinct);
}

#[test]
fn random_counts_stay_within_samples() {
    for &fast in [true, false].iter() {
        let c = sample_in_circle(500, fast);
        assert!(c <= 500);
        // about 393 expected; far from both ends
        assert!(c > 300 && c < 480);
    }
    assert_eq!(monte_carlo_fast(0), 0);
    assert_eq!(monte_carlo_slow(0), 0);
    assert!(monte_carlo_fast(100) <= 100);
    assert!(monte_carlo_slow(100) <= 100);
}

#[test]
fn run_sampler_uses_config() {
    let c = SampleConfig::new(200, 3, true).unwrap();
    let n = run_sampler(&c);
    assert!(n <= 200);
}

#[test]
fn large_sample_estimate_is_near_pi() {
    let config = SampleConfig::new(500_000, 2, true).unwrap();
    let partials = vec![run_sampler(&config), run_sampler(&config)];
    let e = PiEstimate::from_partials(&config, &partials);
    let value = value_of(&e);
    assert!((value - std::f64::consts::PI).abs() < 0.01);
}
