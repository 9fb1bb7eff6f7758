use mandelbrot::{Complex, Fixed, Mandelbrot};

fn fx(x: f64) -> Fixed {
    Fixed { bits: (x * 4294967296.0).floor() as i64 }
}

fn point(r: f64, i: f64) -> Complex {
    Complex::new(fx(r), fx(i))
}

#[test]
fn origin_uses_whole_budget() {
    for budget in [0u32, 1, 2, 17, 1000] {
        assert_eq!(Mandelbrot::calc_mandelbrot(&point(0.0, 0.0), budget), budget);
    }
}

#[test]
fn two_escapes_after_first_step() {
    for budget in [1u32, 2, 50, 1000] {
        assert_eq!(Mandelbrot::calc_mandelbrot(&point(2.0, 0.0), budget), 1);
    }
}

#[test]
fn minus_one_uses_whole_budget() {
    for budget in [0u32, 1, 2, 3, 100, 1001] {
        assert_eq!(Mandelbrot::calc_mandelbrot(&point(-1.0, 0.0), budget), budget);
    }
}

#[test]
fn budget_of_zero_counts_nothing() {
    assert_eq!(Mandelbrot::calc_mandelbrot(&point(2.0, 0.0), 0), 0);
    assert_eq!(Mandelbrot::calc_mandelbrot(&point(0.3, 0.5), 0), 0);
    assert_eq!(Mandelbrot::calc_mandelbrot(&point(100.0, -100.0), 0), 0);
}

#[test]
fn known_counts() {
    assert_eq!(Mandelbrot::calc_mandelbrot(&point(0.5, 0.5), 1000), 5);
    assert_eq!(Mandelbrot::calc_mandelbrot(&point(-0.75, 0.1), 1000), 33);
    assert_eq!(Mandelbrot::calc_mandelbrot(&point(1.0, 1.0), 1000), 2);
    assert_eq!(Mandelbrot::calc_mandelbrot(&point(-2.0, 0.0), 1000), 1);
    assert_eq!(Mandelbrot::calc_mandelbrot(&point(-0.1, 0.65), 1000), 75);
    assert_eq!(Mandelbrot::calc_mandelbrot(&point(-0.7463, 0.1102), 1000), 83);
}

#[test]
fn points_of_the_set_use_whole_budget() {
    assert_eq!(Mandelbrot::calc_mandelbrot(&point(0.25, 0.0), 1000), 1000);
    assert_eq!(Mandelbrot::calc_mandelbrot(&point(0.3, 0.5), 1000), 1000);
}

#[test]
fn count_is_capped_by_budget() {
    assert_eq!(Mandelbrot::calc_mandelbrot(&point(-0.75, 0.1), 33), 33);
    assert_eq!(Mandelbrot::calc_mandelbrot(&point(-0.75, 0.1), 32), 32);
    assert_eq!(Mandelbrot::calc_mandelbrot(&point(-0.75, 0.1), 34), 33);
}

#[test]
fn count_never_exceeds_budget() {
    let mut r: i64 = -3 * 4294967296;
    while r <= 3 * 4294967296 {
        let mut i: i64 = -3 * 4294967296;
        while i <= 3 * 4294967296 {
            let c = Complex::new(Fixed { bits: r }, Fixed { bits: i });
            for budget in [0u32, 1, 7, 40] {
                assert!(Mandelbrot::calc_mandelbrot(&c, budget) <= budget);
            }
            i += 1_000_000_007;
        }
        r += 1_000_000_007;
    }
}

#[test]
fn extreme_points_escape_at_once() {
    let far = Complex::new(Fixed { bits: i64::MAX }, Fixed { bits: i64::MIN });
    assert_eq!(Mandelbrot::calc_mandelbrot(&far, 10), 1);
    let low = Complex::new(Fixed { bits: i64::MIN }, Fixed { bits: i64::MAX });
    assert_eq!(Mandelbrot::calc_mandelbrot(&low, 10), 1);
}

#[test]
fn mirror_image_has_the_same_count() {
    let up = Complex::new(Fixed { bits: 2423746560 }, Fixed { bits: 4035400370 });
    let down = Complex::new(Fixed { bits: 2423746560 }, Fixed { bits: -4035400370 });
    assert_eq!(Mandelbrot::calc_mandelbrot(&up, 3), 3);
    assert_eq!(Mandelbrot::calc_mandelbrot(&down, 3), 3);
    for (r, i) in [(0.5, 0.5), (-0.75, 0.1), (-0.1, 0.65), (0.3, 0.6), (-0.7463, 0.1102)] {
        let c = point(r, i);
        let mirror = Complex::new(c.r, Fixed { bits: -c.i.bits });
        assert_eq!(
            Mandelbrot::calc_mandelbrot(&c, 200),
            Mandelbrot::calc_mandelbrot(&mirror, 200)
        );
    }
}

#[test]
fn counts_are_symmetric_over_a_grid() {
    let mut r: i64 = -9_000_000_000;
    while r <= 5_000_000_000 {
        let mut i: i64 = 1;
        while i <= 6_000_000_000 {
            let up = Complex::new(Fixed { bits: r }, Fixed { bits: i });
            let down = Complex::new(Fixed { bits: r }, Fixed { bits: -i });
            assert_eq!(
                Mandelbrot::calc_mandelbrot(&up, 60),
                Mandelbrot::calc_mandelbrot(&down, 60)
            );
            i += 333_333_337;
        }
        r += 333_333_337;
    }
}
