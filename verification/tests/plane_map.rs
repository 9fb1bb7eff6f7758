use mandelbrot::{Complex, Fixed, Mandelbrot, RenderError, Vec2d, SCALE};

fn fx(x: f64) -> Fixed {
    Fixed { bits: (x * 4294967296.0).floor() as i64 }
}

fn region() -> Mandelbrot {
    Mandelbrot::new(Complex::new(fx(-2.0), fx(-1.0)), Complex::new(fx(1.0), fx(1.0)))
}

fn whole(x: i32, y: i32) -> Vec2d {
    Vec2d::new(Fixed::from_int(x), Fixed::from_int(y))
}

#[test]
fn from_int_scales_by_one() {
    assert_eq!(Fixed::from_int(0).bits, 0);
    assert_eq!(Fixed::from_int(1).bits, SCALE);
    assert_eq!(Fixed::from_int(-3).bits, -3 * SCALE);
    assert_eq!(Fixed::from_int(i32::MAX).bits, 2147483647 * SCALE);
    assert_eq!(Fixed::from_int(i32::MIN).bits, -2147483648 * SCALE);
}

#[test]
fn constructors_keep_their_arguments() {
    let c = Complex::new(fx(0.5), fx(-0.25));
    assert_eq!(c.r, fx(0.5));
    assert_eq!(c.i, fx(-0.25));
    let v = Vec2d::new(fx(3.0), fx(4.5));
    assert_eq!(v.x, fx(3.0));
    assert_eq!(v.y, fx(4.5));
    let m = Mandelbrot::new(c, Complex::new(fx(1.0), fx(2.0)));
    assert_eq!(m.min, c);
    assert_eq!(m.max, Complex::new(fx(1.0), fx(2.0)));
}

#[test]
fn first_cell_maps_to_min() {
    let size = whole(800, 600);
    let c = Complex::calc_complex(&region(), &whole(0, 0), &size);
    assert_eq!(c, Ok(Complex::new(fx(-2.0), fx(-1.0))));
}

#[test]
fn far_corner_maps_to_max() {
    let size = whole(800, 600);
    let c = Complex::calc_complex(&region(), &size, &size);
    assert_eq!(c, Ok(Complex::new(fx(1.0), fx(1.0))));
    let odd = Vec2d::new(fx(7.3), fx(0.001));
    let c = Complex::calc_complex(&region(), &odd, &odd);
    assert_eq!(c, Ok(Complex::new(fx(1.0), fx(1.0))));
}

#[test]
fn middle_of_grid_maps_to_middle_of_region() {
    let c = Complex::calc_complex(&region(), &whole(2, 3), &whole(4, 6));
    assert_eq!(c, Ok(Complex::new(fx(-0.5), fx(0.0))));
}

#[test]
fn quarter_of_grid() {
    let c = Complex::calc_complex(&region(), &whole(1, 2), &whole(4, 3)).unwrap();
    assert_eq!(c.r.bits, -5368709120);
    assert_eq!(c.i.bits, 1431655764);
}

#[test]
fn fraction_is_rounded_down_before_the_span() {
    // one third of a span of three is just below one
    let c = Complex::calc_complex(&region(), &whole(1, 0), &whole(3, 1)).unwrap();
    assert_eq!(c.r.bits, -4294967297);
    assert_eq!(c.i, fx(-1.0));
}

#[test]
fn inverted_region_is_mirrored() {
    let inverted =
        Mandelbrot::new(Complex::new(fx(1.0), fx(1.0)), Complex::new(fx(-2.0), fx(-1.0)));
    let size = whole(4, 4);
    assert_eq!(
        Complex::calc_complex(&inverted, &whole(0, 0), &size),
        Ok(Complex::new(fx(1.0), fx(1.0)))
    );
    assert_eq!(
        Complex::calc_complex(&inverted, &size, &size),
        Ok(Complex::new(fx(-2.0), fx(-1.0)))
    );
    assert_eq!(
        Complex::calc_complex(&inverted, &whole(2, 2), &size),
        Ok(Complex::new(fx(-0.5), fx(0.0)))
    );
}

#[test]
fn widest_region_does_not_overflow() {
    let widest = Mandelbrot::new(
        Complex::new(Fixed { bits: i64::MIN }, Fixed { bits: i64::MAX }),
        Complex::new(Fixed { bits: i64::MAX }, Fixed { bits: i64::MIN }),
    );
    let size = whole(2, 2);
    assert_eq!(
        Complex::calc_complex(&widest, &size, &size),
        Ok(Complex::new(Fixed { bits: i64::MAX }, Fixed { bits: i64::MIN }))
    );
    assert_eq!(
        Complex::calc_complex(&widest, &whole(1, 1), &size),
        Ok(Complex::new(Fixed { bits: -1 }, Fixed { bits: -1 }))
    );
}

#[test]
fn negative_size_runs_the_other_way() {
    let r = region();
    let size = whole(-4, -3);
    assert_eq!(
        Complex::calc_complex(&r, &whole(0, 0), &size),
        Ok(Complex::new(fx(-2.0), fx(-1.0)))
    );
    assert_eq!(Complex::calc_complex(&r, &size, &size), Ok(Complex::new(fx(1.0), fx(1.0))));
    let c = Complex::calc_complex(&r, &whole(-1, -2), &size).unwrap();
    assert_eq!(c.r.bits, -5368709120);
    assert_eq!(c.i.bits, 1431655764);
    let mixed = whole(4, -3);
    assert_eq!(Complex::calc_complex(&r, &mixed, &mixed), Ok(Complex::new(fx(1.0), fx(1.0))));
    let least = Vec2d::new(Fixed { bits: i64::MIN }, Fixed { bits: i64::MIN });
    assert_eq!(Complex::calc_complex(&r, &least, &least), Ok(Complex::new(fx(1.0), fx(1.0))));
}

#[test]
fn side_of_zero_is_refused() {
    let r = region();
    assert_eq!(
        Complex::calc_complex(&r, &whole(0, 0), &whole(0, 5)),
        Err(RenderError::EmptyExtent)
    );
    assert_eq!(
        Complex::calc_complex(&r, &whole(0, 0), &whole(5, 0)),
        Err(RenderError::EmptyExtent)
    );
    assert_eq!(
        Complex::calc_complex(&r, &whole(0, 0), &whole(0, 0)),
        Err(RenderError::EmptyExtent)
    );
    // a side of zero is reported before a position off the grid
    assert_eq!(
        Complex::calc_complex(&r, &whole(9, 9), &whole(0, 0)),
        Err(RenderError::EmptyExtent)
    );
}

#[test]
fn position_outside_extent_is_refused() {
    let r = region();
    let size = whole(4, 4);
    assert_eq!(Complex::calc_complex(&r, &whole(5, 0), &size), Err(RenderError::OutsideExtent));
    assert_eq!(Complex::calc_complex(&r, &whole(0, 5), &size), Err(RenderError::OutsideExtent));
    assert_eq!(Complex::calc_complex(&r, &whole(-1, 0), &size), Err(RenderError::OutsideExtent));
    assert_eq!(Complex::calc_complex(&r, &whole(0, -1), &size), Err(RenderError::OutsideExtent));
    let just_outside = Vec2d::new(Fixed { bits: 4 * SCALE + 1 }, Fixed { bits: 0 });
    assert_eq!(Complex::calc_complex(&r, &just_outside, &size), Err(RenderError::OutsideExtent));
    let back = whole(-4, -4);
    assert_eq!(Complex::calc_complex(&r, &whole(1, 0), &back), Err(RenderError::OutsideExtent));
    assert_eq!(Complex::calc_complex(&r, &whole(0, -5), &back), Err(RenderError::OutsideExtent));
}
