use patchcert::interval::{Interval, IntervalSign, Scalar, Square};
use patchcert::rational::Rational;
use patchcert::Error;

fn rat(n: i64, d: i64) -> Rational {
    Rational::from_frac(n, d)
}

#[test]
fn test_add() {
    assert_eq!(Interval::new(0, 4).add(Interval::new(1, 10)), Interval::new(1, 14));
}

#[test]
fn test_mul1() {
    assert_eq!(Interval::new(-3, 4).mul(Interval::new(-100, 10)), Interval::new(-400, 300));
}

#[test]
fn test_mul2() {
    assert_eq!(Interval::new(3, 4).mul(Interval::new(-100, 10)), Interval::new(-400, 40));
}

#[test]
fn test_mul3() {
    assert_eq!(Interval::new(-4, 3).mul(Interval::new(-100, 10)), Interval::new(-300, 400));
}

#[test]
fn test_mul4() {
    assert_eq!(Interval::new(-4, -3).mul(Interval::new(-100, 10)), Interval::new(-40, 400));
}

#[test]
fn test_square1() {
    assert_eq!((Interval::new(-1, -8)).square(), Interval::new(1, 64));
}

#[test]
fn test_square2() {
    assert_eq!((Interval::new(-1, 8)).square(), Interval::new(0, 64));
}

#[test]
fn test_square3() {
    assert_eq!((Interval::new(1, 8)).square(), Interval::new(1, 64));
}

// Calling .square() sometimes yields a tighter interval than
// simply self-multiplying
#[test]
fn test_square4() {
    let iv = Interval::new(1, -8);
    assert_eq!(iv.square(), Interval::new(0, 64));
    assert_eq!(iv.mul(iv), Interval::new(-8, 64));
}

#[test]
fn test_rational() {
    let half = Interval::new(rat(1, 4), rat(3, 4));
    let three_halves = Interval::new(rat(5, 4), rat(7, 4));
    assert_eq!(half.add(&three_halves), Interval::new(rat(3, 2), rat(5, 2)));
}

#[test]
fn test_positive() {
    assert_eq!(Interval::new(-3, 4).is_positive(), false);
    assert_eq!(Interval::new(0, 4).is_positive(), false);
    assert_eq!(Interval::new(1, 4).is_positive(), true);

    assert_eq!(Interval::new(-3, -1).is_negative(), true);
    assert_eq!(Interval::new(-3, 0).is_negative(), false);
    assert_eq!(Interval::new(-3, 4).is_negative(), false);
    assert_eq!(Interval::new(0, 4).is_negative(), false);
    assert_eq!(Interval::new(1, 4).is_negative(), false);

    let half = Interval::new(rat(1, 4), rat(3, 4));
    let three_halves = Interval::new(rat(5, 4), rat(7, 4));
    let rat_iv = half.add(&three_halves);
    assert_eq!(rat_iv.is_positive(), true);
}

#[test]
fn test_rational_interval_add_exact() {
    // the bounds of a sum are exactly the sums of the bounds
    let a = Interval::new(rat(-1, 3), rat(1, 2));
    let b = Interval::new(rat(1, 6), rat(5, 3));
    let s = a.add(&b);
    assert_eq!(s, Interval::new(rat(-1, 6), rat(13, 6)));
}

#[test]
fn test_rational_interval_mul_sound() {
    // sample a grid of products; each must lie within the result's bounds
    let a = Interval::new(rat(-3, 2), rat(4, 3));
    let b = Interval::new(rat(-5, 6), rat(7, 4));
    let p = a.mul(&b);
    let mut step_x: i64 = 0;
    while step_x <= 17 {
        let mut step_y: i64 = 0;
        while step_y <= 31 {
            // x walks from -3/2 to 4/3, y from -5/6 to 7/4
            let x = rat(-3, 2).add(&rat(step_x, 6));
            let y = rat(-5, 6).add(&rat(step_y, 12));
            if x.le(&rat(4, 3)) && y.le(&rat(7, 4)) {
                let xy = x.mul(&y);
                assert!(p.min.le(&xy));
                assert!(xy.le(&p.max));
            }
            step_y += 1;
        }
        step_x += 1;
    }
}

#[test]
fn test_rational_square_tighter_than_mul() {
    let iv = Interval::new(rat(1, 1), rat(-8, 1));
    let sq = Interval::new(rat(1, 1), rat(-8, 1)).square();
    let mm = iv.mul(&Interval::new(rat(1, 1), rat(-8, 1)));
    assert!(sq.min.eq_val(&rat(0, 1)));
    assert!(sq.max.eq_val(&rat(64, 1)));
    assert!(mm.min.eq_val(&rat(-8, 1)));
    assert!(mm.max.eq_val(&rat(64, 1)));
    // the square stays within the self-product
    assert!(mm.min.le(&sq.min));
    assert!(sq.max.le(&mm.max));
}

#[test]
fn test_rational_square_same_sign_matches_mul() {
    let sq = Interval::new(rat(2, 3), rat(5, 2)).square();
    let mm = Interval::new(rat(2, 3), rat(5, 2)).mul(&Interval::new(rat(2, 3), rat(5, 2)));
    assert_eq!(sq, mm);
}

#[test]
fn test_recip_ok() {
    let iv = Interval::new(rat(2, 1), rat(4, 1));
    let r = iv.recip().unwrap();
    assert_eq!(r, Interval::new(rat(1, 4), rat(1, 2)));

    let neg = Interval::new(rat(-4, 1), rat(-2, 1));
    let rn = neg.recip().unwrap();
    assert_eq!(rn, Interval::new(rat(-1, 2), rat(-1, 4)));
}

#[test]
fn test_recip_divide_by_zero() {
    let straddle = Interval::new(rat(-1, 2), rat(3, 1));
    assert_eq!(straddle.recip().unwrap_err(), Error::DivideByZero);

    let touches_zero = Interval::new(rat(0, 1), rat(3, 1));
    assert_eq!(touches_zero.recip().unwrap_err(), Error::DivideByZero);
}

#[test]
fn test_rational_arithmetic_exact() {
    // exercises the external arithmetic: wrong results would slip past
    // nothing, every value is checked exactly
    let a = rat(1, 2);
    let b = rat(1, 3);
    assert!(a.dup().eq_val(&a));
    assert!(a.add(&b).eq_val(&rat(5, 6)));
    assert!(a.sub(&b).eq_val(&rat(1, 6)));
    assert!(a.mul(&b).eq_val(&rat(1, 6)));
    assert!(a.neg().eq_val(&rat(-1, 2)));
    assert!(a.recip().eq_val(&rat(2, 1)));
    assert!(rat(-3, -6).eq_val(&rat(1, 2)));
    assert!(a.lt(&rat(2, 3)));
    assert!(!a.lt(&rat(1, 2)));
    assert!(rat(7, 3).is_pos());
    assert!(rat(-7, 3).is_neg());
    assert!(rat(0, 5).is_zero());
}
