use patchcert::env::{is_positive_face, Env};
use patchcert::geom::{rotate_vertices, Point3d, Quat};
use patchcert::interval::Interval;
use patchcert::rational::{check_dec_int, Rational};
use patchcert::search::{classify, quat_in_in_patch, search, Classification, State};
use patchcert::wire::{rational_to_wire, wire_to_rational, WireRational};
use patchcert::Error;

fn rat(n: i64, d: i64) -> Rational {
    Rational::from_frac(n, d)
}

fn expect_env_err(r: Result<Env, Error>) -> Error {
    match r {
        Ok(_) => panic!("expected the environment to be rejected"),
        Err(e) => e,
    }
}

fn point(x: i64, y: i64, z: i64) -> Point3d<Rational> {
    Point3d { x: Rational::from_int(x), y: Rational::from_int(y), z: Rational::from_int(z) }
}

fn identity_quat() -> Quat<Rational> {
    Quat {
        r: Rational::from_int(1),
        a: Rational::from_int(0),
        b: Rational::from_int(0),
        c: Rational::from_int(0),
    }
}

/// A tetrahedron whose face 0 is the only one positively oriented under the
/// identity rotation.
fn tetrahedron() -> (Vec<Point3d<Rational>>, Vec<Vec<usize>>) {
    let vertices = vec![point(0, 0, 0), point(1, 0, 0), point(0, 1, 0), point(0, 0, 1)];
    let faces = vec![vec![0, 1, 2], vec![0, 3, 1], vec![1, 3, 2], vec![0, 2, 3]];
    (vertices, faces)
}

fn exact_iv(n: i64, d: i64) -> Interval<Rational> {
    Interval::<Rational>::exact(rat(n, d))
}

fn iv(lo_n: i64, lo_d: i64, hi_n: i64, hi_d: i64) -> Interval<Rational> {
    Interval::new(rat(lo_n, lo_d), rat(hi_n, hi_d))
}

fn exact_state(r: i64, a: i64, b: i64, c: i64) -> State {
    State::new(
        Point3d { x: exact_iv(a, 1), y: exact_iv(b, 1), z: exact_iv(c, 1) },
        Point3d { x: exact_iv(0, 1), y: exact_iv(0, 1), z: exact_iv(0, 1) },
        exact_iv(r, 1),
    )
}

#[test]
fn test_env_positive_faces() {
    let (vertices, faces) = tetrahedron();
    let env = Env::new(vertices, faces, identity_quat(), vec![1, 2, 3]).unwrap();
    assert_eq!(env.positive_faces, vec![0]);
}

#[test]
fn test_env_rejects_short_face() {
    let (vertices, _) = tetrahedron();
    let faces = vec![vec![0, 1]];
    let e = expect_env_err(Env::new(vertices, faces, identity_quat(), vec![]));
    assert_eq!(e, Error::MalformedPolyhedron);
}

#[test]
fn test_env_rejects_out_of_range_index() {
    let (vertices, _) = tetrahedron();
    let faces = vec![vec![0, 1, 9]];
    let e = expect_env_err(Env::new(vertices, faces, identity_quat(), vec![]));
    assert_eq!(e, Error::MalformedPolyhedron);
}

#[test]
fn test_env_rejects_collinear_face() {
    let (vertices, _) = tetrahedron();
    let faces = vec![vec![0, 1, 1]];
    let e = expect_env_err(Env::new(vertices, faces, identity_quat(), vec![]));
    assert_eq!(e, Error::MalformedPolyhedron);
}

#[test]
fn test_env_rejects_zero_rotation() {
    let (vertices, faces) = tetrahedron();
    let zero = Quat {
        r: Rational::from_int(0),
        a: Rational::from_int(0),
        b: Rational::from_int(0),
        c: Rational::from_int(0),
    };
    let e = expect_env_err(Env::new(vertices, faces, zero, vec![]));
    assert_eq!(e, Error::DivideByZero);
}

#[test]
fn test_is_positive_face_exact() {
    let face_vs = vec![point(0, 0, 0), point(1, 0, 0), point(0, 1, 0)];
    assert!(is_positive_face(&face_vs));
    let face_vs_flipped = vec![point(0, 0, 0), point(0, 1, 0), point(1, 0, 0)];
    assert!(!is_positive_face(&face_vs_flipped));
}

#[test]
fn test_rotation_exactness() {
    // rotating by an exact quaternion and by the degenerate interval lifted
    // from it produces identical point values
    let q = Quat { r: rat(10, 1), a: rat(99, 10), b: rat(11, 20), c: rat(2, 1) };
    let vs = vec![point(1, 2, 3), point(-4, 0, 7)];
    let exact_rotated = rotate_vertices(&q, &vs);

    let qi = Quat {
        r: Interval::<Rational>::exact(rat(10, 1)),
        a: Interval::<Rational>::exact(rat(99, 10)),
        b: Interval::<Rational>::exact(rat(11, 20)),
        c: Interval::<Rational>::exact(rat(2, 1)),
    };
    let vsi: Vec<Point3d<Interval<Rational>>> = vec![
        Point3d {
            x: Interval::<Rational>::exact(rat(1, 1)),
            y: Interval::<Rational>::exact(rat(2, 1)),
            z: Interval::<Rational>::exact(rat(3, 1)),
        },
        Point3d {
            x: Interval::<Rational>::exact(rat(-4, 1)),
            y: Interval::<Rational>::exact(rat(0, 1)),
            z: Interval::<Rational>::exact(rat(7, 1)),
        },
    ];
    let interval_rotated = rotate_vertices(&qi, &vsi);

    let mut k: usize = 0;
    while k < 2 {
        // the interval result is degenerate and equals the exact result
        assert!(interval_rotated[k].x.min.eq_val(&interval_rotated[k].x.max));
        assert!(interval_rotated[k].y.min.eq_val(&interval_rotated[k].y.max));
        assert!(interval_rotated[k].z.min.eq_val(&interval_rotated[k].z.max));
        assert!(interval_rotated[k].x.min.eq_val(&exact_rotated[k].x));
        assert!(interval_rotated[k].y.min.eq_val(&exact_rotated[k].y));
        assert!(interval_rotated[k].z.min.eq_val(&exact_rotated[k].z));
        k += 1;
    }
}

#[test]
fn test_classify_identity_inside() {
    let (vertices, faces) = tetrahedron();
    let env = Env::new(vertices, faces, identity_quat(), vec![]).unwrap();
    // the zero-width box holding exactly the identity rotation
    let s = exact_state(1, 0, 0, 0);
    assert_eq!(classify(&env, &s), Classification::CertifiedInside);
}

#[test]
fn test_classify_flip_outside() {
    let (vertices, faces) = tetrahedron();
    let env = Env::new(vertices, faces, identity_quat(), vec![]).unwrap();
    // the half-turn about the x-axis flips the patch face
    let s = exact_state(0, 1, 0, 0);
    assert_eq!(classify(&env, &s), Classification::CertifiedOutside);
}

#[test]
fn test_classify_monotone_under_subdivision() {
    let (vertices, faces) = tetrahedron();
    let env = Env::new(vertices, faces, identity_quat(), vec![]).unwrap();
    // a narrow box around the identity rotation
    let parent = State::new(
        Point3d {
            x: iv(-1, 100, 1, 100),
            y: iv(-1, 100, 1, 100),
            z: iv(-1, 100, 1, 100),
        },
        Point3d { x: exact_iv(0, 1), y: exact_iv(0, 1), z: exact_iv(0, 1) },
        exact_iv(1, 1),
    );
    assert_eq!(classify(&env, &parent), Classification::CertifiedInside);
    let (c1, c2) = parent.subdivide();
    assert_eq!(classify(&env, &c1), Classification::CertifiedInside);
    assert_eq!(classify(&env, &c2), Classification::CertifiedInside);
}

#[test]
fn test_search_splits_wide_box() {
    let (vertices, faces) = tetrahedron();
    let env = Env::new(vertices, faces, identity_quat(), vec![]).unwrap();
    // a box reaching from the identity toward the flipped rotation
    let root = State::new(
        Point3d { x: iv(0, 1, 3, 1), y: exact_iv(0, 1), z: exact_iv(0, 1) },
        Point3d { x: exact_iv(0, 1), y: exact_iv(0, 1), z: exact_iv(0, 1) },
        exact_iv(1, 1),
    );
    let floor = rat(1, 8);
    let outcome = search(&env, root, &floor, 12);
    // the search settles at least one region and never decides falsely:
    // every inside region re-classifies as inside, every outside region as
    // outside
    assert!(outcome.inside.len() + outcome.outside.len() + outcome.abandoned.len() > 1);
    for s in &outcome.inside {
        assert_eq!(classify(&env, s), Classification::CertifiedInside);
    }
    for s in &outcome.outside {
        assert_eq!(classify(&env, s), Classification::CertifiedOutside);
    }
    for s in &outcome.abandoned {
        assert_eq!(classify(&env, s), Classification::Indeterminate);
    }
}

#[test]
fn test_quat_in_in_patch() {
    let (vertices, faces) = tetrahedron();
    let env = Env::new(vertices, faces, identity_quat(), vec![]).unwrap();
    let identity_box = Quat {
        r: Interval::<Rational>::exact(rat(1, 1)),
        a: Interval::<Rational>::exact(rat(0, 1)),
        b: Interval::<Rational>::exact(rat(0, 1)),
        c: Interval::<Rational>::exact(rat(0, 1)),
    };
    assert!(quat_in_in_patch(&env, &identity_box));
    let flipped_box = Quat {
        r: Interval::<Rational>::exact(rat(0, 1)),
        a: Interval::<Rational>::exact(rat(1, 1)),
        b: Interval::<Rational>::exact(rat(0, 1)),
        c: Interval::<Rational>::exact(rat(0, 1)),
    };
    assert!(!quat_in_in_patch(&env, &flipped_box));
}

#[test]
fn test_proj_faces_exact() {
    let (vertices, faces) = tetrahedron();
    let env = Env::new(vertices, faces, identity_quat(), vec![]).unwrap();
    let proj = env.proj_faces_exact();
    assert_eq!(proj.len(), 4);
    let mut i: usize = 0;
    while i < 4 {
        assert_eq!(proj[i].len(), 3);
        i += 1;
    }
    // face 0 is (0,0,0), (1,0,0), (0,1,0) under the identity rotation:
    // dropping z leaves (0,0), (1,0), (0,1)
    assert!(proj[0][0].0.eq_val(&rat(0, 1)) && proj[0][0].1.eq_val(&rat(0, 1)));
    assert!(proj[0][1].0.eq_val(&rat(1, 1)) && proj[0][1].1.eq_val(&rat(0, 1)));
    assert!(proj[0][2].0.eq_val(&rat(0, 1)) && proj[0][2].1.eq_val(&rat(1, 1)));
}

#[test]
fn test_check_dec_int() {
    assert!(check_dec_int("0"));
    assert!(check_dec_int("-123"));
    assert!(check_dec_int("+40"));
    assert!(check_dec_int("007"));
    assert!(!check_dec_int(""));
    assert!(!check_dec_int("-"));
    assert!(!check_dec_int("1.5"));
    assert!(!check_dec_int("12a"));
    assert!(!check_dec_int(" 12"));
}

#[test]
fn test_decimal_strings() {
    let v = Rational::from_decimal_strs("6", "-8").unwrap();
    assert!(v.eq_val(&rat(-3, 4)));
    assert_eq!(
        Rational::from_decimal_strs("x", "1").unwrap_err(),
        Error::MalformedPolyhedron
    );
    assert_eq!(Rational::from_decimal_strs("1", "0").unwrap_err(), Error::DivideByZero);
}

#[test]
fn test_wire_round_trip() {
    let v = rat(6, -8);
    let w = rational_to_wire(&v);
    // canonical form: reduced, positive denominator
    assert_eq!(w.numerator, "-3");
    assert_eq!(w.denominator, "4");
    let back = wire_to_rational(&w).unwrap();
    assert!(back.eq_val(&v));

    let w2 = WireRational { numerator: String::from("10"), denominator: String::from("4") };
    let v2 = wire_to_rational(&w2).unwrap();
    assert!(v2.eq_val(&rat(5, 2)));
    let w3 = rational_to_wire(&v2);
    assert_eq!(w3.numerator, "5");
    assert_eq!(w3.denominator, "2");
}
