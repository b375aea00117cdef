use decimal_digits::{FloatDigits, FloatParts};

/// Reads a float as the library takes it: whether it is finite, and the
/// decimal text of the absolute values of its whole and fractional parts.
fn parts_of(f: f64) -> FloatParts {
    FloatParts {
        finite: f.is_finite(),
        whole: f.trunc().abs().to_string(),
        fraction: f.fract().abs().to_string(),
    }
}

#[test]
fn left_of_dot_of_3_14() {
    assert_eq!(&*parts_of(3.14).digits_left_of_dot(), &[3]);
}

#[test]
fn right_of_dot_of_3_14() {
    let right = parts_of(3.14).digits_right_of_dot();
    assert_eq!(&right[..2], &[1, 4]);
    let text = (3.14f64).fract().to_string();
    let expected: Vec<u8> = text[2..].chars().map(|c| c.to_digit(10).unwrap() as u8).collect();
    assert_eq!(&*right, expected.as_slice());
}

#[test]
fn left_of_dot_of_infinity_is_empty() {
    assert!(parts_of(f64::INFINITY).digits_left_of_dot().is_empty());
}

#[test]
fn non_finite_numbers_have_no_digits() {
    for f in [f64::INFINITY, f64::NEG_INFINITY, f64::NAN] {
        let parts = parts_of(f);
        assert!(parts.digits_left_of_dot().is_empty());
        assert!(parts.digits_right_of_dot().is_empty());
        let [left, right] = parts.digits_left_then_right_of_dot();
        assert!(left.is_empty());
        assert!(right.is_empty());
    }
}

#[test]
fn non_finite_parts_have_no_digits_whatever_the_text() {
    let parts = FloatParts {
        finite: false,
        whole: String::from("12"),
        fraction: String::from("0.34"),
    };
    assert!(parts.digits_left_of_dot().is_empty());
    assert!(parts.digits_right_of_dot().is_empty());
}

#[test]
fn exact_fractions() {
    let parts = parts_of(2.25);
    assert_eq!(&*parts.digits_left_of_dot(), &[2]);
    assert_eq!(&*parts.digits_right_of_dot(), &[2, 5]);
    let parts = parts_of(1024.5);
    assert_eq!(&*parts.digits_left_of_dot(), &[1, 0, 2, 4]);
    assert_eq!(&*parts.digits_right_of_dot(), &[5]);
    let parts = parts_of(0.0078125);
    assert_eq!(&*parts.digits_left_of_dot(), &[0]);
    assert_eq!(&*parts.digits_right_of_dot(), &[0, 0, 7, 8, 1, 2, 5]);
}

#[test]
fn the_sign_is_left_out() {
    let parts = parts_of(-2.25);
    assert_eq!(&*parts.digits_left_of_dot(), &[2]);
    assert_eq!(&*parts.digits_right_of_dot(), &[2, 5]);
    let parts = parts_of(-0.0);
    assert_eq!(&*parts.digits_left_of_dot(), &[0]);
    assert_eq!(&*parts.digits_right_of_dot(), &[0]);
}

#[test]
fn whole_numbers_have_the_fraction_zero() {
    let parts = parts_of(7.0);
    assert_eq!(&*parts.digits_left_of_dot(), &[7]);
    assert_eq!(&*parts.digits_right_of_dot(), &[0]);
    let parts = parts_of(0.0);
    assert_eq!(&*parts.digits_left_of_dot(), &[0]);
    assert_eq!(&*parts.digits_right_of_dot(), &[0]);
}

#[test]
fn large_numbers_are_written_out_in_full() {
    let parts = parts_of(1e21);
    let left = parts.digits_left_of_dot();
    assert_eq!(left.len(), 22);
    assert_eq!(left[0], 1);
    assert!(left[1..].iter().all(|d| *d == 0));
    assert_eq!(parts_of(f64::MAX).digits_left_of_dot().len(), 309);
}

#[test]
fn small_numbers_are_written_out_in_full() {
    let right = parts_of(1e-7).digits_right_of_dot();
    assert_eq!(&*right, &[0, 0, 0, 0, 0, 0, 1]);
}

#[test]
fn left_then_right_come_in_that_order() {
    let parts = parts_of(12.5);
    let both = parts.digits_left_then_right_of_dot();
    assert_eq!(&*both[0], &[1, 2]);
    assert_eq!(&*both[1], &[5]);
    assert_eq!(both[0], parts.digits_left_of_dot());
    assert_eq!(both[1], parts.digits_right_of_dot());
}

#[test]
fn parts_written_by_hand() {
    let parts = FloatParts {
        finite: true,
        whole: String::from("3"),
        fraction: String::from("0.14"),
    };
    assert_eq!(&*parts.digits_left_of_dot(), &[3]);
    assert_eq!(&*parts.digits_right_of_dot(), &[1, 4]);
}

#[test]
fn digits_rebuild_the_two_parts() {
    for f in [3.14f64, 0.5, 123456.789, 2.0f64.powi(40) + 0.25, -17.125] {
        let parts = parts_of(f);
        let mut whole = 0.0f64;
        for d in parts.digits_left_of_dot().iter() {
            whole = whole * 10.0 + *d as f64;
        }
        assert_eq!(whole, f.trunc().abs());
        let mut text = String::from("0.");
        for d in parts.digits_right_of_dot().iter() {
            text.push(char::from(b'0' + *d));
        }
        assert_eq!(text.parse::<f64>().unwrap(), f.fract().abs());
    }
}
