use kzg_core::commitment::{create_commitment, Polynomial};
use kzg_core::scalar::{self, Scalar};
use kzg_core::setup;

/// The compressed encoding of the G1 generator.
const GENERATOR_BYTES: [u8; 48] = [
    0x97, 0xf1, 0xd3, 0xa7, 0x31, 0x97, 0xd7, 0x94, 0x26, 0x95, 0x63, 0x8c, 0x4f, 0xa9, 0xac,
    0x0f, 0xc3, 0x68, 0x8c, 0x4f, 0x97, 0x74, 0xb9, 0x05, 0xa1, 0x4e, 0x3a, 0x3f, 0x17, 0x1b,
    0xac, 0x58, 0x6c, 0x55, 0xe8, 0x3f, 0xf9, 0x7a, 0x1a, 0xef, 0xfb, 0x3a, 0xf0, 0x0a, 0xdb,
    0x22, 0xc6, 0xbb,
];

fn scalars_of(ints: &[u64]) -> Vec<Scalar> {
    ints.iter().map(|&x| scalar::from_u64(x)).collect()
}

#[test]
fn it_works() {
    let secret = [0u8; 48];
    let coefficients: Vec<u64> = vec![1, 2, 3, 1, 1, 17, 32];
    let degree = coefficients.len();

    let setup = setup::generate(&secret, degree as u32);

    let polynomial = Polynomial::from_u64(coefficients).unwrap();

    let commitment = create_commitment(polynomial, &setup);
    // An all-zero secret reduces to the zero trapdoor: the basis is the
    // generator followed by identities, so the commitment is one times the
    // generator. Pin the exact encoding as a regression baseline.
    assert!(!commitment.is_identity());
    assert_eq!(commitment.to_bytes(), GENERATOR_BYTES.to_vec());
}

#[test]
fn commitment_is_deterministic() {
    let secret = [7u8; 48];
    let setup = setup::generate(&secret, 4);
    let first = Polynomial::from_u64(vec![4, 8, 15, 16, 23]).unwrap();
    let second = Polynomial::from_u64(vec![4, 8, 15, 16, 23]).unwrap();
    let ca = create_commitment(first, &setup);
    let cb = create_commitment(second, &setup);
    // Bitwise-identical outputs on identical inputs.
    assert_eq!(ca, cb);
    assert_eq!(ca.to_bytes(), cb.to_bytes());
}

#[test]
fn commitment_is_homomorphic() {
    let secret = [11u8; 48];
    let setup = setup::generate(&secret, 3);
    let a: Vec<u64> = vec![1, 2, 3];
    let b: Vec<u64> = vec![10, 20, 30];
    let sum: Vec<Scalar> = a
        .iter()
        .zip(b.iter())
        .map(|(&x, &y)| scalar::from_u64(x).add(&scalar::from_u64(y)))
        .collect();
    let ca = create_commitment(Polynomial::from_u64(a).unwrap(), &setup);
    let cb = create_commitment(Polynomial::from_u64(b).unwrap(), &setup);
    let csum = create_commitment(Polynomial::from_scalars(sum).unwrap(), &setup);
    assert!(csum.equals(&ca.add(&cb)));
}

#[test]
fn commitment_is_scalar_linear() {
    let secret = [13u8; 48];
    let setup = setup::generate(&secret, 2);
    let k = scalar::from_u64(5);
    let coefficients: Vec<u64> = vec![6, 7, 8];
    let scaled: Vec<Scalar> = coefficients
        .iter()
        .map(|&x| k.mul(&scalar::from_u64(x)))
        .collect();
    let c = create_commitment(Polynomial::from_u64(coefficients).unwrap(), &setup);
    let cscaled = create_commitment(Polynomial::from_scalars(scaled).unwrap(), &setup);
    assert!(cscaled.equals(&c.mul_scalar(&k)));
}

#[test]
fn commitment_truncates_at_basis_length() {
    let secret = [17u8; 48];
    // A basis of three elements against four coefficients: the cubic
    // coefficient is ignored.
    let setup = setup::generate(&secret, 2);
    let full = create_commitment(Polynomial::from_u64(vec![1, 2, 3, 4]).unwrap(), &setup);
    let cut = create_commitment(Polynomial::from_u64(vec![1, 2, 3]).unwrap(), &setup);
    assert!(full.equals(&cut));
    let other = create_commitment(Polynomial::from_u64(vec![1, 2, 4]).unwrap(), &setup);
    assert!(!other.equals(&cut));
}

#[test]
fn empty_polynomial_commits_to_identity() {
    let secret = [19u8; 48];
    let setup = setup::generate(&secret, 2);
    let c = create_commitment(Polynomial::from_u64(Vec::new()).unwrap(), &setup);
    assert!(c.is_identity());
}

#[test]
fn from_scalars_rejects_non_canonical() {
    let bad = Scalar::from_bytes([0xff; 32]);
    assert!(!bad.check());
    let good = scalar::from_u64(3);
    assert!(good.check());
    let r = Polynomial::from_scalars(vec![good, bad]);
    assert!(matches!(r, Err(kzg_core::Error::InvalidFieldElement)));
    let ok = Polynomial::from_scalars(scalars_of(&[1, 2, 3]));
    assert!(ok.is_ok());
}

#[test]
fn setup_generation_is_deterministic() {
    let secret = [23u8; 48];
    let a = setup::generate(&secret, 7);
    let b = setup::generate(&secret, 7);
    assert_eq!(a.in_g1.len(), 8);
    assert_eq!(b.in_g1.len(), 8);
    let pa = Polynomial::from_u64(vec![2, 4, 6]).unwrap();
    let pb = Polynomial::from_u64(vec![2, 4, 6]).unwrap();
    let ca = create_commitment(pa, &a);
    let cb = create_commitment(pb, &b);
    assert_eq!(ca.to_bytes(), cb.to_bytes());
}
