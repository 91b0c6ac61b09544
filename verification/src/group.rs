use vstd::prelude::*;
use crate::scalar::{Scalar, is_canonical};

verus! {

/// Whether 48 bytes are the compressed encoding of a point of the curve's
/// group G1: the encoding that bls12_381::G1Affine::from_compressed accepts.
pub uninterp spec fn g1_decodes(b: Seq<u8>) -> bool;

/// What scalar multiplication in G1 returns: the compressed encoding of the
/// point `p` multiplied by the field element encoded by `s`.
pub uninterp spec fn g1_mul_of(p: Seq<u8>, s: Seq<u8>) -> Seq<u8>;

/// What addition in G1 returns: the compressed encoding of the sum of the
/// points encoded by `a` and `b`.
pub uninterp spec fn g1_add_of(a: Seq<u8>, b: Seq<u8>) -> Seq<u8>;

/// The compressed encoding of the identity (the point at infinity): the
/// compression and infinity flag bits, then zeroes.
pub open spec fn identity_rep() -> Seq<u8> {
    Seq::new(48, |i: int| if i == 0 { 0xc0u8 } else { 0u8 })
}

/// The compressed encoding of the fixed generator of G1.
pub open spec fn generator_rep() -> Seq<u8> {
    seq![
        0x97u8, 0xf1, 0xd3, 0xa7, 0x31, 0x97, 0xd7, 0x94, 0x26, 0x95, 0x63, 0x8c,
        0x4f, 0xa9, 0xac, 0x0f, 0xc3, 0x68, 0x8c, 0x4f, 0x97, 0x74, 0xb9, 0x05,
        0xa1, 0x4e, 0x3a, 0x3f, 0x17, 0x1b, 0xac, 0x58, 0x6c, 0x55, 0xe8, 0x3f,
        0xf9, 0x7a, 0x1a, 0xef, 0xfb, 0x3a, 0xf0, 0x0a, 0xdb, 0x22, 0xc6, 0xbb,
    ]
}

/// A point of the curve's group G1, held as its unique compressed encoding.
/// Every value of this type decodes to a point; all values are produced by
/// the curve library.
#[derive(Debug, Clone, Copy, PartialEq, Eq)]
pub struct GroupElement {
    bytes: [u8; 48],
}

impl View for GroupElement {
    type V = Seq<u8>;

    closed spec fn view(&self) -> Seq<u8> {
        self.bytes@
    }
}

impl GroupElement {
    #[verifier::type_invariant]
    pub open spec fn type_inv(self) -> bool {
        g1_decodes(self@)
    }

    /// The compressed encoding, as plain bytes.
    pub fn to_bytes(&self) -> (r: Vec<u8>)
        ensures
            r@ == self@,
    {
        let mut out: Vec<u8> = Vec::new();
        let mut i: usize = 0;
        while i < 48
            invariant
                i <= 48,
                out@ == self@.subrange(0, i as int),
            decreases 48 - i,
        {
            out.push(self.bytes[i]);
            proof {
                assert(out@ =~= self@.subrange(0, i + 1));
            }
            i = i + 1;
        }
        proof {
            assert(out@ =~= self@);
        }
        out
    }

    /// Whether two encodings are the same; encodings are unique, so this
    /// is equality of the underlying points.
    pub fn equals(&self, other: &GroupElement) -> (r: bool)
        ensures
            r == (self@ == other@),
    {
        let mut i: usize = 0;
        while i < 48
            invariant
                i <= 48,
                forall|j: int| 0 <= j < i ==> self@[j] == other@[j],
            decreases 48 - i,
        {
            if self.bytes[i] != other.bytes[i] {
                return false;
            }
            i = i + 1;
        }
        proof {
            assert(self@ =~= other@);
        }
        true
    }
}

/// Relies on bls12_381::G1Affine::from_compressed and to_compressed, whose
/// encoding is unique, and on G1 scalar multiplication.
#[verifier::external_body]
pub(crate) fn g1_mul(p: &GroupElement, s: &Scalar) -> (r: GroupElement)
    requires
        g1_decodes(p@),
        is_canonical(s@),
    ensures
        r@ == g1_mul_of(p@, s@),
        g1_decodes(r@),
{
    let a: Option<bls12_381::G1Affine> =
        Option::from(bls12_381::G1Affine::from_compressed(&p.bytes));
    let k: Option<bls12_381::Scalar> = Option::from(bls12_381::Scalar::from_bytes(&s.bytes));
    let out = bls12_381::G1Projective::from(a.unwrap()) * k.unwrap();
    GroupElement { bytes: bls12_381::G1Affine::from(out).to_compressed() }
}

/// Relies on bls12_381::G1Affine::from_compressed and to_compressed, whose
/// encoding is unique, and on G1 point addition.
#[verifier::external_body]
pub(crate) fn g1_add(a: &GroupElement, b: &GroupElement) -> (r: GroupElement)
    requires
        g1_decodes(a@),
        g1_decodes(b@),
    ensures
        r@ == g1_add_of(a@, b@),
        g1_decodes(r@),
{
    let x: Option<bls12_381::G1Affine> =
        Option::from(bls12_381::G1Affine::from_compressed(&a.bytes));
    let y: Option<bls12_381::G1Affine> =
        Option::from(bls12_381::G1Affine::from_compressed(&b.bytes));
    let out = bls12_381::G1Projective::from(x.unwrap()) + bls12_381::G1Projective::from(y.unwrap());
    GroupElement { bytes: bls12_381::G1Affine::from(out).to_compressed() }
}

/// Relies on bls12_381::G1Affine::identity and to_compressed: the identity
/// encodes as the two flag bits followed by zeroes, and decodes again.
#[verifier::external_body]
pub(crate) fn g1_identity() -> (r: GroupElement)
    ensures
        r@ == identity_rep(),
        g1_decodes(r@),
{
    GroupElement { bytes: bls12_381::G1Affine::identity().to_compressed() }
}

/// Relies on bls12_381::G1Affine::generator and to_compressed: the fixed
/// generator has this well-known encoding, and it decodes again.
#[verifier::external_body]
pub(crate) fn g1_generator() -> (r: GroupElement)
    ensures
        r@ == generator_rep(),
        g1_decodes(r@),
{
    GroupElement { bytes: bls12_381::G1Affine::generator().to_compressed() }
}

} // verus!
