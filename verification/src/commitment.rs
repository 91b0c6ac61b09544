use vstd::prelude::*;
use crate::Error;
use crate::group::{GroupElement, g1_add, g1_add_of, g1_decodes, g1_identity, g1_mul, g1_mul_of,
    identity_rep};
use crate::scalar::{Scalar, fr_check, is_canonical, lemma_u64_bytes_value, scalar_bytes_of_u64};
use crate::setup::Setup;

verus! {

/// A commitment to a polynomial: a single group element, however long the
/// polynomial is.
#[derive(Debug, Clone, Copy, PartialEq, Eq)]
pub struct Commitment {
    element: GroupElement,
}

impl View for Commitment {
    type V = Seq<u8>;

    closed spec fn view(&self) -> Seq<u8> {
        self.element@
    }
}

/// A polynomial in scalar-coefficient form, to be committed against a
/// setup. The coefficient at index 0 is the constant term. Its
/// constructors admit only canonical field elements.
pub struct Polynomial {
    coefficients: Vec<Scalar>,
}

impl View for Polynomial {
    type V = Seq<Seq<u8>>;

    closed spec fn view(&self) -> Seq<Seq<u8>> {
        self.coefficients@.map_values(|s: Scalar| s@)
    }
}

impl Polynomial {
    /// Every coefficient is a canonically encoded field element.
    pub open spec fn wf(&self) -> bool {
        forall|i: int| 0 <= i < self@.len() ==> is_canonical(#[trigger] self@[i])
    }

    /// The number of coefficients; the degree is one less.
    pub fn len(&self) -> (r: usize)
        ensures
            r == self@.len(),
    {
        self.coefficients.len()
    }

    /// Converts each integer to its canonical field representation. Every
    /// 64-bit value lies below the field order, so this cannot fail.
    pub fn from_u64(ints: Vec<u64>) -> (r: Result<Polynomial, Error>)
        ensures
            r matches Ok(p) && p@ == ints@.map_values(|x: u64| scalar_bytes_of_u64(x)),
            r matches Ok(p) && p.wf(),
    {
        let mut scalars: Vec<Scalar> = Vec::new();
        let n = ints.len();
        let mut i: usize = 0;
        while i < n
            invariant
                i <= n,
                n == ints@.len(),
                scalars@.len() == i,
                forall|j: int| 0 <= j < i
                    ==> (#[trigger] scalars@[j])@ == scalar_bytes_of_u64(ints@[j]),
            decreases n - i,
        {
            let s = crate::scalar::from_u64(ints[i]);
            scalars.push(s);
            i = i + 1;
        }
        proof {
            assert(scalars@.map_values(|s: Scalar| s@)
                =~= ints@.map_values(|x: u64| scalar_bytes_of_u64(x)));
            assert forall|j: int| 0 <= j < scalars@.len()
                implies is_canonical(#[trigger] scalars@[j]@) by {
                lemma_u64_bytes_value(ints@[j]);
            }
        }
        Self::from_scalars(scalars)
    }

    /// Validates each scalar's field membership; the first non-canonical
    /// element makes the whole construction fail.
    pub fn from_scalars(scalars: Vec<Scalar>) -> (r: Result<Polynomial, Error>)
        ensures
            if forall|i: int| 0 <= i < scalars@.len() ==> is_canonical(#[trigger] scalars@[i]@) {
                r matches Ok(p) && p@ == scalars@.map_values(|s: Scalar| s@) && p.wf()
            } else {
                r == Err::<Polynomial, Error>(Error::InvalidFieldElement)
            },
    {
        let n = scalars.len();
        let mut i: usize = 0;
        while i < n
            invariant
                i <= n,
                n == scalars@.len(),
                forall|j: int| 0 <= j < i ==> is_canonical(#[trigger] scalars@[j]@),
            decreases n - i,
        {
            if !fr_check(&scalars[i]) {
                return Err(Error::InvalidFieldElement);
            }
            i = i + 1;
        }
        Ok(Polynomial { coefficients: scalars })
    }
}

/// The accumulated sum, starting from the identity, of the first `k`
/// basis elements each multiplied by the coefficient of the same index.
pub open spec fn msm_rep(coeffs: Seq<Seq<u8>>, basis: Seq<Seq<u8>>, k: int) -> Seq<u8>
    decreases k,
{
    if k <= 0 {
        identity_rep()
    } else {
        g1_add_of(msm_rep(coeffs, basis, k - 1), g1_mul_of(basis[k - 1], coeffs[k - 1]))
    }
}

/// What committing yields: the multi-scalar multiplication over coefficient
/// and basis pairs, which stop at the shorter of the two sequences.
pub open spec fn commit_rep(coeffs: Seq<Seq<u8>>, basis: Seq<Seq<u8>>) -> Seq<u8> {
    if coeffs.len() <= basis.len() {
        msm_rep(coeffs, basis, coeffs.len() as int)
    } else {
        msm_rep(coeffs, basis, basis.len() as int)
    }
}

/// Commits to a polynomial against a setup: each coefficient multiplies
/// the basis element of its index, and the products are accumulated by
/// group addition starting from the identity. Pairing stops at the shorter
/// sequence: with a basis shorter than the polynomial, the excess
/// high-degree coefficients are ignored.
pub fn create_commitment(polynomial: Polynomial, setup: &Setup) -> (c: Commitment)
    requires
        polynomial.wf(),
    ensures
        c@ == commit_rep(polynomial@, setup@),
{
    let n = if polynomial.coefficients.len() <= setup.in_g1.len() {
        polynomial.coefficients.len()
    } else {
        setup.in_g1.len()
    };
    let mut result = g1_identity();
    let mut i: usize = 0;
    while i < n
        invariant
            i <= n,
            n <= polynomial.coefficients@.len(),
            n <= setup.in_g1@.len(),
            polynomial.wf(),
            result@ == msm_rep(polynomial@, setup@, i as int),
            g1_decodes(result@),
        decreases n - i,
    {
        let element = &setup.in_g1[i];
        let coefficient = &polynomial.coefficients[i];
        proof {
            use_type_invariant(*element);
            assert(polynomial@[i as int] == coefficient@);
            assert(setup@[i as int] == element@);
        }
        let term = g1_mul(element, coefficient);
        result = g1_add(&result, &term);
        i = i + 1;
    }
    proof {
        assert(polynomial@.len() == polynomial.coefficients@.len());
        assert(setup@.len() == setup.in_g1@.len());
    }
    Commitment { element: result }
}

impl Commitment {
    /// The compressed encoding of the committed group element.
    pub fn to_bytes(&self) -> (r: Vec<u8>)
        ensures
            r@ == self@,
    {
        self.element.to_bytes()
    }

    /// Whether two commitments are the same group element.
    pub fn equals(&self, other: &Commitment) -> (r: bool)
        ensures
            r == (self@ == other@),
    {
        self.element.equals(&other.element)
    }

    /// Whether the commitment is the group identity.
    pub fn is_identity(&self) -> (r: bool)
        ensures
            r == (self@ == identity_rep()),
    {
        let id = g1_identity();
        self.element.equals(&id)
    }

    /// The group sum of two commitments.
    pub fn add(&self, other: &Commitment) -> (r: Commitment)
        ensures
            r@ == g1_add_of(self@, other@),
    {
        proof {
            use_type_invariant(self.element);
            use_type_invariant(other.element);
        }
        Commitment { element: g1_add(&self.element, &other.element) }
    }

    /// The commitment multiplied by a canonical scalar.
    pub fn mul_scalar(&self, k: &Scalar) -> (r: Commitment)
        requires
            is_canonical(k@),
        ensures
            r@ == g1_mul_of(self@, k@),
    {
        proof {
            use_type_invariant(self.element);
        }
        Commitment { element: g1_mul(&self.element, k) }
    }
}

/// Committing is deterministic: the committed element is a function of the
/// coefficient encodings and the basis encodings alone, so two calls on
/// identical inputs yield identical outputs.
pub proof fn lemma_commit_deterministic(
    coeffs1: Seq<Seq<u8>>,
    basis1: Seq<Seq<u8>>,
    coeffs2: Seq<Seq<u8>>,
    basis2: Seq<Seq<u8>>,
)
    requires
        coeffs1 == coeffs2,
        basis1 == basis2,
    ensures
        commit_rep(coeffs1, basis1) == commit_rep(coeffs2, basis2),
{
}

/// The multi-scalar multiplication over the first `k` pairs reads only the
/// first `k` coefficients.
proof fn lemma_msm_rep_prefix(c1: Seq<Seq<u8>>, c2: Seq<Seq<u8>>, basis: Seq<Seq<u8>>, k: int)
    requires
        forall|i: int| 0 <= i < k ==> c1[i] == c2[i],
    ensures
        msm_rep(c1, basis, k) == msm_rep(c2, basis, k),
    decreases k,
{
    if k > 0 {
        lemma_msm_rep_prefix(c1, c2, basis, k - 1);
    }
}

/// Truncation boundary: committing coefficients `[c0 .. cn]` against a
/// basis of length `n` (one shorter) equals committing `[c0 .. c(n-1)]`
/// against the same basis; the excess high-degree coefficient is ignored.
pub proof fn lemma_commit_truncation(coeffs: Seq<Seq<u8>>, basis: Seq<Seq<u8>>)
    requires
        coeffs.len() == basis.len() + 1,
    ensures
        commit_rep(coeffs, basis) == commit_rep(coeffs.take(basis.len() as int), basis),
{
    lemma_msm_rep_prefix(coeffs, coeffs.take(basis.len() as int), basis, basis.len() as int);
}

} // verus!
