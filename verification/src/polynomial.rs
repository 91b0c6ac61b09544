use vstd::prelude::*;
use crate::Error;
use crate::scalar::{Scalar, fr_add, fr_add_of, fr_mul, fr_mul_of, is_canonical};

verus! {

/// The evaluation point squared `k` times in succession: its power to the
/// exponent two-to-the-`k`.
pub open spec fn square_iter_rep(point: Seq<u8>, k: nat) -> Seq<u8>
    decreases k,
{
    if k == 0 {
        point
    } else {
        let q = square_iter_rep(point, (k - 1) as nat);
        fr_mul_of(q, q)
    }
}

/// The running sum after the first `k` coefficients: the constant term,
/// then for each later position its coefficient times the point squared
/// position-many times.
pub open spec fn eval_rep(coeffs: Seq<Seq<u8>>, point: Seq<u8>, k: int) -> Seq<u8>
    decreases k,
{
    if k <= 1 {
        coeffs[0]
    } else {
        fr_add_of(
            eval_rep(coeffs, point, k - 1),
            fr_mul_of(coeffs[k - 1], square_iter_rep(point, (k - 1) as nat)),
        )
    }
}

/// A polynomial in field-element form, to be evaluated at a point. The
/// low-order coefficients come first: the coefficient at index 0 is the
/// constant term.
#[derive(Debug)]
pub struct Polynomial {
    pub coefficients: Vec<Scalar>,
}

impl View for Polynomial {
    type V = Seq<Seq<u8>>;

    open spec fn view(&self) -> Seq<Seq<u8>> {
        self.coefficients@.map_values(|s: Scalar| s@)
    }
}

/// Collects field elements into a polynomial, low-order first, without
/// further validation.
pub fn from_coefficients(coefficients: Vec<Scalar>) -> (r: Polynomial)
    ensures
        r@ == coefficients@.map_values(|s: Scalar| s@),
{
    Polynomial { coefficients }
}

impl Polynomial {
    /// Every coefficient is a canonically encoded field element.
    pub open spec fn wf(&self) -> bool {
        forall|i: int| 0 <= i < self@.len() ==> is_canonical(#[trigger] self@[i])
    }

    /// Evaluates the polynomial at a point. The running sum starts from the
    /// constant term; for each later coefficient, at position `order`, the
    /// point is squared `order` times in succession — the power taken is
    /// two-to-the-`order`, not `order` — then multiplied by the coefficient
    /// and added into the sum. A polynomial with no coefficients is
    /// rejected before any arithmetic; a single-coefficient polynomial
    /// evaluates to that constant whatever the point is.
    pub fn evaluate_at(&self, point: Scalar) -> (r: Result<Scalar, Error>)
        requires
            self.wf(),
            is_canonical(point@),
        ensures
            self@.len() == 0 ==> r == Err::<Scalar, Error>(Error::EmptyPolynomial),
            self@.len() > 0 ==> (r matches Ok(v) && v@ == eval_rep(self@, point@, self@.len() as int)),
            self@.len() == 1 ==> (r matches Ok(v) && v@ == self@[0]),
    {
        if self.coefficients.len() == 0 {
            return Err(Error::EmptyPolynomial);
        }
        let mut sum = self.coefficients[0];
        let n = self.coefficients.len();
        let mut order: usize = 1;
        proof {
            assert(self@[0] == self.coefficients@[0]@);
        }
        while order < n
            invariant
                1 <= order <= n,
                n == self@.len(),
                n == self.coefficients@.len(),
                self.wf(),
                is_canonical(point@),
                sum@ == eval_rep(self@, point@, order as int),
                is_canonical(sum@),
            decreases n - order,
        {
            let mut term = point;
            let mut j: usize = 0;
            while j < order
                invariant
                    j <= order,
                    is_canonical(point@),
                    term@ == square_iter_rep(point@, j as nat),
                    is_canonical(term@),
                decreases order - j,
            {
                term = fr_mul(&term, &term);
                j = j + 1;
            }
            let coefficient = &self.coefficients[order];
            proof {
                assert(self@[order as int] == coefficient@);
            }
            term = fr_mul(coefficient, &term);
            sum = fr_add(&sum, &term);
            order = order + 1;
        }
        Ok(sum)
    }
}

/// Evaluation is deterministic: the result is a function of the coefficient
/// encodings and the point's encoding alone, so two calls on identical
/// inputs yield identical outputs.
pub proof fn lemma_evaluate_deterministic(
    coeffs1: Seq<Seq<u8>>,
    point1: Seq<u8>,
    coeffs2: Seq<Seq<u8>>,
    point2: Seq<u8>,
)
    requires
        coeffs1 == coeffs2,
        point1 == point2,
        coeffs1.len() > 0,
    ensures
        eval_rep(coeffs1, point1, coeffs1.len() as int) == eval_rep(
            coeffs2,
            point2,
            coeffs2.len() as int,
        ),
{
}

/// Constant-polynomial identity: with exactly one coefficient the running
/// sum is that constant and the loop body never runs, so the point plays
/// no part in the result.
pub proof fn lemma_constant_polynomial(coeffs: Seq<Seq<u8>>, point1: Seq<u8>, point2: Seq<u8>)
    requires
        coeffs.len() == 1,
    ensures
        eval_rep(coeffs, point1, 1) == coeffs[0],
        eval_rep(coeffs, point1, 1) == eval_rep(coeffs, point2, 1),
{
}

} // verus!
