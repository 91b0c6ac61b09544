use vstd::prelude::*;

verus! {

/// The order of the scalar field Fr of the curve BLS12-381.
pub open spec fn fr_modulus() -> nat {
    0x73eda753299d7d483339d80809a1d80553bda402fffe5bfeffffffff00000001nat
}

/// The unsigned value of a byte sequence read in little-endian order.
pub open spec fn le_bytes_nat(b: Seq<u8>) -> nat
    decreases b.len(),
{
    if b.len() == 0 {
        0
    } else {
        (b[0] + 256 * le_bytes_nat(b.subrange(1, b.len() as int))) as nat
    }
}

/// The 32-byte little-endian encoding of a 64-bit integer.
pub open spec fn scalar_bytes_of_u64(x: u64) -> Seq<u8> {
    Seq::new(32, |i: int| if i < 8 {
        (x >> ((8 * i) as u64)) as u8
    } else {
        0u8
    })
}

/// Whether 32 bytes are the canonical encoding of a scalar field element:
/// their little-endian value lies below the field order.
pub open spec fn is_canonical(b: Seq<u8>) -> bool {
    b.len() == 32 && le_bytes_nat(b) < fr_modulus()
}

/// What multiplication in the scalar field returns, as the canonical
/// encoding of the product of two canonically encoded elements.
pub uninterp spec fn fr_mul_of(a: Seq<u8>, b: Seq<u8>) -> Seq<u8>;

/// What addition in the scalar field returns, as the canonical encoding
/// of the sum of two canonically encoded elements.
pub uninterp spec fn fr_add_of(a: Seq<u8>, b: Seq<u8>) -> Seq<u8>;

/// What reduction of a little-endian byte string of at most 64 bytes into
/// the scalar field returns, as a canonical encoding.
pub uninterp spec fn fr_of_wide_bytes(b: Seq<u8>) -> Seq<u8>;

/// An element of the curve's scalar field Fr, held as 32 little-endian
/// bytes. A value is only fit for arithmetic once it passes canonical
/// field-membership validation (`check`); the constructors `from_u64` and
/// the arithmetic methods only produce canonical values.
#[derive(Debug, Clone, Copy, PartialEq, Eq)]
pub struct Scalar {
    pub(crate) bytes: [u8; 32],
}

impl View for Scalar {
    type V = Seq<u8>;

    closed spec fn view(&self) -> Seq<u8> {
        self.bytes@
    }
}

/// Relies on bls12_381::Scalar::from_bytes, which accepts exactly the
/// canonical little-endian encodings, those of value below the field order.
#[verifier::external_body]
pub(crate) fn fr_check(a: &Scalar) -> (r: bool)
    ensures
        r == is_canonical(a@),
{
    bool::from(bls12_381::Scalar::from_bytes(&a.bytes).is_some())
}

/// Relies on From<u64> for bls12_381::Scalar and Scalar::to_bytes: every
/// 64-bit value lies below the field order, and the canonical encoding of
/// its element is its own little-endian bytes.
#[verifier::external_body]
pub(crate) fn fr_from_u64(x: u64) -> (r: Scalar)
    ensures
        r@ == scalar_bytes_of_u64(x),
{
    Scalar { bytes: bls12_381::Scalar::from(x).to_bytes() }
}

/// Relies on bls12_381::Scalar multiplication; to_bytes returns the
/// canonical encoding of the product.
#[verifier::external_body]
pub(crate) fn fr_mul(a: &Scalar, b: &Scalar) -> (r: Scalar)
    requires
        is_canonical(a@),
        is_canonical(b@),
    ensures
        r@ == fr_mul_of(a@, b@),
        is_canonical(r@),
{
    let x: Option<bls12_381::Scalar> = Option::from(bls12_381::Scalar::from_bytes(&a.bytes));
    let y: Option<bls12_381::Scalar> = Option::from(bls12_381::Scalar::from_bytes(&b.bytes));
    Scalar { bytes: (&x.unwrap() * &y.unwrap()).to_bytes() }
}

/// Relies on bls12_381::Scalar addition; to_bytes returns the canonical
/// encoding of the sum.
#[verifier::external_body]
pub(crate) fn fr_add(a: &Scalar, b: &Scalar) -> (r: Scalar)
    requires
        is_canonical(a@),
        is_canonical(b@),
    ensures
        r@ == fr_add_of(a@, b@),
        is_canonical(r@),
{
    let x: Option<bls12_381::Scalar> = Option::from(bls12_381::Scalar::from_bytes(&a.bytes));
    let y: Option<bls12_381::Scalar> = Option::from(bls12_381::Scalar::from_bytes(&b.bytes));
    Scalar { bytes: (&x.unwrap() + &y.unwrap()).to_bytes() }
}

/// Relies on bls12_381::Scalar::from_bytes_wide: reduces a 64-byte
/// little-endian value into the field; shorter input is zero-extended,
/// which keeps its value.
#[verifier::external_body]
pub(crate) fn fr_from_wide(secret: &[u8]) -> (r: Scalar)
    requires
        secret@.len() <= 64,
    ensures
        r@ == fr_of_wide_bytes(secret@),
        is_canonical(r@),
{
    let mut wide = [0u8; 64];
    wide[..secret.len()].copy_from_slice(secret);
    Scalar { bytes: bls12_381::Scalar::from_bytes_wide(&wide).to_bytes() }
}

/// The little-endian value of a sequence of zero bytes is zero.
proof fn lemma_le_bytes_nat_zero(b: Seq<u8>)
    requires
        forall|i: int| 0 <= i < b.len() ==> b[i] == 0,
    ensures
        le_bytes_nat(b) == 0,
    decreases b.len(),
{
    if b.len() > 0 {
        lemma_le_bytes_nat_zero(b.subrange(1, b.len() as int));
    }
}

/// The 32-byte little-endian encoding of a 64-bit integer has that
/// integer as its value, so it is canonical.
pub proof fn lemma_u64_bytes_value(x: u64)
    ensures
        le_bytes_nat(scalar_bytes_of_u64(x)) == x,
        is_canonical(scalar_bytes_of_u64(x)),
{
    let b = scalar_bytes_of_u64(x);
    lemma_le_bytes_nat_zero(b.subrange(8, 32));
    assert(b.subrange(7, 32).subrange(1, 25) =~= b.subrange(8, 32));
    assert(b.subrange(6, 32).subrange(1, 26) =~= b.subrange(7, 32));
    assert(b.subrange(5, 32).subrange(1, 27) =~= b.subrange(6, 32));
    assert(b.subrange(4, 32).subrange(1, 28) =~= b.subrange(5, 32));
    assert(b.subrange(3, 32).subrange(1, 29) =~= b.subrange(4, 32));
    assert(b.subrange(2, 32).subrange(1, 30) =~= b.subrange(3, 32));
    assert(b.subrange(1, 32).subrange(1, 31) =~= b.subrange(2, 32));
    assert(b.subrange(0, 32).subrange(1, 32) =~= b.subrange(1, 32));
    assert(x >> 56 == ((x >> 56) as u8) as u64) by (bit_vector);
    assert(x >> 48 == (((x >> 48) as u8) as u64) + 256 * (x >> 56)) by (bit_vector);
    assert(x >> 40 == (((x >> 40) as u8) as u64) + 256 * (x >> 48)) by (bit_vector);
    assert(x >> 32 == (((x >> 32) as u8) as u64) + 256 * (x >> 40)) by (bit_vector);
    assert(x >> 24 == (((x >> 24) as u8) as u64) + 256 * (x >> 32)) by (bit_vector);
    assert(x >> 16 == (((x >> 16) as u8) as u64) + 256 * (x >> 24)) by (bit_vector);
    assert(x >> 8 == (((x >> 8) as u8) as u64) + 256 * (x >> 16)) by (bit_vector);
    assert(x == (((x >> 0) as u8) as u64) + 256 * (x >> 8)) by (bit_vector);
    assert(x >> ((8 * 0) as u64) == x >> 0 && x >> ((8 * 1) as u64) == x >> 8
        && x >> ((8 * 2) as u64) == x >> 16 && x >> ((8 * 3) as u64) == x >> 24
        && x >> ((8 * 4) as u64) == x >> 32 && x >> ((8 * 5) as u64) == x >> 40
        && x >> ((8 * 6) as u64) == x >> 48 && x >> ((8 * 7) as u64) == x >> 56) by (bit_vector);
    assert(le_bytes_nat(b.subrange(7, 32)) == x >> 56);
    assert(le_bytes_nat(b.subrange(6, 32)) == x >> 48);
    assert(le_bytes_nat(b.subrange(5, 32)) == x >> 40);
    assert(le_bytes_nat(b.subrange(4, 32)) == x >> 32);
    assert(le_bytes_nat(b.subrange(3, 32)) == x >> 24);
    assert(le_bytes_nat(b.subrange(2, 32)) == x >> 16);
    assert(le_bytes_nat(b.subrange(1, 32)) == x >> 8);
    assert(b.subrange(0, 32) =~= b);
    assert(le_bytes_nat(b) == x);
    assert((u64::MAX as nat) < fr_modulus());
}

/// Converts an unsigned integer to the canonical scalar field element of
/// the same value.
pub fn from_u64(x: u64) -> (r: Scalar)
    ensures
        r@ == scalar_bytes_of_u64(x),
        is_canonical(r@),
{
    let r = fr_from_u64(x);
    proof {
        lemma_u64_bytes_value(x);
    }
    r
}

impl Scalar {
    /// Wraps 32 little-endian bytes without validating them; `check` says
    /// whether they encode a field element canonically.
    pub fn from_bytes(bytes: [u8; 32]) -> (r: Scalar)
        ensures
            r@ == bytes@,
    {
        Scalar { bytes }
    }

    /// Canonical field-membership validation.
    pub fn check(&self) -> (r: bool)
        ensures
            r == is_canonical(self@),
    {
        fr_check(self)
    }

    /// The field product of two canonical elements.
    pub fn mul(&self, other: &Scalar) -> (r: Scalar)
        requires
            is_canonical(self@),
            is_canonical(other@),
        ensures
            r@ == fr_mul_of(self@, other@),
            is_canonical(r@),
    {
        fr_mul(self, other)
    }

    /// The field sum of two canonical elements.
    pub fn add(&self, other: &Scalar) -> (r: Scalar)
        requires
            is_canonical(self@),
            is_canonical(other@),
        ensures
            r@ == fr_add_of(self@, other@),
            is_canonical(r@),
    {
        fr_add(self, other)
    }

    /// The value of this element when it lies below 2^64: the little-endian
    /// value of its low eight bytes. Diagnostic use only.
    pub fn to_u64(&self) -> (r: u64)
        ensures
            r == le_bytes_nat(self@.subrange(0, 8)),
            le_bytes_nat(self@) < 0x1_0000_0000_0000_0000 ==> r == le_bytes_nat(self@),
    {
        let mut acc: u64 = 0;
        let mut i: usize = 8;
        while i > 0
            invariant
                i <= 8,
                acc == le_bytes_nat(self@.subrange(i as int, 8)),
                acc < pow2_bytes((8 - i) as nat),
            decreases i,
        {
            i = i - 1;
            proof {
                assert(self@.subrange(i as int, 8).subrange(1, 8 - i as int)
                    =~= self@.subrange(i as int + 1, 8));
                lemma_pow2_bytes_table();
                assert(pow2_bytes((8 - i) as nat) == 256 * pow2_bytes((7 - i) as nat));
            }
            acc = acc * 256 + (self.bytes[i] as u64);
        }
        proof {
            assert(self@.subrange(0, 8) =~= self@.subrange(0int, 8));
            lemma_le_bytes_nat_split(self@, 8);
            lemma_pow2_bytes_table();
            if le_bytes_nat(self@) < 0x1_0000_0000_0000_0000 {
                let rest = self@.subrange(8, 32);
                if le_bytes_nat(rest) >= 1 {
                    assert(0x1_0000_0000_0000_0000 * le_bytes_nat(rest)
                        >= 0x1_0000_0000_0000_0000) by (nonlinear_arith)
                        requires le_bytes_nat(rest) >= 1;
                }
            }
        }
        acc
    }
}

/// Splitting a byte string: its value is the value of its first `k` bytes
/// plus the value of the remainder scaled by 256 to the `k`.
proof fn lemma_le_bytes_nat_split(b: Seq<u8>, k: int)
    requires
        0 <= k <= b.len(),
    ensures
        le_bytes_nat(b) == le_bytes_nat(b.subrange(0, k))
            + pow2_bytes(k as nat) * le_bytes_nat(b.subrange(k, b.len() as int)),
    decreases k,
{
    if k == 0 {
        assert(b.subrange(0, b.len() as int) =~= b);
        assert(le_bytes_nat(b.subrange(0, 0)) == 0);
        assert(pow2_bytes(0) == 1);
        assert(1 * le_bytes_nat(b) == le_bytes_nat(b));
    } else {
        let tail = b.subrange(1, b.len() as int);
        lemma_le_bytes_nat_split(tail, k - 1);
        assert(tail.subrange(0, k - 1) =~= b.subrange(0, k).subrange(1, k));
        assert(tail.subrange(k - 1, tail.len() as int) =~= b.subrange(k, b.len() as int));
        let low = le_bytes_nat(b.subrange(0, k).subrange(1, k));
        let high = le_bytes_nat(b.subrange(k, b.len() as int));
        let p = pow2_bytes((k - 1) as nat);
        assert(le_bytes_nat(tail) == low + p * high);
        assert(le_bytes_nat(b) == b[0] + 256 * (low + p * high));
        assert(le_bytes_nat(b.subrange(0, k)) == b[0] + 256 * low);
        assert(256 * (low + p * high) == 256 * low + 256 * (p * high)) by (nonlinear_arith);
        assert(256 * (p * high) == (256 * p) * high) by (nonlinear_arith);
        assert(pow2_bytes(k as nat) == 256 * p);
        assert(le_bytes_nat(b) == b[0] + 256 * low + (256 * p) * high);
        assert(pow2_bytes(k as nat) * high == (256 * p) * high);
        assert(le_bytes_nat(b) == le_bytes_nat(b.subrange(0, k)) + pow2_bytes(k as nat) * high);
    }
}

/// 256 raised to a small power; bounds the accumulator of `to_u64`.
spec fn pow2_bytes(k: nat) -> nat
    decreases k,
{
    if k == 0 {
        1
    } else {
        256 * pow2_bytes((k - 1) as nat)
    }
}

proof fn lemma_pow2_bytes_table()
    ensures
        pow2_bytes(0) == 1,
        pow2_bytes(1) == 0x100,
        pow2_bytes(2) == 0x1_0000,
        pow2_bytes(3) == 0x100_0000,
        pow2_bytes(4) == 0x1_0000_0000,
        pow2_bytes(5) == 0x100_0000_0000,
        pow2_bytes(6) == 0x1_0000_0000_0000,
        pow2_bytes(7) == 0x100_0000_0000_0000,
        pow2_bytes(8) == 0x1_0000_0000_0000_0000,
{
    reveal_with_fuel(pow2_bytes, 9);
}

} // verus!
