use vstd::prelude::*;
use crate::group::{GroupElement, g1_generator, g1_mul, g1_mul_of, generator_rep};
use crate::scalar::{fr_from_wide, fr_mul_of, fr_of_wide_bytes, is_canonical,
    lemma_u64_bytes_value, scalar_bytes_of_u64};

verus! {

/// The structured basis: an ordered sequence of group elements holding the
/// powers of a hidden trapdoor scalar, produced once from a secret and
/// borrowed by every commitment made against it.
pub struct Setup {
    pub in_g1: Vec<GroupElement>,
}

impl View for Setup {
    type V = Seq<Seq<u8>>;

    open spec fn view(&self) -> Seq<Seq<u8>> {
        self.in_g1@.map_values(|g: GroupElement| g@)
    }
}

/// The canonical encoding of the `i`-th power of the field element
/// encoded by `s`; the zeroth power is one.
pub open spec fn power_rep(s: Seq<u8>, i: int) -> Seq<u8>
    decreases i,
{
    if i <= 0 {
        scalar_bytes_of_u64(1)
    } else {
        fr_mul_of(power_rep(s, i - 1), s)
    }
}

/// Generates a basis of `degree_bound + 1` group elements from a secret:
/// the trapdoor scalar is the secret reduced into the field, and the
/// element at index `i` is the generator multiplied by its `i`-th power.
pub fn generate(secret: &[u8], degree_bound: u32) -> (s: Setup)
    requires
        secret@.len() <= 64,
        degree_bound + 1 <= usize::MAX,
    ensures
        s@.len() == degree_bound + 1,
        forall|i: int| 0 <= i <= degree_bound
            ==> #[trigger] s@[i] == g1_mul_of(
                generator_rep(),
                power_rep(fr_of_wide_bytes(secret@), i),
            ),
{
    let trapdoor = fr_from_wide(secret);
    let generator = g1_generator();
    let mut power = crate::scalar::from_u64(1);
    let mut in_g1: Vec<GroupElement> = Vec::new();
    let n: usize = (degree_bound as usize) + 1;
    let mut i: usize = 0;
    proof {
        lemma_u64_bytes_value(1);
    }
    while i < n
        invariant
            i <= n,
            n == degree_bound + 1,
            generator@ == generator_rep(),
            crate::group::g1_decodes(generator@),
            trapdoor@ == fr_of_wide_bytes(secret@),
            is_canonical(trapdoor@),
            power@ == power_rep(trapdoor@, i as int),
            is_canonical(power@),
            in_g1@.len() == i,
            forall|j: int| 0 <= j < i
                ==> (#[trigger] in_g1@[j])@ == g1_mul_of(
                    generator_rep(),
                    power_rep(fr_of_wide_bytes(secret@), j),
                ),
        decreases n - i,
    {
        let element = g1_mul(&generator, &power);
        in_g1.push(element);
        power = power.mul(&trapdoor);
        i = i + 1;
    }
    Setup { in_g1 }
}

} // verus!
