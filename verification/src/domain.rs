use vstd::prelude::*;
use crate::field::Scalar;
use crate::field::fr_pow;
use crate::field::fr_sub;
use crate::field::scalar_pow;
use crate::field::scalar_sub;
use crate::field::scalar_values;
use ark_bls12_377::Fr;
use ark_ff::BigInt;
use ark_ff::FftField;
use ark_ff::PrimeField;
use ark_poly::EvaluationDomain;
use ark_poly::GeneralEvaluationDomain;
use ark_std::rand::rngs::StdRng;

verus! {

/// The values at `tau` of the Lagrange polynomials of the domain of the
/// given size.
pub uninterp spec fn lagrange_coefficients(size: nat, tau: nat) -> Seq<nat>;

/// The coefficients of the polynomial that takes the given values on the
/// domain of the given size.
pub uninterp spec fn ifft_values(size: nat, evals: Seq<nat>) -> Seq<nat>;

/// The values on the coset of the domain of the given size that the
/// field's generator shifts it to, of the polynomial with the given
/// coefficients.
pub uninterp spec fn coset_fft_values(size: nat, coeffs: Seq<nat>) -> Seq<nat>;

/// The coefficients of the polynomial that takes the given values on that
/// coset.
pub uninterp spec fn coset_ifft_values(size: nat, evals: Seq<nat>) -> Seq<nat>;

/// The least power of two that is not below `n`.
pub open spec fn next_pow2(n: nat) -> nat
    decreases n,
{
    if n <= 1 {
        1
    } else {
        2 * next_pow2((n + 1) / 2)
    }
}

/// The size of the largest domain that the scalar field has: two to the
/// power of its two-adicity, 47.
pub open spec fn max_domain_size() -> nat {
    0x8000_0000_0000
}

/// The size of the domain for `n` coefficients, if the field has one and
/// its size fits the machine.
pub open spec fn domain_size_for(n: nat) -> Option<nat> {
    if next_pow2(n) <= max_domain_size() && next_pow2(n) <= usize::MAX {
        Some(next_pow2(n))
    } else {
        None
    }
}

/// Whether `size` is the size of a domain.
pub open spec fn is_domain_size(size: nat) -> bool {
    domain_size_for(size) == Some(size)
}

/// The field's multiplicative generator, which shifts a domain to the coset
/// that the quotient polynomial is computed on.
pub open spec fn coset_shift() -> nat {
    22
}

/// The value at `tau` of the polynomial that vanishes on the domain of the
/// given size.
pub open spec fn vanishing_at(size: nat, tau: nat) -> nat {
    fr_sub(fr_pow(tau, size), 1)
}

/// A power of two is positive, not below its argument, and is its own
/// least power of two.
pub(crate) proof fn lemma_next_pow2(n: nat)
    ensures
        next_pow2(n) >= 1,
        next_pow2(n) >= n,
        next_pow2(next_pow2(n)) == next_pow2(n),
    decreases n,
{
    if n > 1 {
        let k = (n + 1) / 2;
        lemma_next_pow2(k);
        let q = next_pow2(k);
        assert((2 * q + 1) / 2 == q);
    }
}

/// The size of a domain for `n` coefficients is the size of a domain.
pub(crate) proof fn lemma_domain_size(n: nat)
    requires
        domain_size_for(n).is_some(),
    ensures
        is_domain_size(domain_size_for(n).unwrap()),
        domain_size_for(n).unwrap() >= 1,
        domain_size_for(n).unwrap() >= n,
{
    lemma_next_pow2(n);
}

/// `GeneralEvaluationDomain::new` and `size`: the least power of two that
/// is not below the number of coefficients, unless it is above two to the
/// power 47 or does not fit the machine.
#[verifier::external_body]
pub(crate) fn domain_size(num_coeffs: usize) -> (r: Option<usize>)
    ensures
        r.is_some() == domain_size_for(num_coeffs as nat).is_some(),
        r.is_some() ==> r.unwrap() == domain_size_for(num_coeffs as nat).unwrap(),
{
    GeneralEvaluationDomain::<Fr>::new(num_coeffs).map(|d| d.size())
}

/// The field's multiplicative generator.
pub fn field_generator() -> (r: Scalar)
    ensures
        r@ == coset_shift(),
{
    Scalar::from_u64(22)
}

/// `EvaluationDomain::sample_element_outside_domain`: some scalar at which
/// the vanishing polynomial of the domain is not zero.
#[verifier::external_body]
pub(crate) fn sample_outside_domain(size: usize, rng: &mut StdRng) -> (t: Scalar)
    requires
        is_domain_size(size as nat),
    ensures
        vanishing_at(size as nat, t@) != 0,
{
    let d = GeneralEvaluationDomain::<Fr>::new(size).unwrap();
    let l = d.sample_element_outside_domain(rng).into_bigint().0;
    Scalar { l0: l[0], l1: l[1], l2: l[2], l3: l[3] }
}

/// The value at `tau` of the polynomial that vanishes on the domain of the
/// given size: `tau` to the power of the size, less one.
pub fn evaluate_vanishing(size: usize, tau: &Scalar) -> (r: Scalar)
    ensures
        r@ == vanishing_at(size as nat, tau@),
{
    let power = scalar_pow(tau, size as u64);
    scalar_sub(&power, &Scalar::one())
}

/// `EvaluationDomain::evaluate_all_lagrange_coefficients`: one value for
/// each element of the domain, those that `lagrange_coefficients` names for
/// the size and the point.
#[verifier::external_body]
pub(crate) fn evaluate_lagrange(size: usize, tau: &Scalar) -> (r: Vec<Scalar>)
    requires
        is_domain_size(size as nat),
    ensures
        r@.len() == size,
        scalar_values(r@) == lagrange_coefficients(size as nat, tau@),
{
    let d = GeneralEvaluationDomain::<Fr>::new(size).unwrap();
    let t = Fr::from(BigInt([tau.l0, tau.l1, tau.l2, tau.l3]));
    d.evaluate_all_lagrange_coefficients(t).iter().map(
        |x|
            {
                let l = x.into_bigint().0;
                Scalar { l0: l[0], l1: l[1], l2: l[2], l3: l[3] }
            },
    ).collect()
}

/// `EvaluationDomain::ifft_in_place` on as many values as the domain has
/// elements: as many coefficients, those that `ifft_values` names.
#[verifier::external_body]
pub(crate) fn ifft(size: usize, v: &mut Vec<Scalar>)
    requires
        is_domain_size(size as nat),
        old(v)@.len() == size,
    ensures
        final(v)@.len() == size,
        scalar_values(final(v)@) == ifft_values(size as nat, scalar_values(old(v)@)),
{
    let d = GeneralEvaluationDomain::<Fr>::new(size).unwrap();
    let mut xs: Vec<Fr> = v.iter().map(|s| Fr::from(BigInt([s.l0, s.l1, s.l2, s.l3]))).collect();
    d.ifft_in_place(&mut xs);
    *v = xs.iter().map(
        |x|
            {
                let l = x.into_bigint().0;
                Scalar { l0: l[0], l1: l[1], l2: l[2], l3: l[3] }
            },
    ).collect();
}

/// `EvaluationDomain::fft_in_place` of the domain's coset by the field's
/// generator (`get_coset`), on as many coefficients as the domain has
/// elements: as many values, those that `coset_fft_values` names.
#[verifier::external_body]
pub(crate) fn coset_fft(size: usize, v: &mut Vec<Scalar>)
    requires
        is_domain_size(size as nat),
        old(v)@.len() == size,
    ensures
        final(v)@.len() == size,
        scalar_values(final(v)@) == coset_fft_values(size as nat, scalar_values(old(v)@)),
{
    let d = GeneralEvaluationDomain::<Fr>::new(size).unwrap().get_coset(Fr::GENERATOR).unwrap();
    let mut xs: Vec<Fr> = v.iter().map(|s| Fr::from(BigInt([s.l0, s.l1, s.l2, s.l3]))).collect();
    d.fft_in_place(&mut xs);
    *v = xs.iter().map(
        |x|
            {
                let l = x.into_bigint().0;
                Scalar { l0: l[0], l1: l[1], l2: l[2], l3: l[3] }
            },
    ).collect();
}

/// `EvaluationDomain::ifft_in_place` of the domain's coset by the field's
/// generator (`get_coset`), on as many values as the domain has elements:
/// as many coefficients, those that `coset_ifft_values` names.
#[verifier::external_body]
pub(crate) fn coset_ifft(size: usize, v: &mut Vec<Scalar>)
    requires
        is_domain_size(size as nat),
        old(v)@.len() == size,
    ensures
        final(v)@.len() == size,
        scalar_values(final(v)@) == coset_ifft_values(size as nat, scalar_values(old(v)@)),
{
    let d = GeneralEvaluationDomain::<Fr>::new(size).unwrap().get_coset(Fr::GENERATOR).unwrap();
    let mut xs: Vec<Fr> = v.iter().map(|s| Fr::from(BigInt([s.l0, s.l1, s.l2, s.l3]))).collect();
    d.ifft_in_place(&mut xs);
    *v = xs.iter().map(
        |x|
            {
                let l = x.into_bigint().0;
                Scalar { l0: l[0], l1: l[1], l2: l[2], l3: l[3] }
            },
    ).collect();
}

} // verus!
