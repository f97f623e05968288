use vstd::prelude::*;
use vstd::arithmetic::div_mod::lemma_add_mod_noop;
use vstd::arithmetic::div_mod::lemma_mul_mod_noop_general;
use crate::field::fr_add;
use crate::field::fr_mul;
use crate::field::modulus;
use crate::g1::g1_identity;
use crate::g1::g1_lincomb;
use crate::g1::g1_neg;
use crate::g1::g1_scale;
use crate::g1::g1_sum;
use crate::g2::g2_identity;
use crate::g2::g2_lincomb;
use crate::g2::g2_neg;
use crate::g2::g2_scale;
use crate::g2::g2_sum;
use crate::pairing::final_exp;
use crate::pairing::g2_prepared;
use crate::pairing::miller_value;
use crate::pairing::pairing_value;
use crate::pairing::target_one;

verus! {

/// A reading of encodings as numbers.
pub type Reading = spec_fn(Seq<u8>) -> int;

/// Whether two numbers are the same modulo the order of the groups.
pub open spec fn cong(a: int, b: int) -> bool {
    a % (modulus() as int) == b % (modulus() as int)
}

/// The sum of the first `n` products of the reading of a point of `ps` and
/// the reading of the point of `qs` at the same place.
pub open spec fn pair_dot(l1: Reading, lp: Reading, ps: Seq<Seq<u8>>, qs: Seq<Seq<u8>>, n: nat) -> int
    decreases n,
{
    if n == 0 {
        0
    } else {
        pair_dot(l1, lp, ps, qs, (n - 1) as nat) + l1(ps[n - 1]) * lp(qs[n - 1])
    }
}

/// The sum of the first `n` products of the reading of a base and its
/// scalar.
pub open spec fn lin(l: Reading, bases: Seq<Seq<u8>>, x: Seq<nat>, n: nat) -> int
    decreases n,
{
    if n == 0 {
        0
    } else {
        lin(l, bases, x, (n - 1) as nat) + l(bases[n - 1]) * (x[n - 1] as int)
    }
}

/// Whether the three readings show the pairing groups as groups of the
/// order of the scalar field with a bilinear pairing: `l1` and `l2` read a
/// point of the first and of the second group as its discrete logarithm,
/// so that the neutral element reads as zero, a sum as the sum of the
/// readings, a multiple as the product of the reading and the scalar and an
/// inverse as the negative, all modulo the order; `lp` reads a prepared
/// point as `l2` reads the point; and the final exponentiation of a product
/// of Miller loops is the one of the target field where the products of
/// the readings add up to zero, and the pairing of two points where they
/// add up to the product of the readings of the two.
pub open spec fn is_model(l1: Reading, l2: Reading, lp: Reading) -> bool {
    &&& cong(l1(g1_identity()), 0)
    &&& forall|a: Seq<u8>, b: Seq<u8>| cong(l1(#[trigger] g1_sum(a, b)), l1(a) + l1(b))
    &&& forall|p: Seq<u8>, s: nat| cong(l1(#[trigger] g1_scale(p, s)), l1(p) * (s as int))
    &&& forall|a: Seq<u8>| cong(l1(#[trigger] g1_neg(a)) + l1(a), 0)
    &&& cong(l2(g2_identity()), 0)
    &&& forall|a: Seq<u8>, b: Seq<u8>| cong(l2(#[trigger] g2_sum(a, b)), l2(a) + l2(b))
    &&& forall|p: Seq<u8>, s: nat| cong(l2(#[trigger] g2_scale(p, s)), l2(p) * (s as int))
    &&& forall|a: Seq<u8>| cong(l2(#[trigger] g2_neg(a)) + l2(a), 0)
    &&& forall|q: Seq<u8>| cong(lp(#[trigger] g2_prepared(q)), l2(q))
    &&& forall|ps: Seq<Seq<u8>>, qs: Seq<Seq<u8>>|
        ps.len() == qs.len() && cong(pair_dot(l1, lp, ps, qs, ps.len()), 0) ==> final_exp(
            #[trigger] miller_value(ps, qs),
        ) == Some(target_one())
    &&& forall|ps: Seq<Seq<u8>>, qs: Seq<Seq<u8>>, p: Seq<u8>, q: Seq<u8>|
        ps.len() == qs.len() && cong(pair_dot(l1, lp, ps, qs, ps.len()), l1(p) * l2(q))
            ==> final_exp(#[trigger] miller_value(ps, qs)) == Some(#[trigger] pairing_value(p, q))
}

/// Sums of numbers that are the same modulo the order are the same modulo
/// the order.
pub(crate) proof fn lemma_cong_add(a: int, a2: int, b: int, b2: int)
    requires
        cong(a, a2),
        cong(b, b2),
    ensures
        cong(a + b, a2 + b2),
{
    lemma_add_mod_noop(a, b, modulus() as int);
    lemma_add_mod_noop(a2, b2, modulus() as int);
}

/// Products of numbers that are the same modulo the order are the same
/// modulo the order.
pub(crate) proof fn lemma_cong_mul(a: int, a2: int, b: int, b2: int)
    requires
        cong(a, a2),
        cong(b, b2),
    ensures
        cong(a * b, a2 * b2),
{
    lemma_mul_mod_noop_general(a, b, modulus() as int);
    lemma_mul_mod_noop_general(a2, b2, modulus() as int);
}

/// A remainder modulo the order is the same as the number modulo the order.
pub(crate) proof fn lemma_cong_mod(a: int)
    ensures
        cong(a % (modulus() as int), a),
{
    vstd::arithmetic::div_mod::lemma_mod_twice(a, modulus() as int);
}

/// A product in the scalar field is the product modulo the order.
pub(crate) proof fn lemma_fr_mul(a: nat, b: nat)
    ensures
        cong(fr_mul(a, b) as int, (a as int) * (b as int)),
{
    lemma_cong_mod((a as int) * (b as int));
    assert(fr_mul(a, b) as int == ((a as int) * (b as int)) % (modulus() as int)) by {
        assert((a * b) as int == (a as int) * (b as int)) by (nonlinear_arith);
    }
}

/// A sum in the scalar field is the sum modulo the order.
pub(crate) proof fn lemma_fr_add(a: nat, b: nat)
    ensures
        cong(fr_add(a, b) as int, (a as int) + (b as int)),
{
    lemma_cong_mod((a as int) + (b as int));
}

/// In a model, an inner product in the first group reads as the sum of the
/// products of the readings and the scalars.
pub(crate) proof fn lemma_lincomb_g1(l1: Reading, l2: Reading, lp: Reading, bases: Seq<Seq<u8>>, x: Seq<nat>, n: nat)
    requires
        is_model(l1, l2, lp),
    ensures
        cong(l1(g1_lincomb(bases, x, n)), lin(l1, bases, x, n)),
    decreases n,
{
    if n > 0 {
        let m = (n - 1) as nat;
        lemma_lincomb_g1(l1, l2, lp, bases, x, m);
        let prev = g1_lincomb(bases, x, m);
        let term = g1_scale(bases[n - 1], x[n - 1]);
        assert(cong(l1(g1_sum(prev, term)), l1(prev) + l1(term)));
        assert(cong(l1(term), l1(bases[n - 1]) * (x[n - 1] as int)));
        lemma_cong_add(
            l1(prev),
            lin(l1, bases, x, m),
            l1(term),
            l1(bases[n - 1]) * (x[n - 1] as int),
        );
    }
}

/// In a model, an inner product in the second group reads as the sum of
/// the products of the readings and the scalars.
pub(crate) proof fn lemma_lincomb_g2(l1: Reading, l2: Reading, lp: Reading, bases: Seq<Seq<u8>>, x: Seq<nat>, n: nat)
    requires
        is_model(l1, l2, lp),
    ensures
        cong(l2(g2_lincomb(bases, x, n)), lin(l2, bases, x, n)),
    decreases n,
{
    if n > 0 {
        let m = (n - 1) as nat;
        lemma_lincomb_g2(l1, l2, lp, bases, x, m);
        let prev = g2_lincomb(bases, x, m);
        let term = g2_scale(bases[n - 1], x[n - 1]);
        assert(cong(l2(g2_sum(prev, term)), l2(prev) + l2(term)));
        assert(cong(l2(term), l2(bases[n - 1]) * (x[n - 1] as int)));
        lemma_cong_add(
            l2(prev),
            lin(l2, bases, x, m),
            l2(term),
            l2(bases[n - 1]) * (x[n - 1] as int),
        );
    }
}

/// The sum of the first `n` products of a number of `u` and the scalar of
/// `x` at the same place.
pub open spec fn sdot(u: Seq<int>, x: Seq<nat>, n: nat) -> int
    decreases n,
{
    if n == 0 {
        0
    } else {
        sdot(u, x, (n - 1) as nat) + u[n - 1] * (x[n - 1] as int)
    }
}

/// Where each base reads as `c` times a number, the sum of the bases times
/// their scalars reads as `c` times the sum of the numbers times the
/// scalars.
pub(crate) proof fn lemma_lin_scaled(l: Reading, bases: Seq<Seq<u8>>, x: Seq<nat>, c: int, u: Seq<int>, n: nat)
    requires
        forall|j: int| 0 <= j < n ==> cong(l(#[trigger] bases[j]), c * u[j]),
    ensures
        cong(lin(l, bases, x, n), c * sdot(u, x, n)),
    decreases n,
{
    if n > 0 {
        let j = (n - 1) as int;
        lemma_lin_scaled(l, bases, x, c, u, (n - 1) as nat);
        let xx = x[j] as int;
        assert(cong(l(bases[j]), c * u[j]));
        lemma_cong_mul(l(bases[j]), c * u[j], xx, xx);
        lemma_cong_add(
            lin(l, bases, x, (n - 1) as nat),
            c * sdot(u, x, (n - 1) as nat),
            l(bases[j]) * xx,
            c * u[j] * xx,
        );
        assert(c * sdot(u, x, (n - 1) as nat) + c * u[j] * xx == c * (sdot(u, x, (n - 1) as nat)
            + u[j] * xx)) by (nonlinear_arith);
    } else {
        assert(c * 0 == 0);
    }
}

/// A sum of products depends on the first `n` numbers and scalars only.
pub(crate) proof fn lemma_sdot_ext(u: Seq<int>, x: Seq<nat>, u2: Seq<int>, x2: Seq<nat>, n: nat)
    requires
        forall|j: int| 0 <= j < n ==> u[j] == u2[j] && x[j] == x2[j],
    ensures
        sdot(u, x, n) == sdot(u2, x2, n),
    decreases n,
{
    if n > 0 {
        lemma_sdot_ext(u, x, u2, x2, (n - 1) as nat);
    }
}

/// A sum of products is the sum over the first `a` places and the sum
/// over the places from `a` on.
pub(crate) proof fn lemma_sdot_split(u: Seq<int>, x: Seq<nat>, a: nat, n: nat)
    requires
        a <= n,
        n <= u.len(),
        n <= x.len(),
    ensures
        sdot(u, x, n) == sdot(u, x, a) + sdot(u.subrange(a as int, n as int), x.subrange(a as int, n as int), (n - a) as nat),
    decreases n,
{
    if n > a {
        let m = (n - 1) as nat;
        lemma_sdot_split(u, x, a, m);
        lemma_sdot_ext(
            u.subrange(a as int, n as int),
            x.subrange(a as int, n as int),
            u.subrange(a as int, m as int),
            x.subrange(a as int, m as int),
            (m - a) as nat,
        );
    }
}

/// The sum of products of `p` times one sequence, `q` times a second and a
/// third is `p` times the sum of the first, `q` times the sum of the second
/// and the sum of the third.
pub(crate) proof fn lemma_sdot_linear(
    p: int,
    q: int,
    a: Seq<int>,
    b: Seq<int>,
    c: Seq<int>,
    u: Seq<int>,
    x: Seq<nat>,
    n: nat,
)
    requires
        forall|j: int| 0 <= j < n ==> #[trigger] u[j] == p * a[j] + q * b[j] + c[j],
    ensures
        sdot(u, x, n) == p * sdot(a, x, n) + q * sdot(b, x, n) + sdot(c, x, n),
    decreases n,
{
    if n > 0 {
        let j = (n - 1) as int;
        let m = (n - 1) as nat;
        lemma_sdot_linear(p, q, a, b, c, u, x, m);
        let xx = x[j] as int;
        assert(u[j] == p * a[j] + q * b[j] + c[j]);
        let (aj, bj, cj) = (a[j], b[j], c[j]);
        let (sa, sb) = (sdot(a, x, m), sdot(b, x, m));
        assert((p * aj + q * bj + cj) * xx + p * sa + q * sb == p * (sa + aj * xx) + q * (sb + bj
            * xx) + cj * xx) by (nonlinear_arith);
    } else {
        assert(p * 0 + q * 0 + 0 == 0);
    }
}

} // verus!
