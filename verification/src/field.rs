use vstd::prelude::*;
use ark_bls12_377::Fr;
use ark_ff::BigInt;
use ark_ff::Field;
use ark_ff::PrimeField;
use ark_ff::UniformRand;
use ark_std::rand::rngs::StdRng;

verus! {

/// The generator of randomness that setup and proving draw from.
#[verifier::external_type_specification]
#[verifier::external_body]
pub struct ExStdRng(StdRng);

/// The prime order of the scalar field (and of the pairing groups).
pub open spec fn modulus() -> nat {
    8444461749428370424248824938781546531375899335154063827935233455917409239041nat
}

/// Two to the power 64: the weight of one limb.
pub open spec fn limb_base() -> nat {
    0x1_0000_0000_0000_0000nat
}

/// The number that four 64-bit limbs stand for, least significant limb first.
pub open spec fn limbs_value(l0: u64, l1: u64, l2: u64, l3: u64) -> nat {
    (l0 as nat) + limb_base() * ((l1 as nat) + limb_base() * ((l2 as nat) + limb_base() * (
    l3 as nat)))
}

/// Sum in the scalar field.
pub open spec fn fr_add(a: nat, b: nat) -> nat {
    (a + b) % modulus()
}

/// Difference in the scalar field, for `b` below the modulus.
pub open spec fn fr_sub(a: nat, b: nat) -> nat {
    ((a + modulus() - b) as nat) % modulus()
}

/// Product in the scalar field.
pub open spec fn fr_mul(a: nat, b: nat) -> nat {
    (a * b) % modulus()
}

/// `a` to the power `e` in the scalar field.
pub open spec fn fr_pow(a: nat, e: nat) -> nat
    decreases e,
{
    if e == 0 {
        1
    } else {
        fr_mul(a, fr_pow(a, (e - 1) as nat))
    }
}

/// The multiplicative inverse in the scalar field, by Fermat's little theorem.
pub open spec fn fr_inv(a: nat) -> nat {
    fr_pow(a, (modulus() - 2) as nat)
}

/// The lesser of two lengths.
pub open spec fn shorter(a: nat, b: nat) -> nat {
    if a <= b {
        a
    } else {
        b
    }
}

/// The views of a sequence of scalars.
pub open spec fn scalar_values(s: Seq<Scalar>) -> Seq<nat> {
    Seq::new(s.len(), |i: int| s[i]@)
}

/// An element of the scalar field, held as four limbs of its canonical
/// representative.
#[derive(Clone, Copy, Debug, PartialEq, Eq, Structural)]
pub struct Scalar {
    pub(crate) l0: u64,
    pub(crate) l1: u64,
    pub(crate) l2: u64,
    pub(crate) l3: u64,
}

impl View for Scalar {
    type V = nat;

    closed spec fn view(&self) -> nat {
        limbs_value(self.l0, self.l1, self.l2, self.l3)
    }
}

/// A pair of a limb and a higher part determines both.
proof fn lemma_limb_split(a: u64, x: nat, b: u64, y: nat)
    requires
        a + limb_base() * x == b + limb_base() * y,
    ensures
        a == b,
        x == y,
{
    if x < y {
        assert(limb_base() * y >= limb_base() * x + limb_base()) by (nonlinear_arith)
            requires
                x < y,
        ;
    } else if y < x {
        assert(limb_base() * x >= limb_base() * y + limb_base()) by (nonlinear_arith)
            requires
                y < x,
        ;
    }
}

/// Different limbs stand for different numbers.
pub(crate) proof fn lemma_limbs_injective(a0: u64, a1: u64, a2: u64, a3: u64, b0: u64, b1: u64, b2: u64, b3: u64)
    requires
        limbs_value(a0, a1, a2, a3) == limbs_value(b0, b1, b2, b3),
    ensures
        a0 == b0,
        a1 == b1,
        a2 == b2,
        a3 == b3,
{
    let xa2 = (a2 as nat) + limb_base() * (a3 as nat);
    let xb2 = (b2 as nat) + limb_base() * (b3 as nat);
    let xa1 = (a1 as nat) + limb_base() * xa2;
    let xb1 = (b1 as nat) + limb_base() * xb2;
    lemma_limb_split(a0, xa1, b0, xb1);
    lemma_limb_split(a1, xa2, b1, xb2);
    lemma_limb_split(a2, a3 as nat, b2, b3 as nat);
}

impl Scalar {
    #[verifier::type_invariant]
    spec fn reduced(self) -> bool {
        limbs_value(self.l0, self.l1, self.l2, self.l3) < modulus()
    }

    /// The scalar with the given limbs, least significant first, if they
    /// stand for a number below the modulus.
    pub fn from_limbs(limbs: [u64; 4]) -> (r: Option<Scalar>)
        ensures
            r.is_some() == (limbs_value(limbs[0], limbs[1], limbs[2], limbs[3]) < modulus()),
            r.is_some() ==> r.unwrap()@ == limbs_value(limbs[0], limbs[1], limbs[2], limbs[3]),
    {
        let l0: u64 = limbs[0];
        let l1: u64 = limbs[1];
        let l2: u64 = limbs[2];
        let l3: u64 = limbs[3];
        let below: bool = if l3 != 0x12ab655e9a2ca556 {
            l3 < 0x12ab655e9a2ca556
        } else if l2 != 0x60b44d1e5c37b001 {
            l2 < 0x60b44d1e5c37b001
        } else if l1 != 0x59aa76fed0000001 {
            l1 < 0x59aa76fed0000001
        } else {
            l0 < 0x0a11800000000001
        };
        proof {
            assert(modulus() == limbs_value(
                0x0a11800000000001,
                0x59aa76fed0000001,
                0x60b44d1e5c37b001,
                0x12ab655e9a2ca556,
            ));
        }
        if below {
            Some(Scalar { l0, l1, l2, l3 })
        } else {
            None
        }
    }

    /// The limbs of the canonical representative, least significant first.
    pub fn to_limbs(&self) -> (r: [u64; 4])
        ensures
            limbs_value(r[0], r[1], r[2], r[3]) == self@,
            self@ < modulus(),
    {
        proof {
            use_type_invariant(self);
        }
        [self.l0, self.l1, self.l2, self.l3]
    }

    /// The scalar that a 64-bit number stands for.
    pub fn from_u64(x: u64) -> (r: Scalar)
        ensures
            r@ == x,
    {
        Scalar { l0: x, l1: 0, l2: 0, l3: 0 }
    }

    pub fn zero() -> (r: Scalar)
        ensures
            r@ == 0,
    {
        Scalar { l0: 0, l1: 0, l2: 0, l3: 0 }
    }

    pub fn one() -> (r: Scalar)
        ensures
            r@ == 1,
    {
        Scalar { l0: 1, l1: 0, l2: 0, l3: 0 }
    }

    pub fn is_zero(&self) -> (r: bool)
        ensures
            r == (self@ == 0),
    {
        self.l0 == 0 && self.l1 == 0 && self.l2 == 0 && self.l3 == 0
    }

    /// Whether two scalars are the same field element.
    pub fn same(&self, other: &Scalar) -> (r: bool)
        ensures
            r == (self@ == other@),
    {
        proof {
            if self@ == other@ {
                lemma_limbs_injective(
                    self.l0,
                    self.l1,
                    self.l2,
                    self.l3,
                    other.l0,
                    other.l1,
                    other.l2,
                    other.l3,
                );
            }
        }
        self.l0 == other.l0 && self.l1 == other.l1 && self.l2 == other.l2 && self.l3 == other.l3
    }
}

/// `Fr`'s addition: the sum of the two representatives, reduced by the modulus.
#[verifier::external_body]
pub(crate) fn scalar_add(a: &Scalar, b: &Scalar) -> (r: Scalar)
    ensures
        r@ == fr_add(a@, b@),
{
    let x = Fr::from_bigint(BigInt([a.l0, a.l1, a.l2, a.l3])).unwrap();
    let y = Fr::from_bigint(BigInt([b.l0, b.l1, b.l2, b.l3])).unwrap();
    let l = (x + y).into_bigint().0;
    Scalar { l0: l[0], l1: l[1], l2: l[2], l3: l[3] }
}

/// `Fr`'s subtraction: the difference of the two representatives, reduced by
/// the modulus.
#[verifier::external_body]
pub(crate) fn scalar_sub(a: &Scalar, b: &Scalar) -> (r: Scalar)
    ensures
        r@ == fr_sub(a@, b@),
{
    let x = Fr::from_bigint(BigInt([a.l0, a.l1, a.l2, a.l3])).unwrap();
    let y = Fr::from_bigint(BigInt([b.l0, b.l1, b.l2, b.l3])).unwrap();
    let l = (x - y).into_bigint().0;
    Scalar { l0: l[0], l1: l[1], l2: l[2], l3: l[3] }
}

/// `Fr`'s multiplication: the product of the two representatives, reduced by
/// the modulus.
#[verifier::external_body]
pub(crate) fn scalar_mul(a: &Scalar, b: &Scalar) -> (r: Scalar)
    ensures
        r@ == fr_mul(a@, b@),
{
    let x = Fr::from_bigint(BigInt([a.l0, a.l1, a.l2, a.l3])).unwrap();
    let y = Fr::from_bigint(BigInt([b.l0, b.l1, b.l2, b.l3])).unwrap();
    let l = (x * y).into_bigint().0;
    Scalar { l0: l[0], l1: l[1], l2: l[2], l3: l[3] }
}

/// `Field::inverse` on `Fr`: nothing for zero, else the one scalar whose
/// product with the argument is one, which is the argument to the power of
/// the modulus less two.
#[verifier::external_body]
pub(crate) fn scalar_inverse(a: &Scalar) -> (r: Option<Scalar>)
    ensures
        r.is_some() == (a@ != 0),
        r.is_some() ==> fr_mul(a@, r.unwrap()@) == 1,
        r.is_some() ==> r.unwrap()@ == fr_inv(a@),
{
    let x = Fr::from_bigint(BigInt([a.l0, a.l1, a.l2, a.l3])).unwrap();
    x.inverse().map(|y| {
        let l = y.into_bigint().0;
        Scalar { l0: l[0], l1: l[1], l2: l[2], l3: l[3] }
    })
}

/// `Field::pow` on `Fr` with a one-limb exponent.
#[verifier::external_body]
pub(crate) fn scalar_pow(a: &Scalar, e: u64) -> (r: Scalar)
    ensures
        r@ == fr_pow(a@, e as nat),
{
    let x = Fr::from_bigint(BigInt([a.l0, a.l1, a.l2, a.l3])).unwrap();
    let l = x.pow([e]).into_bigint().0;
    Scalar { l0: l[0], l1: l[1], l2: l[2], l3: l[3] }
}

/// `UniformRand::rand` for `Fr`: some scalar, drawn from the generator.
#[verifier::external_body]
pub(crate) fn scalar_rand(rng: &mut StdRng) -> (r: Scalar) {
    let l = Fr::rand(rng).into_bigint().0;
    Scalar { l0: l[0], l1: l[1], l2: l[2], l3: l[3] }
}

} // verus!
