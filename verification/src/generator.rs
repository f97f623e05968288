use vstd::prelude::*;
use crate::data_structures::ProvingKey;
use crate::data_structures::ProvingKeyCommon;
use crate::data_structures::ProvingKeyCommonView;
use crate::data_structures::ProvingKeyWithLink;
use crate::data_structures::VerifyingKey;
use crate::data_structures::VerifyingKeyView;
use crate::data_structures::VerifyingKeyWithLink;
use crate::domain::lagrange_coefficients;
use crate::domain::lemma_domain_size;
use crate::domain::sample_outside_domain;
use crate::domain::vanishing_at;
use crate::error::Error;
use crate::field::Scalar;
use crate::field::fr_add;
use crate::field::fr_inv;
use crate::field::fr_mul;
use crate::field::fr_pow;
use crate::field::scalar_add;
use crate::field::scalar_inverse;
use crate::field::scalar_mul;
use crate::field::scalar_pow;
use crate::field::scalar_rand;
use crate::g1::G1Point;
use crate::g1::G1_GENERATOR;
use crate::g1::g1_fixed_msm;
use crate::g1::g1_generator;
use crate::g1::g1_mul;
use crate::g1::g1_rand;
use crate::g1::g1_scale;
use crate::g1::g1_table;
use crate::g1::g1_window_table;
use crate::g2::G2Point;
use crate::g2::G2_GENERATOR;
use crate::g2::g2_fixed_msm;
use crate::g2::g2_generator;
use crate::g2::g2_mul;
use crate::g2::g2_rand;
use crate::g2::g2_scale;
use crate::g2::g2_table;
use crate::g2::g2_window_table;
use crate::link::matrix::CoeffPos;
use crate::link::matrix::SparseMatrix;
use crate::link::matrix::col_within;
use crate::link::matrix::empty_columns;
use crate::link::matrix::with_row;
use crate::link::snark::PESubspaceSnark;
use crate::link::snark::PP;
use crate::link::snark::SubspaceSnark;
use crate::link::snark::is_key_pair;
use crate::r1cs::ConstraintSystem;
use crate::window::get_mul_window_size;
use crate::r1cs_to_qap::InstanceMap;
use crate::r1cs_to_qap::domain_of;
use crate::r1cs_to_qap::instance_map_with_evaluation;
use crate::r1cs_to_qap::instance_start;
use crate::r1cs_to_qap::qap_eval;
use ark_std::rand::rngs::StdRng;

verus! {

/// The number of bits of the scalar field's modulus.
pub const SCALAR_BITS: usize = 253;

/// The secret scalars of a setup. Who knows them can forge proofs: they are
/// to be dropped once the keys are made.
#[derive(Clone, Copy, Debug)]
pub struct ToxicWaste {
    pub alpha: Scalar,
    pub beta: Scalar,
    pub gamma: Scalar,
    pub delta: Scalar,
    pub eta: Scalar,
}

/// The value at `t` of variable `j`'s polynomial of the first matrix.
pub open spec fn qap_a(cs: ConstraintSystem, size: nat, t: nat, j: int) -> nat {
    let u = lagrange_coefficients(size, t);
    qap_eval(instance_start(cs, u, j), cs.a@, u, j, cs.num_constraints as nat)
}

/// The value at `t` of variable `j`'s polynomial of the second matrix.
pub open spec fn qap_b(cs: ConstraintSystem, size: nat, t: nat, j: int) -> nat {
    qap_eval(0, cs.b@, lagrange_coefficients(size, t), j, cs.num_constraints as nat)
}

/// The value at `t` of variable `j`'s polynomial of the third matrix.
pub open spec fn qap_c(cs: ConstraintSystem, size: nat, t: nat, j: int) -> nat {
    qap_eval(0, cs.c@, lagrange_coefficients(size, t), j, cs.num_constraints as nat)
}

/// `beta` times the first value, `alpha` times the second, and the third.
pub open spec fn combined(alpha: nat, beta: nat, a: nat, b: nat, c: nat) -> nat {
    fr_add(fr_add(fr_mul(beta, a), fr_mul(alpha, b)), c)
}

/// The scalar of the `i`-th element of the query for the quotient: the
/// vanishing polynomial at `t`, divided by `delta`, times `t` to the `i`.
pub open spec fn h_scalar(size: nat, t: nat, delta: nat, i: nat) -> nat {
    fr_mul(fr_mul(vanishing_at(size, t), fr_inv(delta)), fr_pow(t, i))
}

/// Whether the verifying key is the one that the secret scalars, the point
/// `t` and the generator of each group give for a constraint system over
/// the domain of the given size.
pub open spec fn is_verifying_key(
    cs: ConstraintSystem,
    w: ToxicWaste,
    t: nat,
    g1: Seq<u8>,
    g2: Seq<u8>,
    size: nat,
    vk: VerifyingKeyView,
) -> bool {
    &&& vk.alpha_g1 == g1_scale(g1, w.alpha@)
    &&& vk.beta_g2 == g2_scale(g2, w.beta@)
    &&& vk.gamma_g2 == g2_scale(g2, w.gamma@)
    &&& vk.delta_g2 == g2_scale(g2, w.delta@)
    &&& vk.eta_gamma_inv_g1 == g1_scale(g1, fr_mul(w.eta@, fr_inv(w.gamma@)))
    &&& vk.gamma_abc_g1.len() == cs.num_variables()
    &&& forall|j: int|
        0 <= j < cs.num_variables() ==> #[trigger] vk.gamma_abc_g1[j] == g1_scale(
            g1,
            fr_mul(
                combined(
                    w.alpha@,
                    w.beta@,
                    qap_a(cs, size, t, j),
                    qap_b(cs, size, t, j),
                    qap_c(cs, size, t, j),
                ),
                fr_inv(w.gamma@),
            ),
        )
}

/// Whether the common part of the proving key is the one that the secret
/// scalars, the point `t` and the generator of each group give for a
/// constraint system over the domain of the given size. Every witness
/// variable is committed to, so the query for the others is empty.
pub open spec fn is_proving_key_common(
    cs: ConstraintSystem,
    w: ToxicWaste,
    t: nat,
    g1: Seq<u8>,
    g2: Seq<u8>,
    size: nat,
    pk: ProvingKeyCommonView,
) -> bool {
    &&& pk.beta_g1 == g1_scale(g1, w.beta@)
    &&& pk.delta_g1 == g1_scale(g1, w.delta@)
    &&& pk.eta_delta_inv_g1 == g1_scale(g1, fr_mul(w.eta@, fr_inv(w.delta@)))
    &&& pk.a_query.len() == cs.num_variables()
    &&& pk.b_g1_query.len() == cs.num_variables()
    &&& pk.b_g2_query.len() == cs.num_variables()
    &&& forall|j: int|
        0 <= j < cs.num_variables() ==> #[trigger] pk.a_query[j] == g1_scale(
            g1,
            qap_a(cs, size, t, j),
        )
    &&& forall|j: int|
        0 <= j < cs.num_variables() ==> #[trigger] pk.b_g1_query[j] == g1_scale(
            g1,
            qap_b(cs, size, t, j),
        )
    &&& forall|j: int|
        0 <= j < cs.num_variables() ==> #[trigger] pk.b_g2_query[j] == g2_scale(
            g2,
            qap_b(cs, size, t, j),
        )
    &&& pk.h_query.len() == size - 1
    &&& forall|i: int|
        0 <= i < size - 1 ==> #[trigger] pk.h_query[i] == g1_scale(
            g1,
            h_scalar(size, t, w.delta@, i as nat),
        )
    &&& pk.l_query.len() == 0
}

/// Whether `gamma` and `delta` times their inverses are one.
pub open spec fn inverses_hold(w: ToxicWaste) -> bool {
    fr_mul(w.gamma@, fr_inv(w.gamma@)) == 1 && fr_mul(w.delta@, fr_inv(w.delta@)) == 1
}

/// Whether a setup succeeds: the constraint system has a domain, and
/// `gamma` and `delta` have inverses.
pub open spec fn can_set_up(cs: ConstraintSystem, w: ToxicWaste) -> bool {
    domain_of(cs).is_some() && w.gamma@ != 0 && w.delta@ != 0
}

/// The error that a setup ends with where it does not succeed.
pub open spec fn setup_error(cs: ConstraintSystem) -> Error {
    if domain_of(cs).is_none() {
        Error::PolynomialDegreeTooLarge
    } else {
        Error::UnexpectedIdentity
    }
}

/// The number of the first `n` scalars that are not zero.
pub open spec fn nonzero_count(v: Seq<Scalar>, n: nat) -> nat
    decreases n,
{
    if n == 0 {
        0
    } else {
        nonzero_count(v, (n - 1) as nat) + if v[n - 1]@ != 0 {
            1nat
        } else {
            0nat
        }
    }
}

/// Counts those of the first `n` scalars that are not zero.
fn count_nonzero(v: &Vec<Scalar>, n: usize) -> (r: usize)
    requires
        n <= v@.len(),
    ensures
        r == nonzero_count(v@, n as nat),
        r <= n,
{
    let mut r: usize = 0;
    let mut i: usize = 0;
    while i < n
        invariant
            i <= n,
            n <= v@.len(),
            r <= i,
            r == nonzero_count(v@, i as nat),
        decreases n - i,
    {
        if !v[i].is_zero() {
            r = r + 1;
        }
        i = i + 1;
    }
    r
}

/// For each variable, `beta` times its first value, `alpha` times its
/// second, and its third, all times `inverse`.
fn combine(m: &InstanceMap, alpha: &Scalar, beta: &Scalar, inverse: &Scalar) -> (r: Vec<Scalar>)
    requires
        m.b@.len() == m.a@.len(),
        m.c@.len() == m.a@.len(),
    ensures
        r@.len() == m.a@.len(),
        forall|j: int|
            0 <= j < m.a@.len() ==> (#[trigger] r@[j])@ == fr_mul(
                combined(alpha@, beta@, m.a@[j]@, m.b@[j]@, m.c@[j]@),
                inverse@,
            ),
{
    let n: usize = m.a.len();
    let mut r: Vec<Scalar> = Vec::new();
    let mut j: usize = 0;
    while j < n
        invariant
            j <= n,
            n == m.a@.len(),
            n == m.b@.len(),
            n == m.c@.len(),
            r@.len() == j,
            forall|i: int|
                0 <= i < j ==> (#[trigger] r@[i])@ == fr_mul(
                    combined(alpha@, beta@, m.a@[i]@, m.b@[i]@, m.c@[i]@),
                    inverse@,
                ),
        decreases n - j,
    {
        let beta_a = scalar_mul(beta, &m.a[j]);
        let alpha_b = scalar_mul(alpha, &m.b[j]);
        let sum = scalar_add(&scalar_add(&beta_a, &alpha_b), &m.c[j]);
        r.push(scalar_mul(&sum, inverse));
        j = j + 1;
    }
    r
}

/// The scalars of the query for the quotient: `zt` times `delta_inverse`
/// times the powers of `t`, one fewer than the domain has elements.
fn quotient_scalars(zt: &Scalar, delta_inverse: &Scalar, t: &Scalar, size: usize) -> (r: Vec<Scalar>)
    requires
        size >= 1,
    ensures
        r@.len() == size - 1,
        forall|i: int|
            0 <= i < size - 1 ==> (#[trigger] r@[i])@ == fr_mul(
                fr_mul(zt@, delta_inverse@),
                fr_pow(t@, i as nat),
            ),
{
    let n: usize = size - 1;
    let mut r: Vec<Scalar> = Vec::new();
    let mut i: usize = 0;
    while i < n
        invariant
            i <= n,
            r@.len() == i,
            forall|k: int|
                0 <= k < i ==> (#[trigger] r@[k])@ == fr_mul(
                    fr_mul(zt@, delta_inverse@),
                    fr_pow(t@, k as nat),
                ),
        decreases n - i,
    {
        let power = scalar_pow(t, i as u64);
        r.push(scalar_mul(&scalar_mul(zt, delta_inverse), &power));
        i = i + 1;
    }
    r
}

/// The keys for a constraint system that the secret scalars give with the
/// point `t` and the generators `g1_generator` and `g2_generator`, and the
/// number of instance variables.
pub fn derive_parameters(
    cs: &ConstraintSystem,
    waste: &ToxicWaste,
    t: &Scalar,
    g1_generator: &G1Point,
    g2_generator: &G2Point,
) -> (r: Result<(ProvingKey, usize), Error>)
    requires
        cs.well_formed(),
    ensures
        r.is_ok() == can_set_up(*cs, *waste),
        r.is_ok() ==> inverses_hold(*waste),
        r.is_ok() ==> r.unwrap().1 == cs.num_instance_variables,
        r.is_ok() ==> is_verifying_key(
            *cs,
            *waste,
            t@,
            g1_generator@,
            g2_generator@,
            domain_of(*cs).unwrap(),
            r.unwrap().0.vk@,
        ),
        r.is_ok() ==> is_proving_key_common(
            *cs,
            *waste,
            t@,
            g1_generator@,
            g2_generator@,
            domain_of(*cs).unwrap(),
            r.unwrap().0.common@,
        ),
        r.is_err() ==> r.unwrap_err() == setup_error(*cs),
{
    let num_instance_var: usize = cs.num_instance_variables;
    let num_instance_variables: usize = num_instance_var + cs.num_witness_variables;
    let m = match instance_map_with_evaluation(cs, t) {
        Ok(m) => m,
        Err(e) => {
            return Err(e);
        },
    };
    let ghost size = domain_of(*cs).unwrap();
    proof {
        lemma_domain_size((cs.num_constraints + cs.num_instance_variables) as nat);
    }
    let qap_num_variables: usize = m.qap_num_variables;
    let m_raw: usize = m.domain_size;

    let non_zero_a: usize = count_nonzero(&m.a, qap_num_variables);
    let non_zero_b: usize = count_nonzero(&m.b, qap_num_variables);

    let gamma_inverse = match scalar_inverse(&waste.gamma) {
        Some(x) => x,
        None => {
            return Err(Error::UnexpectedIdentity);
        },
    };
    let delta_inverse = match scalar_inverse(&waste.delta) {
        Some(x) => x,
        None => {
            return Err(Error::UnexpectedIdentity);
        },
    };

    let gamma_abc = combine(&m, &waste.alpha, &waste.beta, &gamma_inverse);
    let l = combine(&m, &waste.alpha, &waste.beta, &delta_inverse);

    let g2_window: usize = get_mul_window_size(non_zero_b);
    let g2_table = g2_window_table(SCALAR_BITS, g2_window, g2_generator);
    let b_g2_query = g2_fixed_msm(SCALAR_BITS, g2_window, &g2_table, m.b.as_slice());

    let g1_window: usize = get_mul_window_size(
        non_zero_a.saturating_add(non_zero_b).saturating_add(qap_num_variables).saturating_add(
            m_raw,
        ).saturating_add(1),
    );
    let g1_table = g1_window_table(SCALAR_BITS, g1_window, g1_generator);

    let alpha_g1 = g1_mul(g1_generator, &waste.alpha);
    let beta_g1 = g1_mul(g1_generator, &waste.beta);
    let beta_g2 = g2_mul(g2_generator, &waste.beta);
    let delta_g1 = g1_mul(g1_generator, &waste.delta);
    let delta_g2 = g2_mul(g2_generator, &waste.delta);

    let a_query = g1_fixed_msm(SCALAR_BITS, g1_window, &g1_table, m.a.as_slice());
    let b_g1_query = g1_fixed_msm(SCALAR_BITS, g1_window, &g1_table, m.b.as_slice());
    let h_scalars = quotient_scalars(&m.zt, &delta_inverse, t, m_raw);
    let h_query = g1_fixed_msm(SCALAR_BITS, g1_window, &g1_table, h_scalars.as_slice());
    let l_tail = vstd::slice::slice_subrange(l.as_slice(), num_instance_variables, l.len());
    let l_query = g1_fixed_msm(SCALAR_BITS, g1_window, &g1_table, l_tail);

    let gamma_g2 = g2_mul(g2_generator, &waste.gamma);
    let gamma_abc_g1 = g1_fixed_msm(SCALAR_BITS, g1_window, &g1_table, gamma_abc.as_slice());
    let eta_gamma_inv_g1 = g1_mul(g1_generator, &scalar_mul(&waste.eta, &gamma_inverse));

    let vk = VerifyingKey { alpha_g1, beta_g2, gamma_g2, delta_g2, gamma_abc_g1, eta_gamma_inv_g1 };

    let eta_delta_inv_g1 = g1_mul(g1_generator, &scalar_mul(&waste.eta, &delta_inverse));

    let pk_common = ProvingKeyCommon {
        beta_g1,
        delta_g1,
        eta_delta_inv_g1,
        a_query,
        b_g1_query,
        b_g2_query,
        h_query,
        l_query,
    };
    Ok((ProvingKey { vk, common: pk_common }, num_instance_var))
}

/// Whether `key` is a pair of keys for a constraint system that some point
/// outside the domain and some generators give with the secret scalars.
pub open spec fn is_setup(cs: ConstraintSystem, waste: ToxicWaste, key: ProvingKey) -> bool {
    exists|t: nat, g1: Seq<u8>, g2: Seq<u8>|
        {
            &&& vanishing_at(domain_of(cs).unwrap(), t) != 0
            &&& #[trigger] is_verifying_key(cs, waste, t, g1, g2, domain_of(cs).unwrap(), key.vk@)
            &&& is_proving_key_common(cs, waste, t, g1, g2, domain_of(cs).unwrap(), key.common@)
        }
}

/// The matrix of the link, column by column: in the first row the bases of
/// the commitment held elsewhere; in the second the key's elements for the
/// committed witnesses and, one column after the blinding scalar of the
/// first row, its element for the blinding scalar of the proof's
/// commitment.
pub open spec fn link_columns(bases: Seq<G1Point>, committed: Seq<G1Point>, eta: G1Point) -> Seq<
    Seq<CoeffPos<G1Point>>,
> {
    with_row(
        with_row(with_row(empty_columns((bases.len() + 1) as nat), 0, 0, bases), 1, 0, committed),
        1,
        (committed.len() + 1) as usize,
        seq![eta],
    )
}

/// Whether `key` is a proving key with a link for a constraint system and
/// the given bases: a pair of keys that the secret scalars give, and the
/// keys of the link that some secret row scalars and mask give for the
/// matrix of the link.
pub open spec fn is_setup_with_link(
    cs: ConstraintSystem,
    bases: Seq<G1Point>,
    waste: ToxicWaste,
    key: ProvingKeyWithLink,
) -> bool {
    &&& is_setup(cs, waste, ProvingKey { vk: key.vk.groth16_vk, common: key.common })
    &&& key.vk.link_pp.l == 2
    &&& key.vk.link_pp.t == bases.len() + 1
    &&& key.vk.link_pp.g1@ == G1_GENERATOR@
    &&& key.vk.link_pp.g2@ == G2_GENERATOR@
    &&& key.vk.link_bases@ == bases
    &&& exists|k: Seq<nat>, a: nat|
        k.len() == 2 && #[trigger] is_key_pair(
            key.vk.link_pp,
            link_columns(
                bases,
                key.vk.groth16_vk.gamma_abc_g1@.skip(cs.num_instance_variables as int),
                key.vk.groth16_vk.eta_gamma_inv_g1,
            ),
            k,
            a,
            key.link_ek,
            key.vk.link_vk,
        )
}

/// Draws the five secret scalars of a setup.
fn generate_randomness(rng: &mut StdRng) -> (w: ToxicWaste) {
    let alpha = scalar_rand(rng);
    let beta = scalar_rand(rng);
    let gamma = scalar_rand(rng);
    let delta = scalar_rand(rng);
    let eta = scalar_rand(rng);
    ToxicWaste { alpha, beta, gamma, delta, eta }
}

/// Creates the keys for a constraint system from the given secret scalars,
/// with a point outside the domain and generators drawn from `rng`. Gives
/// the number of instance variables with them.
pub fn generate_parameters(
    cs: &ConstraintSystem,
    alpha: Scalar,
    beta: Scalar,
    gamma: Scalar,
    delta: Scalar,
    eta: Scalar,
    rng: &mut StdRng,
) -> (r: Result<(ProvingKey, usize), Error>)
    requires
        cs.well_formed(),
    ensures
        r.is_ok() == can_set_up(*cs, ToxicWaste { alpha, beta, gamma, delta, eta }),
        r.is_ok() ==> inverses_hold(ToxicWaste { alpha, beta, gamma, delta, eta }),
        r.is_ok() ==> r.unwrap().1 == cs.num_instance_variables,
        r.is_ok() ==> is_setup(*cs, ToxicWaste { alpha, beta, gamma, delta, eta }, r.unwrap().0),
        r.is_err() ==> r.unwrap_err() == setup_error(*cs),
{
    let waste = ToxicWaste { alpha, beta, gamma, delta, eta };
    let request: usize = match cs.num_constraints.checked_add(cs.num_instance_variables) {
        Some(n) => n,
        None => {
            return Err(Error::PolynomialDegreeTooLarge);
        },
    };
    let size: usize = match crate::domain::domain_size(request) {
        Some(s) => s,
        None => {
            return Err(Error::PolynomialDegreeTooLarge);
        },
    };
    proof {
        lemma_domain_size(request as nat);
    }
    let t = sample_outside_domain(size, rng);
    let g1_generator = g1_rand(rng);
    let g2_generator = g2_rand(rng);
    let r = derive_parameters(cs, &waste, &t, &g1_generator, &g2_generator);
    proof {
        if r.is_ok() {
            assert(is_verifying_key(
                *cs,
                waste,
                t@,
                g1_generator@,
                g2_generator@,
                domain_of(*cs).unwrap(),
                r.unwrap().0.vk@,
            ));
        }
    }
    r
}

/// Creates the keys for a constraint system, with secret scalars drawn
/// from `rng`.
pub fn generate_random_parameters(cs: &ConstraintSystem, rng: &mut StdRng) -> (r: Result<
    ProvingKey,
    Error,
>)
    requires
        cs.well_formed(),
    ensures
        domain_of(*cs).is_none() ==> r.is_err(),
        r.is_ok() ==> exists|waste: ToxicWaste| #[trigger]
            can_set_up(*cs, waste) && inverses_hold(waste) && is_setup(*cs, waste, r.unwrap()),
        r.is_err() ==> r.unwrap_err() == setup_error(*cs),
{
    let waste = generate_randomness(rng);
    match generate_parameters(
        cs,
        waste.alpha,
        waste.beta,
        waste.gamma,
        waste.delta,
        waste.eta,
        rng,
    ) {
        Ok((pk, _)) => {
            assert(can_set_up(*cs, waste));
            Ok(pk)
        },
        Err(e) => Err(e),
    }
}

/// Creates the keys for a constraint system and for the link of its
/// commitment to the commitment under the given bases, with secrets drawn
/// from `rng`. There have to be more bases than witness variables.
pub fn generate_random_parameters_with_link(
    cs: &ConstraintSystem,
    pedersen_bases: &[G1Point],
    rng: &mut StdRng,
) -> (r: Result<ProvingKeyWithLink, Error>)
    requires
        cs.well_formed(),
        cs.num_witness_variables < pedersen_bases@.len(),
        pedersen_bases@.len() < usize::MAX,
    ensures
        domain_of(*cs).is_none() ==> r.is_err(),
        r.is_ok() ==> exists|waste: ToxicWaste| #[trigger]
            can_set_up(*cs, waste) && inverses_hold(waste) && is_setup_with_link(
                *cs,
                pedersen_bases@,
                waste,
                r.unwrap(),
            ),
        r.is_err() ==> r.unwrap_err() == setup_error(*cs),
{
    let waste = generate_randomness(rng);
    let (groth16_pk, num_instance_variables) = match generate_parameters(
        cs,
        waste.alpha,
        waste.beta,
        waste.gamma,
        waste.delta,
        waste.eta,
        rng,
    ) {
        Ok(keys) => keys,
        Err(e) => {
            return Err(e);
        },
    };
    assert(can_set_up(*cs, waste));

    let link_rows: usize = 2;
    let link_cols: usize = pedersen_bases.len() + 1;
    let link_pp = PP { l: link_rows, t: link_cols, g1: g1_generator(), g2: g2_generator() };

    let mut link_m = SparseMatrix::<G1Point>::new(link_rows, link_cols);
    let total: usize = groth16_pk.vk.gamma_abc_g1.len();
    assert(groth16_pk.vk@.gamma_abc_g1.len() == total);
    let committed = vstd::slice::slice_subrange(
        groth16_pk.vk.gamma_abc_g1.as_slice(),
        num_instance_variables,
        total,
    );
    assert(committed@ =~= groth16_pk.vk.gamma_abc_g1@.skip(num_instance_variables as int));
    let commit_witness_count: usize = committed.len();
    link_m.insert_row_slice(0, 0, pedersen_bases);
    link_m.insert_row_slice(1, 0, committed);
    let eta = [groth16_pk.vk.eta_gamma_inv_g1];
    assert(eta@ =~= seq![groth16_pk.vk.eta_gamma_inv_g1]);
    link_m.insert_row_slice(1, commit_witness_count + 1, eta.as_slice());
    let ghost cols = link_m.columns();
    assert(cols == link_columns(pedersen_bases@, committed@, groth16_pk.vk.eta_gamma_inv_g1));
    assert forall|c: int| 0 <= c < cols.len() implies col_within(#[trigger] cols[c], 2) by {
        assert forall|k: int| 0 <= k < cols[c].len() implies (#[trigger] cols[c][k]).pos < 2 by {}
    }

    let (link_ek, link_vk) = PESubspaceSnark::keygen(rng, &link_pp, link_m);
    let ghost secrets = choose|k: Seq<nat>, a: nat|
        k.len() == link_pp.l && is_key_pair(link_pp, cols, k, a, link_ek, link_vk);
    let bases = concat_points(pedersen_bases);
    let vk = VerifyingKeyWithLink {
        groth16_vk: groth16_pk.vk,
        link_pp,
        link_bases: bases,
        link_vk,
    };
    let key = ProvingKeyWithLink { vk, common: groth16_pk.common, link_ek };
    proof {
        assert(ProvingKey { vk: key.vk.groth16_vk, common: key.common } == groth16_pk);
        assert(is_setup(*cs, waste, ProvingKey { vk: key.vk.groth16_vk, common: key.common }));
        assert(key.vk.link_bases@ == pedersen_bases@);
        assert(is_key_pair(key.vk.link_pp, cols, secrets.0, secrets.1, key.link_ek, key.vk.link_vk));
        assert(is_setup_with_link(*cs, pedersen_bases@, waste, key));
    }
    Ok(key)
}

/// The points of a slice, as a vector of their own.
fn concat_points(points: &[G1Point]) -> (r: Vec<G1Point>)
    ensures
        r@ == points@,
{
    let mut r: Vec<G1Point> = Vec::new();
    let n: usize = points.len();
    let mut i: usize = 0;
    while i < n
        invariant
            i <= n,
            n == points@.len(),
            r@ == points@.subrange(0, i as int),
        decreases n - i,
    {
        r.push(points[i]);
        assert(r@ =~= points@.subrange(0, i + 1));
        i = i + 1;
    }
    assert(r@ =~= points@);
    r
}

} // verus!
