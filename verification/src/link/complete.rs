use vstd::prelude::*;
use crate::field::fr_mul;
use crate::field::modulus;
use crate::g1::G1Point;
use crate::g1::g1_identity;
use crate::g1::g1_lincomb;
use crate::g1::g1_scale;
use crate::g1::g1_sum;
use crate::g1::g1_views;
use crate::g2::G2Point;
use crate::g2::g2_neg;
use crate::g2::g2_scale;
use crate::link::matrix::CoeffPos;
use crate::link::matrix::col_within;
use crate::link::matrix::sparse_sum;
use crate::link::snark::EK;
use crate::link::snark::PP;
use crate::link::snark::VK;
use crate::link::snark::accepts;
use crate::link::snark::is_key_pair;
use crate::link::snark::verify_lhs;
use crate::link::snark::verify_rhs;
use crate::model::Reading;
use crate::model::cong;
use crate::model::is_model;
use crate::model::lemma_cong_add;
use crate::model::lemma_cong_mod;
use crate::model::lemma_cong_mul;
use crate::model::lemma_lincomb_g1;
use crate::model::lin;
use crate::model::pair_dot;
use crate::pairing::g2_prepared;

verus! {

/// `acc` and, for each of the first `m` entries of a column that stands in
/// row `i`, its value taken `s` times.
pub open spec fn column_part(acc: Seq<u8>, col: Seq<CoeffPos<G1Point>>, s: nat, i: int, m: nat) -> Seq<
    u8,
>
    decreases m,
{
    if m == 0 {
        acc
    } else {
        let prev = column_part(acc, col, s, i, (m - 1) as nat);
        if col[m - 1].pos == i {
            g1_sum(prev, g1_scale(col[m - 1].val@, s))
        } else {
            prev
        }
    }
}

/// What the first `n` columns give to row `i` of the product of a matrix
/// with the vector `x`.
pub open spec fn image_sum(cols: Seq<Seq<CoeffPos<G1Point>>>, x: Seq<nat>, i: int, n: nat) -> Seq<u8>
    decreases n,
{
    if n == 0 {
        g1_identity()
    } else {
        column_part(
            image_sum(cols, x, i, (n - 1) as nat),
            cols[n - 1],
            x[n - 1],
            i,
            cols[n - 1].len(),
        )
    }
}

/// Row `i` of the product of a matrix with the vector `x`: each entry of
/// the row taken as many times as the scalar of its column says.
pub open spec fn matrix_image(cols: Seq<Seq<CoeffPos<G1Point>>>, x: Seq<nat>, i: int) -> Seq<u8> {
    image_sum(cols, x, i, cols.len())
}

/// The readings of the first `m` entries of a column, each times the
/// scalar of its row.
pub open spec fn col_dot(l1: Reading, col: Seq<CoeffPos<G1Point>>, k: Seq<nat>, m: nat) -> int
    decreases m,
{
    if m == 0 {
        0
    } else {
        col_dot(l1, col, k, (m - 1) as nat) + l1(col[m - 1].val@) * (k[col[m - 1].pos as int] as int)
    }
}

/// The readings of those of the first `m` entries of a column that stand in
/// row `i`.
pub open spec fn col_row(l1: Reading, col: Seq<CoeffPos<G1Point>>, i: int, m: nat) -> int
    decreases m,
{
    if m == 0 {
        0
    } else {
        col_row(l1, col, i, (m - 1) as nat) + if col[m - 1].pos == i {
            l1(col[m - 1].val@)
        } else {
            0
        }
    }
}

/// The reading of what the first `n` columns give to row `i` of the image.
pub open spec fn img(l1: Reading, cols: Seq<Seq<CoeffPos<G1Point>>>, x: Seq<nat>, i: int, n: nat) -> int
    decreases n,
{
    if n == 0 {
        0
    } else {
        img(l1, cols, x, i, (n - 1) as nat) + (x[n - 1] as int) * col_row(
            l1,
            cols[n - 1],
            i,
            cols[n - 1].len(),
        )
    }
}

/// The rows of the first `m` entries of a column, each row times its
/// scalar, over the first `l` rows.
pub open spec fn weighted(l1: Reading, col: Seq<CoeffPos<G1Point>>, k: Seq<nat>, m: nat, l: nat) -> int
    decreases l,
{
    if l == 0 {
        0
    } else {
        weighted(l1, col, k, m, (l - 1) as nat) + (k[l - 1] as int) * col_row(l1, col, l - 1, m)
    }
}

/// The first `l` rows of the image of the first `n` columns, each row times
/// its scalar.
pub open spec fn weighted_img(
    l1: Reading,
    cols: Seq<Seq<CoeffPos<G1Point>>>,
    x: Seq<nat>,
    k: Seq<nat>,
    n: nat,
    l: nat,
) -> int
    decreases l,
{
    if l == 0 {
        0
    } else {
        weighted_img(l1, cols, x, k, n, (l - 1) as nat) + (k[l - 1] as int) * img(
            l1,
            cols,
            x,
            l - 1,
            n,
        )
    }
}

/// The first `n` columns, each read against the scalars of the rows and
/// times its own scalar.
pub open spec fn total(l1: Reading, cols: Seq<Seq<CoeffPos<G1Point>>>, x: Seq<nat>, k: Seq<nat>, n: nat) -> int
    decreases n,
{
    if n == 0 {
        0
    } else {
        total(l1, cols, x, k, (n - 1) as nat) + (x[n - 1] as int) * col_dot(
            l1,
            cols[n - 1],
            k,
            cols[n - 1].len(),
        )
    }
}

proof fn lemma_sparse_sum(l1: Reading, l2: Reading, lp: Reading, col: Seq<CoeffPos<G1Point>>, k: Seq<nat>, m: nat)
    requires
        is_model(l1, l2, lp),
    ensures
        cong(l1(sparse_sum(k, col, m)), col_dot(l1, col, k, m)),
    decreases m,
{
    if m > 0 {
        let prev = sparse_sum(k, col, (m - 1) as nat);
        let term = g1_scale(col[m - 1].val@, k[col[m - 1].pos as int]);
        lemma_sparse_sum(l1, l2, lp, col, k, (m - 1) as nat);
        assert(cong(l1(g1_sum(prev, term)), l1(prev) + l1(term)));
        assert(cong(l1(term), l1(col[m - 1].val@) * (k[col[m - 1].pos as int] as int)));
        lemma_cong_add(
            l1(prev),
            col_dot(l1, col, k, (m - 1) as nat),
            l1(term),
            l1(col[m - 1].val@) * (k[col[m - 1].pos as int] as int),
        );
    }
}

proof fn lemma_column_part(
    l1: Reading,
    l2: Reading,
    lp: Reading,
    acc: Seq<u8>,
    col: Seq<CoeffPos<G1Point>>,
    s: nat,
    i: int,
    m: nat,
)
    requires
        is_model(l1, l2, lp),
    ensures
        cong(l1(column_part(acc, col, s, i, m)), l1(acc) + (s as int) * col_row(l1, col, i, m)),
    decreases m,
{
    if m > 0 {
        let prev = column_part(acc, col, s, i, (m - 1) as nat);
        let before = col_row(l1, col, i, (m - 1) as nat);
        lemma_column_part(l1, l2, lp, acc, col, s, i, (m - 1) as nat);
        if col[m - 1].pos == i {
            let v = col[m - 1].val@;
            let term = g1_scale(v, s);
            assert(cong(l1(g1_sum(prev, term)), l1(prev) + l1(term)));
            assert(cong(l1(term), l1(v) * (s as int)));
            lemma_cong_add(l1(prev), l1(acc) + (s as int) * before, l1(term), l1(v) * (s as int));
            assert(l1(acc) + (s as int) * before + l1(v) * (s as int) == l1(acc) + (s as int) * (
            before + l1(v))) by (nonlinear_arith);
        }
    }
}

proof fn lemma_image(
    l1: Reading,
    l2: Reading,
    lp: Reading,
    cols: Seq<Seq<CoeffPos<G1Point>>>,
    x: Seq<nat>,
    i: int,
    n: nat,
)
    requires
        is_model(l1, l2, lp),
    ensures
        cong(l1(image_sum(cols, x, i, n)), img(l1, cols, x, i, n)),
    decreases n,
{
    if n > 0 {
        let prev = image_sum(cols, x, i, (n - 1) as nat);
        let col = cols[n - 1];
        lemma_image(l1, l2, lp, cols, x, i, (n - 1) as nat);
        lemma_column_part(l1, l2, lp, prev, col, x[n - 1], i, col.len());
        let part = (x[n - 1] as int) * col_row(l1, col, i, col.len());
        lemma_cong_add(l1(prev), img(l1, cols, x, i, (n - 1) as nat), part, part);
    }
}

proof fn lemma_weighted_step(l1: Reading, col: Seq<CoeffPos<G1Point>>, k: Seq<nat>, m: nat, l: nat)
    requires
        m > 0,
    ensures
        weighted(l1, col, k, m, l) == weighted(l1, col, k, (m - 1) as nat, l) + if col[m - 1].pos
            < l {
            l1(col[m - 1].val@) * (k[col[m - 1].pos as int] as int)
        } else {
            0
        },
    decreases l,
{
    if l > 0 {
        lemma_weighted_step(l1, col, k, m, (l - 1) as nat);
        let kk = k[l - 1] as int;
        let before = col_row(l1, col, l - 1, (m - 1) as nat);
        let v = l1(col[m - 1].val@);
        if col[m - 1].pos == l - 1 {
            assert(kk * (before + v) == kk * before + v * kk) by (nonlinear_arith);
        }
    }
}

proof fn lemma_weighted(l1: Reading, col: Seq<CoeffPos<G1Point>>, k: Seq<nat>, m: nat, l: nat)
    requires
        m <= col.len(),
        col_within(col, l),
    ensures
        weighted(l1, col, k, m, l) == col_dot(l1, col, k, m),
    decreases m,
{
    if m > 0 {
        lemma_weighted(l1, col, k, (m - 1) as nat, l);
        lemma_weighted_step(l1, col, k, m, l);
        assert(col[m - 1].pos < l);
    } else {
        lemma_weighted_zero(l1, col, k, l);
    }
}

proof fn lemma_weighted_zero(l1: Reading, col: Seq<CoeffPos<G1Point>>, k: Seq<nat>, l: nat)
    ensures
        weighted(l1, col, k, 0, l) == 0,
    decreases l,
{
    if l > 0 {
        lemma_weighted_zero(l1, col, k, (l - 1) as nat);
        assert((k[l - 1] as int) * 0 == 0);
    }
}

proof fn lemma_weighted_img_step(
    l1: Reading,
    cols: Seq<Seq<CoeffPos<G1Point>>>,
    x: Seq<nat>,
    k: Seq<nat>,
    n: nat,
    l: nat,
)
    requires
        n > 0,
    ensures
        weighted_img(l1, cols, x, k, n, l) == weighted_img(l1, cols, x, k, (n - 1) as nat, l) + (
        x[n - 1] as int) * weighted(l1, cols[n - 1], k, cols[n - 1].len(), l),
    decreases l,
{
    if l > 0 {
        lemma_weighted_img_step(l1, cols, x, k, n, (l - 1) as nat);
        let kk = k[l - 1] as int;
        let xx = x[n - 1] as int;
        let before = img(l1, cols, x, l - 1, (n - 1) as nat);
        let row = col_row(l1, cols[n - 1], l - 1, cols[n - 1].len());
        let w = weighted(l1, cols[n - 1], k, cols[n - 1].len(), (l - 1) as nat);
        assert(kk * (before + xx * row) + xx * w == kk * before + xx * (w + kk * row))
            by (nonlinear_arith);
    } else {
        assert((x[n - 1] as int) * 0 == 0);
    }
}

proof fn lemma_weighted_img_zero(l1: Reading, cols: Seq<Seq<CoeffPos<G1Point>>>, x: Seq<nat>, k: Seq<nat>, l: nat)
    ensures
        weighted_img(l1, cols, x, k, 0, l) == 0,
    decreases l,
{
    if l > 0 {
        lemma_weighted_img_zero(l1, cols, x, k, (l - 1) as nat);
        assert((k[l - 1] as int) * 0 == 0);
    }
}

proof fn lemma_weighted_img(
    l1: Reading,
    cols: Seq<Seq<CoeffPos<G1Point>>>,
    x: Seq<nat>,
    k: Seq<nat>,
    n: nat,
    l: nat,
)
    requires
        n <= cols.len(),
        forall|c: int| 0 <= c < cols.len() ==> col_within(#[trigger] cols[c], l),
    ensures
        weighted_img(l1, cols, x, k, n, l) == total(l1, cols, x, k, n),
    decreases n,
{
    if n > 0 {
        lemma_weighted_img(l1, cols, x, k, (n - 1) as nat, l);
        lemma_weighted_img_step(l1, cols, x, k, n, l);
        lemma_weighted(l1, cols[n - 1], k, cols[n - 1].len(), l);
    } else {
        lemma_weighted_img_zero(l1, cols, x, k, l);
    }
}

/// The first `j` pairings of the verifier read as the first `j` rows of
/// the image, each times the scalar of its row, times the mask and the
/// reading of the generator.
proof fn lemma_rows_dot(
    l1: Reading,
    l2: Reading,
    lp: Reading,
    pp: PP<G1Point, G2Point>,
    cols: Seq<Seq<CoeffPos<G1Point>>>,
    k: Seq<nat>,
    a: nat,
    vk: VK<G2Point>,
    x: Seq<nat>,
    y: Seq<G1Point>,
    pi: G1Point,
    j: nat,
)
    requires
        is_model(l1, l2, lp),
        vk.c@.len() == k.len(),
        forall|i: int| 0 <= i < k.len() ==> (#[trigger] vk.c@[i])@ == g2_scale(pp.g2@, fr_mul(a, k[i])),
        y.len() == k.len(),
        forall|i: int|
            0 <= i < y.len() ==> cong(l1((#[trigger] y[i])@), img(l1, cols, x, i, cols.len())),
        j <= k.len(),
    ensures
        cong(
            pair_dot(l1, lp, verify_lhs(y, pi), verify_rhs(vk, y.len()), j),
            l2(pp.g2@) * (a as int) * weighted_img(l1, cols, x, k, cols.len(), j),
        ),
    decreases j,
{
    if j > 0 {
        let i = (j - 1) as int;
        lemma_rows_dot(l1, l2, lp, pp, cols, k, a, vk, x, y, pi, (j - 1) as nat);
        let lhs = verify_lhs(y, pi);
        let rhs = verify_rhs(vk, y.len());
        let g = l2(pp.g2@);
        let aa = a as int;
        let kk = k[i] as int;
        let row = img(l1, cols, x, i, cols.len());
        assert(lhs[i] == y[i]@);
        assert(rhs[i] == g2_prepared(vk.c@[i]@));
        assert(cong(l1(lhs[i]), row));
        assert(cong(lp(g2_prepared(vk.c@[i]@)), l2(vk.c@[i]@)));
        assert(cong(l2(g2_scale(pp.g2@, fr_mul(a, k[i]))), g * (fr_mul(a, k[i]) as int)));
        lemma_cong_mod(aa * kk);
        assert(fr_mul(a, k[i]) as int == (aa * kk) % (modulus() as int));
        lemma_cong_mul(g, g, fr_mul(a, k[i]) as int, aa * kk);
        assert(cong(lp(rhs[i]), g * (aa * kk)));
        lemma_cong_mul(l1(lhs[i]), row, lp(rhs[i]), g * (aa * kk));
        let before = weighted_img(l1, cols, x, k, cols.len(), (j - 1) as nat);
        lemma_cong_add(
            pair_dot(l1, lp, lhs, rhs, (j - 1) as nat),
            g * aa * before,
            l1(lhs[i]) * lp(rhs[i]),
            row * (g * (aa * kk)),
        );
        assert(g * aa * before + row * (g * (aa * kk)) == g * aa * (before + kk * row))
            by (nonlinear_arith);
    } else {
        assert(l2(pp.g2@) * (a as int) * 0 == 0) by (nonlinear_arith);
    }
}

/// The proof reads as the columns, each read against the scalars of the
/// rows and times its own scalar.
proof fn lemma_proof_reading(
    l1: Reading,
    l2: Reading,
    lp: Reading,
    cols: Seq<Seq<CoeffPos<G1Point>>>,
    k: Seq<nat>,
    ek: EK<G1Point>,
    x: Seq<nat>,
    n: nat,
)
    requires
        is_model(l1, l2, lp),
        ek.p@.len() == cols.len(),
        forall|c: int|
            0 <= c < cols.len() ==> (#[trigger] ek.p@[c])@ == sparse_sum(k, cols[c], cols[c].len()),
        n <= cols.len(),
    ensures
        cong(lin(l1, g1_views(ek.p@), x, n), total(l1, cols, x, k, n)),
    decreases n,
{
    if n > 0 {
        let c = (n - 1) as int;
        lemma_proof_reading(l1, l2, lp, cols, k, ek, x, (n - 1) as nat);
        lemma_sparse_sum(l1, l2, lp, cols[c], k, cols[c].len());
        assert(g1_views(ek.p@)[c] == ek.p@[c]@);
        let xx = x[c] as int;
        lemma_cong_mul(l1(g1_views(ek.p@)[c]), col_dot(l1, cols[c], k, cols[c].len()), xx, xx);
        lemma_cong_add(
            lin(l1, g1_views(ek.p@), x, (n - 1) as nat),
            total(l1, cols, x, k, (n - 1) as nat),
            l1(g1_views(ek.p@)[c]) * xx,
            col_dot(l1, cols[c], k, cols[c].len()) * xx,
        );
        assert(col_dot(l1, cols[c], k, cols[c].len()) * xx == xx * col_dot(
            l1,
            cols[c],
            k,
            cols[c].len(),
        )) by (nonlinear_arith);
    }
}

/// In every model of the pairing groups, the proof that `prove` makes from
/// a vector `x` with the prover's key is accepted with the verifier's key
/// for every vector `y` that reads as the image of `x` under the matrix
/// that the keys were made for.
pub(crate) proof fn lemma_subspace_accepts(
    l1: Reading,
    l2: Reading,
    lp: Reading,
    pp: PP<G1Point, G2Point>,
    cols: Seq<Seq<CoeffPos<G1Point>>>,
    k: Seq<nat>,
    a: nat,
    ek: EK<G1Point>,
    vk: VK<G2Point>,
    x: Seq<nat>,
    y: Seq<G1Point>,
    pi: G1Point,
)
    requires
        is_model(l1, l2, lp),
        is_key_pair(pp, cols, k, a, ek, vk),
        forall|c: int| 0 <= c < cols.len() ==> col_within(#[trigger] cols[c], k.len()),
        x.len() == cols.len(),
        pi@ == g1_lincomb(g1_views(ek.p@), x, x.len()),
        y.len() == k.len(),
        forall|i: int|
            0 <= i < y.len() ==> cong(l1((#[trigger] y[i])@), img(l1, cols, x, i, cols.len())),
    ensures
        accepts(vk, y, pi),
{
    let l = k.len();
    let n = cols.len();
    let lhs = verify_lhs(y, pi);
    let rhs = verify_rhs(vk, l);
    let g = l2(pp.g2@);
    let aa = a as int;
    let t = total(l1, cols, x, k, n);
    lemma_rows_dot(l1, l2, lp, pp, cols, k, a, vk, x, y, pi, l);
    lemma_weighted_img(l1, cols, x, k, n, l);
    // the rows: g * a * t
    lemma_lincomb_g1(l1, l2, lp, g1_views(ek.p@), x, n);
    lemma_proof_reading(l1, l2, lp, cols, k, ek, x, n);
    assert(lhs[l as int] == pi@);
    assert(cong(l1(lhs[l as int]), t));
    // the mask
    let neg = g2_neg(vk.a@);
    assert(rhs[l as int] == g2_prepared(neg));
    assert(cong(lp(g2_prepared(neg)), l2(neg)));
    assert(cong(l2(neg) + l2(vk.a@), 0));
    assert(cong(l2(g2_scale(pp.g2@, a)), g * aa));
    lemma_cong_add(l2(neg), l2(neg), l2(vk.a@), g * aa);
    // l2(neg) + g * a is zero, so l2(neg) is -(g * a)
    lemma_cong_add(l2(neg) + g * aa, 0, -(g * aa), -(g * aa));
    assert(cong(l2(neg), -(g * aa)));
    lemma_cong_mul(l1(lhs[l as int]), t, lp(rhs[l as int]), -(g * aa));
    lemma_cong_add(
        pair_dot(l1, lp, lhs, rhs, l),
        g * aa * t,
        l1(lhs[l as int]) * lp(rhs[l as int]),
        t * (-(g * aa)),
    );
    assert(g * aa * t + t * (-(g * aa)) == 0) by (nonlinear_arith);
    assert(pair_dot(l1, lp, lhs, rhs, l + 1) == pair_dot(l1, lp, lhs, rhs, l) + l1(lhs[l as int])
        * lp(rhs[l as int]));
    assert(lhs.len() == l + 1 && rhs.len() == l + 1);
    assert(cong(pair_dot(l1, lp, lhs, rhs, lhs.len()), 0));
}

/// Completeness of the argument. In every model of the pairing groups, the
/// proof that `prove` makes from a vector `x` with the prover's key is
/// accepted with the verifier's key for the image `y` of `x` under the
/// matrix that the keys were made for.
pub proof fn lemma_subspace_complete(
    l1: Reading,
    l2: Reading,
    lp: Reading,
    pp: PP<G1Point, G2Point>,
    cols: Seq<Seq<CoeffPos<G1Point>>>,
    k: Seq<nat>,
    a: nat,
    ek: EK<G1Point>,
    vk: VK<G2Point>,
    x: Seq<nat>,
    y: Seq<G1Point>,
    pi: G1Point,
)
    requires
        is_model(l1, l2, lp),
        is_key_pair(pp, cols, k, a, ek, vk),
        forall|c: int| 0 <= c < cols.len() ==> col_within(#[trigger] cols[c], k.len()),
        x.len() == cols.len(),
        pi@ == g1_lincomb(g1_views(ek.p@), x, x.len()),
        y.len() == k.len(),
        forall|i: int| 0 <= i < y.len() ==> (#[trigger] y[i])@ == matrix_image(cols, x, i),
    ensures
        accepts(vk, y, pi),
{
    assert forall|i: int| 0 <= i < y.len() implies cong(
        l1((#[trigger] y[i])@),
        img(l1, cols, x, i, cols.len()),
    ) by {
        lemma_image(l1, l2, lp, cols, x, i, cols.len());
    }
    lemma_subspace_accepts(l1, l2, lp, pp, cols, k, a, ek, vk, x, y, pi);
}

} // verus!
