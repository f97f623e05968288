use vstd::prelude::*;
use crate::field::Scalar;
use crate::field::fr_mul;
use crate::field::scalar_mul;
use crate::field::scalar_values;
use crate::g1::G1Point;
use crate::g1::g1_add;
use crate::g1::g1_identity;
use crate::g1::g1_lincomb;
use crate::g1::g1_mul;
use crate::g1::g1_scale;
use crate::g1::g1_sum;
use crate::g1::g1_views;
use crate::g1::g1_zero;

verus! {

/// One entry of a sparse column: a value and the row it stands in.
#[derive(Clone, Copy, Debug)]
pub struct CoeffPos<T> {
    pub val: T,
    pub pos: usize,
}

/// A sparse matrix held column by column; each column lists its entries in
/// the order in which they were inserted.
#[derive(Clone, Debug)]
pub struct SparseMatrix<T> {
    pub cols: Vec<Vec<CoeffPos<T>>>,
    pub nr: usize,
    pub nc: usize,
}

/// The columns after the values `vs` were appended in row `r`, one to each
/// of the columns from `c_offset` on.
pub open spec fn with_row<T>(cols: Seq<Seq<CoeffPos<T>>>, r: usize, c_offset: usize, vs: Seq<T>) -> Seq<
    Seq<CoeffPos<T>>,
> {
    Seq::new(
        cols.len(),
        |c: int|
            if c_offset <= c < c_offset + vs.len() {
                cols[c].push(CoeffPos { val: vs[c - c_offset], pos: r })
            } else {
                cols[c]
            },
    )
}

/// As many columns without entries.
pub open spec fn empty_columns<T>(nc: nat) -> Seq<Seq<CoeffPos<T>>> {
    Seq::new(nc, |c: int| Seq::<CoeffPos<T>>::empty())
}

impl<T: Copy> SparseMatrix<T> {
    /// The columns, each as the sequence of its entries.
    pub open spec fn columns(&self) -> Seq<Seq<CoeffPos<T>>> {
        Seq::new(self.cols@.len(), |c: int| self.cols@[c]@)
    }

    /// A matrix of `nr` rows and `nc` columns without entries.
    pub fn new(nr: usize, nc: usize) -> (m: SparseMatrix<T>)
        ensures
            m.nr == nr,
            m.nc == nc,
            m.columns() == empty_columns::<T>(nc as nat),
    {
        let mut cols: Vec<Vec<CoeffPos<T>>> = Vec::new();
        let mut c: usize = 0;
        while c < nc
            invariant
                c <= nc,
                cols@.len() == c,
                forall|j: int| 0 <= j < c ==> (#[trigger] cols@[j])@ == Seq::<CoeffPos<T>>::empty(),
            decreases nc - c,
        {
            cols.push(Vec::new());
            c = c + 1;
        }
        let m = SparseMatrix { cols, nr, nc };
        assert(m.columns() =~= empty_columns::<T>(nc as nat));
        m
    }

    /// Appends the value `v` in row `r` to column `c`.
    pub fn insert_val(&mut self, r: usize, c: usize, v: &T)
        requires
            c < old(self).columns().len(),
        ensures
            final(self).nr == old(self).nr,
            final(self).nc == old(self).nc,
            final(self).columns() == old(self).columns().update(
                c as int,
                old(self).columns()[c as int].push(CoeffPos { val: *v, pos: r }),
            ),
    {
        let coeff_pos = CoeffPos { pos: r, val: *v };
        self.cols[c].push(coeff_pos);
        assert(final(self).columns() =~= old(self).columns().update(
            c as int,
            old(self).columns()[c as int].push(coeff_pos),
        ));
    }

    /// Appends the values `vs` in row `r`, one to each of the columns from
    /// `c_offset` on.
    pub fn insert_row_slice(&mut self, r: usize, c_offset: usize, vs: &[T])
        requires
            c_offset + vs@.len() <= old(self).columns().len(),
        ensures
            final(self).nr == old(self).nr,
            final(self).nc == old(self).nc,
            final(self).columns() == with_row(old(self).columns(), r, c_offset, vs@),
    {
        let ghost before = self.columns();
        let total: usize = self.cols.len();
        let n: usize = vs.len();
        let mut i: usize = 0;
        while i < n
            invariant
                i <= n,
                n == vs@.len(),
                c_offset + n <= before.len(),
                self.nr == old(self).nr,
                self.nc == old(self).nc,
                before == old(self).columns(),
                before.len() == total,
                self.columns() == with_row(old(self).columns(), r, c_offset, vs@.take(i as int)),
            decreases n - i,
        {
            self.insert_val(r, c_offset + i, &vs[i]);
            assert(self.columns() =~= with_row(old(self).columns(), r, c_offset, vs@.take(i + 1)));
            i = i + 1;
        }
        assert(vs@.take(n as int) =~= vs@);
    }

    /// The entries of column `c`.
    pub fn get_col(&self, c: usize) -> (col: &Vec<CoeffPos<T>>)
        requires
            c < self.columns().len(),
        ensures
            col@ == self.columns()[c as int],
    {
        &self.cols[c]
    }
}

/// The sum of the first `n` entries of a sparse column, each taken as many
/// times as the scalar in its row says, added up from the neutral element
/// in the order of the entries.
pub open spec fn sparse_sum(v: Seq<nat>, col: Seq<CoeffPos<G1Point>>, n: nat) -> Seq<u8>
    decreases n,
{
    if n == 0 {
        g1_identity()
    } else {
        g1_sum(
            sparse_sum(v, col, (n - 1) as nat),
            g1_scale(col[n - 1].val@, v[col[n - 1].pos as int]),
        )
    }
}

/// Whether every entry of the column stands in one of the first `rows` rows.
pub open spec fn col_within(col: Seq<CoeffPos<G1Point>>, rows: nat) -> bool {
    forall|k: int| 0 <= k < col.len() ==> (#[trigger] col[k]).pos < rows
}

/// Products of a vector of scalars with sparse columns of points.
pub struct SparseLinAlgebra {}

impl SparseLinAlgebra {
    /// The inner product of the vector `v` with the sparse column `w`.
    pub fn sparse_inner_product(v: &Vec<Scalar>, w: &Vec<CoeffPos<G1Point>>) -> (r: G1Point)
        requires
            col_within(w@, v@.len()),
        ensures
            r@ == sparse_sum(scalar_values(v@), w@, w@.len()),
    {
        let mut res = g1_zero();
        let n: usize = w.len();
        let mut k: usize = 0;
        while k < n
            invariant
                k <= n,
                n == w@.len(),
                col_within(w@, v@.len()),
                res@ == sparse_sum(scalar_values(v@), w@, k as nat),
            decreases n - k,
        {
            let g = w[k].val;
            let i: usize = w[k].pos;
            let tmp = g1_mul(&g, &v[i]);
            res = g1_add(&res, &tmp);
            k = k + 1;
        }
        res
    }

    /// The product of the row vector `v` with the matrix `m`: one point for
    /// each column. `t` is the number of columns that is expected.
    pub fn sparse_vector_matrix_mult(v: &Vec<Scalar>, m: &SparseMatrix<G1Point>, t: usize) -> (res:
        Vec<G1Point>)
        requires
            m.nc == m.columns().len(),
            forall|c: int| 0 <= c < m.columns().len() ==> col_within(#[trigger] m.columns()[c], v@.len()),
        ensures
            res@.len() == m.nc,
            forall|c: int|
                0 <= c < m.nc ==> (#[trigger] res@[c])@ == sparse_sum(
                    scalar_values(v@),
                    m.columns()[c],
                    m.columns()[c].len(),
                ),
    {
        let mut res: Vec<G1Point> = Vec::with_capacity(t);
        let mut c: usize = 0;
        while c < m.nc
            invariant
                c <= m.nc,
                m.nc == m.columns().len(),
                forall|j: int|
                    0 <= j < m.columns().len() ==> col_within(#[trigger] m.columns()[j], v@.len()),
                res@.len() == c,
                forall|j: int|
                    0 <= j < c ==> (#[trigger] res@[j])@ == sparse_sum(
                        scalar_values(v@),
                        m.columns()[j],
                        m.columns()[j].len(),
                    ),
            decreases m.nc - c,
        {
            res.push(Self::sparse_inner_product(v, m.get_col(c)));
            c = c + 1;
        }
        res
    }
}

/// The inner product of scalars and points of equal number.
pub fn inner_product(v: &[Scalar], w: &[G1Point]) -> (r: G1Point)
    requires
        v@.len() == w@.len(),
    ensures
        r@ == g1_lincomb(g1_views(w@), scalar_values(v@), v@.len()),
{
    let mut res = g1_zero();
    let n: usize = v.len();
    let mut i: usize = 0;
    while i < n
        invariant
            i <= n,
            n == v@.len(),
            n == w@.len(),
            res@ == g1_lincomb(g1_views(w@), scalar_values(v@), i as nat),
        decreases n - i,
    {
        let tmp = g1_mul(&w[i], &v[i]);
        res = g1_add(&res, &tmp);
        i = i + 1;
    }
    res
}

/// Every scalar of `v` multiplied by `a`. `l` is the number of scalars that
/// is expected.
pub fn scalar_vector_mult(a: &Scalar, v: &[Scalar], l: usize) -> (res: Vec<Scalar>)
    ensures
        res@.len() == v@.len(),
        forall|i: int| 0 <= i < v@.len() ==> (#[trigger] res@[i])@ == fr_mul(a@, v@[i]@),
{
    let mut res: Vec<Scalar> = Vec::with_capacity(l);
    let n: usize = v.len();
    let mut i: usize = 0;
    while i < n
        invariant
            i <= n,
            n == v@.len(),
            res@.len() == i,
            forall|j: int| 0 <= j < i ==> (#[trigger] res@[j])@ == fr_mul(a@, v@[j]@),
        decreases n - i,
    {
        let x = scalar_mul(a, &v[i]);
        res.push(x);
        i = i + 1;
    }
    res
}

} // verus!
