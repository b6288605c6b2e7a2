use vstd::prelude::*;
use vstd::arithmetic::div_mod::{lemma_fundamental_div_mod, lemma_fundamental_div_mod_converse};

verus! {

/// Holds when `d` is a value that `T::default()` may return.
pub open spec fn is_default<T: Default>(d: T) -> bool {
    call_ensures(T::default, (), d)
}

/// Relies on `std::array::from_fn`: the closure is called for each index
/// `0..N` and its result is stored at that index.
#[verifier::external_body]
fn array_from_fn<T, F: Fn(usize) -> T, const N: usize>(f: F) -> (r: [T; N])
    requires
        forall|i: usize| i < N ==> f.requires((i,)),
    ensures
        forall|i: int| 0 <= i < N ==> f.ensures((i as usize,), #[trigger] r@[i]),
{
    std::array::from_fn(f)
}

/// A fresh default value, one call of `T::default()`.
pub(crate) fn default_value<T: Default>() -> (d: T)
    ensures
        is_default(d),
{
    T::default()
}

/// A row of `N` cells, each holding a fresh default value.
pub(crate) fn default_row<T: Default, const N: usize>() -> (r: [T; N])
    ensures
        forall|i: int| 0 <= i < N ==> is_default(#[trigger] r@[i]),
{
    array_from_fn(|_i: usize| -> (d: T)
        ensures
            is_default(d),
        { default_value() })
}

/// A matrix of `R` rows and `C` columns, stored row by row.
#[derive(Debug, Clone, Copy)]
pub struct Matrix<T, const R: usize, const C: usize>(pub [[T; C]; R]);

impl<T, const R: usize, const C: usize> View for Matrix<T, R, C> {
    type V = Seq<Seq<T>>;

    /// The rows of the matrix, each a sequence of `C` cells.
    open spec fn view(&self) -> Seq<Seq<T>> {
        Seq::new(R as nat, |i: int| self.0@[i]@)
    }
}

impl<T, const R: usize, const C: usize> Matrix<T, R, C> {
    /// The cell at row `r`, column `c`.
    pub open spec fn cell(&self, r: int, c: int) -> T {
        self@[r][c]
    }

    /// `R` rows of `C` cells each.
    pub open spec fn well_shaped(rows: Seq<Seq<T>>) -> bool {
        rows.len() == R && forall|i: int| 0 <= i < R ==> (#[trigger] rows[i]).len() == C
    }

    /// Every matrix has `R` rows of `C` cells.
    pub proof fn lemma_shape(&self)
        ensures
            Self::well_shaped(self@),
    {
        assert forall|i: int| 0 <= i < R implies (#[trigger] self@[i]).len() == C by {
            vstd::array::array_len_matches_n(&self.0@[i]);
        }
    }

    /// The cells in row-major order.
    pub open spec fn flat(&self) -> Seq<T> {
        Seq::new((R * C) as nat, |k: int| self.cell(k / C as int, k % C as int))
    }

    /// Cell `(r, c)` stands at position `r * C + c` of the row-major order.
    pub proof fn lemma_flat_index(&self, r: int, c: int)
        requires
            0 <= r < R,
            0 <= c < C,
        ensures
            0 <= r * C + c < R * C,
            (r * C + c) / C as int == r,
            (r * C + c) % C as int == c,
            self.flat()[r * C + c] == self.cell(r, c),
    {
        assert(0 <= r * C) by (nonlinear_arith)
            requires
                0 <= r,
                0 <= C,
        ;
        assert(r * C + C <= R * C) by (nonlinear_arith)
            requires
                r < R,
                0 <= C,
        ;
        lemma_fundamental_div_mod_converse(r * C + c, C as int, r, c);
    }

    /// Position `k` of the row-major order is cell `(k / C, k % C)`, inside the matrix.
    pub proof fn lemma_flat_position(k: int)
        requires
            0 <= k < R * C,
        ensures
            0 <= (k / C as int) < R,
            0 <= (k % C as int) < C,
            k == (k / C as int) * C + k % C as int,
    {
        assert(C > 0) by (nonlinear_arith)
            requires
                0 <= k < R * C,
                0 <= R,
        ;
        lemma_fundamental_div_mod(k, C as int);
        assert((k / C as int) * C == C * (k / C as int)) by (nonlinear_arith);
        assert((k / C as int) < R) by (nonlinear_arith)
            requires
                k == (k / C as int) * C + k % C as int,
                0 <= k % C as int,
                k < R * C,
                C > 0,
        ;
        assert(0 <= k / C as int) by (nonlinear_arith)
            requires
                k == (k / C as int) * C + k % C as int,
                (k % C as int) < C,
                0 <= k,
                C > 0,
        ;
    }

    /// Setting cell `(r, c)` sets position `r * C + c` of the row-major order.
    pub proof fn lemma_flat_update(a: Self, b: Self, r: int, c: int, v: T)
        requires
            0 <= r < R,
            0 <= c < C,
            b@ == a.updated(r, c, v),
        ensures
            b.flat() == a.flat().update(r * C + c, v),
    {
        a.lemma_shape();
        a.lemma_flat_index(r, c);
        assert forall|k: int| 0 <= k < R * C implies #[trigger] b.flat()[k] == a.flat().update(r * C + c, v)[k] by {
            Self::lemma_flat_position(k);
            if k != r * C + c {
                assert(k / C as int != r || k % C as int != c);
            }
        }
        assert(b.flat() =~= a.flat().update(r * C + c, v));
    }

    /// Two matrices with the same row-major order are equal.
    pub proof fn lemma_flat_eq(a: Self, b: Self)
        requires
            a.flat() == b.flat(),
        ensures
            a@ == b@,
    {
        a.lemma_shape();
        b.lemma_shape();
        assert forall|i: int| 0 <= i < R implies #[trigger] a@[i] =~= b@[i] by {
            assert forall|j: int| 0 <= j < C implies a@[i][j] == b@[i][j] by {
                a.lemma_flat_index(i, j);
                b.lemma_flat_index(i, j);
            }
        }
        assert(a@ =~= b@);
    }

    /// The rows of the transposed matrix: column `j` of `self` becomes row `j`.
    pub open spec fn transposed(&self) -> Seq<Seq<T>> {
        Seq::new(C as nat, |j: int| Seq::new(R as nat, |i: int| self.cell(i, j)))
    }

    /// `self@` with the cell at `(r, c)` set to `v`.
    pub open spec fn updated(&self, r: int, c: int, v: T) -> Seq<Seq<T>> {
        self@.update(r, self@[r].update(c, v))
    }

    pub fn from(data: [[T; C]; R]) -> (m: Self)
        ensures
            m.0 == data,
    {
        Matrix(data)
    }

    /// The rows, in order.
    pub fn rows(self) -> (rows: [[T; C]; R])
        ensures
            rows == self.0,
    {
        self.0
    }

    pub fn size(&self) -> (s: (usize, usize))
        ensures
            s == (R, C),
    {
        (R, C)
    }

    pub fn get(&self, idx: (usize, usize)) -> (v: &T)
        requires
            idx.0 < R,
            idx.1 < C,
        ensures
            *v == self.cell(idx.0 as int, idx.1 as int),
    {
        &self.0[idx.0][idx.1]
    }

    pub fn get_mut(&mut self, idx: (usize, usize)) -> (v: &mut T)
        requires
            idx.0 < R,
            idx.1 < C,
        ensures
            *v == old(self).cell(idx.0 as int, idx.1 as int),
            final(self)@ == old(self).updated(idx.0 as int, idx.1 as int, *final(v)),
    {
        &mut self.0[idx.0][idx.1]
    }

    pub fn set(&mut self, idx: (usize, usize), value: T)
        requires
            idx.0 < R,
            idx.1 < C,
        ensures
            final(self)@ == old(self).updated(idx.0 as int, idx.1 as int, value),
    {
        self.0[idx.0][idx.1] = value;
    }

    pub fn replace(&mut self, idx: (usize, usize), value: T) -> (o: T)
        requires
            idx.0 < R,
            idx.1 < C,
        ensures
            o == old(self).cell(idx.0 as int, idx.1 as int),
            final(self)@ == old(self).updated(idx.0 as int, idx.1 as int, value),
    {
        let mut out = value;
        std::mem::swap(&mut self.0[idx.0][idx.1], &mut out);
        out
    }
}

impl<T: Default, const R: usize, const C: usize> Matrix<T, R, C> {
    /// A matrix whose every cell holds a fresh default value.
    pub fn new() -> (m: Self)
        ensures
            forall|i: int, j: int| 0 <= i < R && 0 <= j < C ==> is_default(#[trigger] m.cell(i, j)),
    {
        let data: [[T; C]; R] = array_from_fn(|_i: usize| -> (row: [T; C])
            ensures
                forall|j: int| 0 <= j < C ==> is_default(#[trigger] row@[j]),
            { default_row() });
        Matrix(data)
    }

    /// Moves every cell `(i, j)` to `(j, i)` of a new matrix.
    pub fn transpose(self) -> (t: Matrix<T, C, R>)
        ensures
            t@ == self.transposed(),
    {
        let ghost orig = self;
        let mut src = self;
        let mut m: Matrix<T, C, R> = Matrix::new();
        let mut i: usize = 0;
        while i < R
            invariant
                i <= R,
                forall|a: int, b: int| 0 <= a < i && 0 <= b < C ==> #[trigger] m.cell(b, a) == orig.cell(a, b),
                forall|a: int, b: int| i <= a < R && 0 <= b < C ==> #[trigger] src.cell(a, b) == orig.cell(a, b),
            decreases R - i,
        {
            let mut j: usize = 0;
            while j < C
                invariant
                    i < R,
                    j <= C,
                    forall|a: int, b: int| 0 <= a < i && 0 <= b < C ==> #[trigger] m.cell(b, a) == orig.cell(a, b),
                    forall|b: int| 0 <= b < j ==> #[trigger] m.cell(b, i as int) == orig.cell(i as int, b),
                    forall|a: int, b: int| i <= a < R && 0 <= b < C && (a > i || b >= j) ==> #[trigger] src.cell(a, b) == orig.cell(a, b),
                decreases C - j,
            {
                proof {
                    src.lemma_shape();
                }
                let ghost s0 = src;
                let v = src.replace((i, j), default_value());
                assert(forall|a: int, b: int| 0 <= a < R && 0 <= b < C && (a != i || b != j) ==> #[trigger] src.cell(a, b) == s0.cell(a, b));
                proof {
                    m.lemma_shape();
                    src.lemma_shape();
                }
                let ghost m0 = m;
                m.set((j, i), v);
                assert(forall|b: int, a: int| 0 <= b < C && 0 <= a < R && (b != j || a != i) ==> #[trigger] m.cell(b, a) == m0.cell(b, a));
                j += 1;
            }
            i += 1;
        }
        proof {
            m.lemma_shape();
        }
        assert forall|b: int| 0 <= b < C implies #[trigger] m@[b] =~= orig.transposed()[b] by {
            assert forall|a: int| 0 <= a < R implies m@[b][a] == orig.transposed()[b][a] by {
                assert(m.cell(b, a) == orig.cell(a, b));
            }
        }
        assert(m@ =~= orig.transposed());
        m
    }

    /// The columns, in order: the rows of the transposed matrix.
    pub fn cols(self) -> (cols: [[T; R]; C])
        ensures
            Matrix(cols)@ == self.transposed(),
    {
        self.transpose().0
    }
}

} // verus!
