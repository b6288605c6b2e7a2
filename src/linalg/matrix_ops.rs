use vstd::prelude::*;
use vstd::std_specs::cmp::PartialEqSpec;
use vstd::std_specs::ops::{AddSpec, MulSpec};
use std::ops::{Add, Mul};
use crate::linalg::matrix::{Matrix, is_default, default_value};
use crate::linalg::vector::{dot_fold, dot_ok, dot_from};

verus! {

impl<T: PartialEq, const R: usize, const C: usize> PartialEq for Matrix<T, R, C> {
    /// Compares cell by cell in row-major order, stopping at the first difference.
    fn eq(&self, other: &Self) -> (r: bool) {
        let mut i: usize = 0;
        while i < R
            invariant
                i <= R,
                T::obeys_eq_spec() ==> forall|a: int, b: int|
                    0 <= a < i && 0 <= b < C ==> (#[trigger] self.cell(a, b)).eq_spec(&other.cell(a, b)),
            decreases R - i,
        {
            let mut j: usize = 0;
            while j < C
                invariant
                    i < R,
                    j <= C,
                    T::obeys_eq_spec() ==> forall|a: int, b: int|
                        0 <= a < i && 0 <= b < C ==> (#[trigger] self.cell(a, b)).eq_spec(&other.cell(a, b)),
                    T::obeys_eq_spec() ==> forall|b: int|
                        0 <= b < j ==> (#[trigger] self.cell(i as int, b)).eq_spec(&other.cell(i as int, b)),
                decreases C - j,
            {
                if !(self.0[i][j] == other.0[i][j]) {
                    assert(T::obeys_eq_spec() ==> !self.cell(i as int, j as int).eq_spec(&other.cell(i as int, j as int)));
                    return false;
                }
                j += 1;
            }
            i += 1;
        }
        true
    }
}

impl<T: PartialEq, const R: usize, const C: usize> vstd::std_specs::cmp::PartialEqSpecImpl for Matrix<T, R, C> {
    open spec fn obeys_eq_spec() -> bool {
        T::obeys_eq_spec()
    }

    open spec fn eq_spec(&self, other: &Self) -> bool {
        forall|a: int, b: int| 0 <= a < R && 0 <= b < C ==> (#[trigger] self.cell(a, b)).eq_spec(&other.cell(a, b))
    }
}

impl<T: Add<Output = T>, const R: usize, const C: usize> Matrix<T, R, C> {
    /// Every cell of `self` can be added to the matching cell of `rhs`.
    pub open spec fn add_ok(&self, rhs: &Self) -> bool {
        forall|a: int, b: int| 0 <= a < R && 0 <= b < C ==> (#[trigger] self.cell(a, b)).add_req(rhs.cell(a, b))
    }

    /// The cell-wise sum.
    pub open spec fn sum(&self, rhs: &Self) -> Seq<Seq<T>> {
        Seq::new(R as nat, |a: int| Seq::new(C as nat, |b: int| self.cell(a, b).add_spec(rhs.cell(a, b))))
    }
}

impl<T: Mul<Output = T>, const R: usize, const C: usize> Matrix<T, R, C> {
    /// Every cell can be multiplied by `s`.
    pub open spec fn scale_ok(&self, s: T) -> bool {
        forall|a: int, b: int| 0 <= a < R && 0 <= b < C ==> (#[trigger] self.cell(a, b)).mul_req(s)
    }

    /// Every cell multiplied by `s`.
    pub open spec fn scaled(&self, s: T) -> Seq<Seq<T>> {
        Seq::new(R as nat, |a: int| Seq::new(C as nat, |b: int| self.cell(a, b).mul_spec(s)))
    }
}

impl<T: Add<Output = T> + Mul<Output = T>, const R: usize, const C: usize> Matrix<T, R, C> {
    /// Row `i` of `self` dotted with column `k` of `rhs` can be computed from `init`, for every `i` and `k`.
    pub open spec fn product_ok<const K: usize>(&self, rhs: &Matrix<T, C, K>, init: T) -> bool {
        forall|i: int, k: int|
            0 <= i < R && 0 <= k < K ==> #[trigger] dot_ok(init, self@[i], rhs.transposed()[k], C as int)
    }

    /// The matrix product: cell `(i, k)` folds row `i` of `self` with column `k` of `rhs` onto `init`.
    pub open spec fn product<const K: usize>(&self, rhs: &Matrix<T, C, K>, init: T) -> Seq<Seq<T>> {
        Seq::new(R as nat, |i: int| Seq::new(K as nat, |k: int| dot_fold(init, self@[i], rhs.transposed()[k], C as int)))
    }
}

impl<T: Default + Add<Output = T>, const R: usize, const C: usize> Matrix<T, R, C> {
    /// The cell-wise sum; both operands are consumed.
    pub fn add(self, rhs: Self) -> (m: Self)
        requires
            self.add_ok(&rhs),
        ensures
            T::obeys_add_spec() ==> m@ == self.sum(&rhs),
            forall|x: int, y: int|
                0 <= x < R && 0 <= y < C ==> call_ensures(T::add, (self.cell(x, y), rhs.cell(x, y)), #[trigger] m.cell(x, y)),
    {
        let ghost a0 = self;
        let ghost b0 = rhs;
        let mut a = self;
        let mut b = rhs;
        let mut m: Self = Matrix::new();
        let mut i: usize = 0;
        while i < R
            invariant
                i <= R,
                a0.add_ok(&b0),
                T::obeys_add_spec() ==> forall|x: int, y: int|
                    0 <= x < i && 0 <= y < C ==> #[trigger] m.cell(x, y) == a0.cell(x, y).add_spec(b0.cell(x, y)),
                forall|x: int, y: int|
                    0 <= x < i && 0 <= y < C ==> call_ensures(T::add, (a0.cell(x, y), b0.cell(x, y)), #[trigger] m.cell(x, y)),
                forall|x: int, y: int| i <= x < R && 0 <= y < C ==> #[trigger] a.cell(x, y) == a0.cell(x, y),
                forall|x: int, y: int| i <= x < R && 0 <= y < C ==> #[trigger] b.cell(x, y) == b0.cell(x, y),
            decreases R - i,
        {
            let mut j: usize = 0;
            while j < C
                invariant
                    i < R,
                    j <= C,
                    a0.add_ok(&b0),
                    T::obeys_add_spec() ==> forall|x: int, y: int|
                        0 <= x < i && 0 <= y < C ==> #[trigger] m.cell(x, y) == a0.cell(x, y).add_spec(b0.cell(x, y)),
                    T::obeys_add_spec() ==> forall|y: int|
                        0 <= y < j ==> #[trigger] m.cell(i as int, y) == a0.cell(i as int, y).add_spec(b0.cell(i as int, y)),
                    forall|x: int, y: int|
                        0 <= x < i && 0 <= y < C ==> call_ensures(T::add, (a0.cell(x, y), b0.cell(x, y)), #[trigger] m.cell(x, y)),
                    forall|y: int|
                        0 <= y < j ==> call_ensures(T::add, (a0.cell(i as int, y), b0.cell(i as int, y)), #[trigger] m.cell(i as int, y)),
                    forall|x: int, y: int| i <= x < R && 0 <= y < C && (x > i || y >= j) ==> #[trigger] a.cell(x, y) == a0.cell(x, y),
                    forall|x: int, y: int| i <= x < R && 0 <= y < C && (x > i || y >= j) ==> #[trigger] b.cell(x, y) == b0.cell(x, y),
                decreases C - j,
            {
                proof {
                    a.lemma_shape();
                    b.lemma_shape();
                    m.lemma_shape();
                }
                let ghost (a1, b1, m1) = (a, b, m);
                let x = a.replace((i, j), default_value());
                let y = b.replace((i, j), default_value());
                assert(x.add_req(y));
                m.set((i, j), x + y);
                assert(forall|p: int, q: int| 0 <= p < R && 0 <= q < C && (p != i || q != j) ==> #[trigger] a.cell(p, q) == a1.cell(p, q));
                assert(forall|p: int, q: int| 0 <= p < R && 0 <= q < C && (p != i || q != j) ==> #[trigger] b.cell(p, q) == b1.cell(p, q));
                assert(forall|p: int, q: int| 0 <= p < R && 0 <= q < C && (p != i || q != j) ==> #[trigger] m.cell(p, q) == m1.cell(p, q));
                j += 1;
            }
            i += 1;
        }
        proof {
            m.lemma_shape();
        }
        proof {
            if T::obeys_add_spec() {
                assert forall|x: int| 0 <= x < R implies #[trigger] m@[x] =~= a0.sum(&b0)[x] by {
                assert forall|y: int| 0 <= y < C implies m@[x][y] == a0.sum(&b0)[x][y] by {
                    assert(m.cell(x, y) == a0.cell(x, y).add_spec(b0.cell(x, y)));
                }
            }
            assert(m@ =~= a0.sum(&b0));
            }
        }
        m
    }
}

impl<T: Default + Copy + Mul<Output = T>, const R: usize, const C: usize> Matrix<T, R, C> {
    /// Every cell multiplied by `rhs`, in a new matrix.
    pub fn mul_scal(&self, rhs: T) -> (m: Self)
        requires
            self.scale_ok(rhs),
        ensures
            T::obeys_mul_spec() ==> m@ == self.scaled(rhs),
            forall|x: int, y: int|
                0 <= x < R && 0 <= y < C ==> call_ensures(T::mul, (self.cell(x, y), rhs), #[trigger] m.cell(x, y)),
    {
        let mut m: Self = Matrix::new();
        let mut i: usize = 0;
        while i < R
            invariant
                i <= R,
                self.scale_ok(rhs),
                T::obeys_mul_spec() ==> forall|x: int, y: int|
                    0 <= x < i && 0 <= y < C ==> #[trigger] m.cell(x, y) == self.cell(x, y).mul_spec(rhs),
                forall|x: int, y: int|
                    0 <= x < i && 0 <= y < C ==> call_ensures(T::mul, (self.cell(x, y), rhs), #[trigger] m.cell(x, y)),
            decreases R - i,
        {
            let mut j: usize = 0;
            while j < C
                invariant
                    i < R,
                    j <= C,
                    self.scale_ok(rhs),
                    T::obeys_mul_spec() ==> forall|x: int, y: int|
                        0 <= x < i && 0 <= y < C ==> #[trigger] m.cell(x, y) == self.cell(x, y).mul_spec(rhs),
                    T::obeys_mul_spec() ==> forall|y: int|
                        0 <= y < j ==> #[trigger] m.cell(i as int, y) == self.cell(i as int, y).mul_spec(rhs),
                    forall|x: int, y: int|
                        0 <= x < i && 0 <= y < C ==> call_ensures(T::mul, (self.cell(x, y), rhs), #[trigger] m.cell(x, y)),
                    forall|y: int|
                        0 <= y < j ==> call_ensures(T::mul, (self.cell(i as int, y), rhs), #[trigger] m.cell(i as int, y)),
                decreases C - j,
            {
                proof {
                    m.lemma_shape();
                }
                let ghost m1 = m;
                assert(self.cell(i as int, j as int).mul_req(rhs));
                let v = *self.get((i, j)) * rhs;
                m.set((i, j), v);
                assert(forall|p: int, q: int| 0 <= p < R && 0 <= q < C && (p != i || q != j) ==> #[trigger] m.cell(p, q) == m1.cell(p, q));
                j += 1;
            }
            i += 1;
        }
        proof {
            m.lemma_shape();
            if T::obeys_mul_spec() {
                assert forall|x: int| 0 <= x < R implies #[trigger] m@[x] =~= self.scaled(rhs)[x] by {
                    assert forall|y: int| 0 <= y < C implies m@[x][y] == self.scaled(rhs)[x][y] by {
                        assert(m.cell(x, y) == self.cell(x, y).mul_spec(rhs));
                    }
                }
                assert(m@ =~= self.scaled(rhs));
            }
        }
        m
    }
}

impl<T: Default + Copy + Add<Output = T> + Mul<Output = T>, const R: usize, const C: usize> Matrix<T, R, C> {
    /// The matrix product. Each cell starts from one default value and adds the
    /// products of a row of `self` and a column of `rhs` in index order.
    pub fn mul<const K: usize>(self, rhs: Matrix<T, C, K>) -> (m: Matrix<T, R, K>)
        requires
            T::obeys_add_spec(),
            T::obeys_mul_spec(),
            forall|d: T| is_default(d) ==> self.product_ok(&rhs, d),
        ensures
            exists|d: T| is_default(d) && m@ == self.product(&rhs, d),
    {
        let ghost a0 = self;
        let ghost b0 = rhs;
        let zero: T = default_value();
        assert(a0.product_ok(&b0, zero));
        let rows = self.rows();
        let cols = rhs.cols();
        let mut m: Matrix<T, R, K> = Matrix::new();
        let mut i: usize = 0;
        while i < R
            invariant
                i <= R,
                T::obeys_add_spec(),
                T::obeys_mul_spec(),
                a0.product_ok(&b0, zero),
                rows == a0.0,
                Matrix(cols)@ == b0.transposed(),
                forall|x: int, y: int|
                    0 <= x < i && 0 <= y < K ==> #[trigger] m.cell(x, y) == a0.product(&b0, zero)[x][y],
            decreases R - i,
        {
            let mut k: usize = 0;
            while k < K
                invariant
                    i < R,
                    k <= K,
                    T::obeys_add_spec(),
                    T::obeys_mul_spec(),
                    a0.product_ok(&b0, zero),
                    rows == a0.0,
                    Matrix(cols)@ == b0.transposed(),
                    forall|x: int, y: int|
                        0 <= x < i && 0 <= y < K ==> #[trigger] m.cell(x, y) == a0.product(&b0, zero)[x][y],
                    forall|y: int| 0 <= y < k ==> #[trigger] m.cell(i as int, y) == a0.product(&b0, zero)[i as int][y],
                decreases K - k,
            {
                proof {
                    m.lemma_shape();
                    assert(cols@[k as int]@ == Matrix(cols)@[k as int]);
                    assert(dot_ok(zero, a0@[i as int], b0.transposed()[k as int], C as int));
                }
                let ghost m1 = m;
                let v = dot_from(zero, &rows[i], &cols[k]);
                m.set((i, k), v);
                assert(forall|p: int, q: int| 0 <= p < R && 0 <= q < K && (p != i || q != k) ==> #[trigger] m.cell(p, q) == m1.cell(p, q));
                k += 1;
            }
            i += 1;
        }
        proof {
            m.lemma_shape();
            assert forall|x: int| 0 <= x < R implies #[trigger] m@[x] =~= a0.product(&b0, zero)[x] by {
                assert forall|y: int| 0 <= y < K implies m@[x][y] == a0.product(&b0, zero)[x][y] by {
                    assert(m.cell(x, y) == a0.product(&b0, zero)[x][y]);
                }
            }
            assert(m@ =~= a0.product(&b0, zero));
        }
        m
    }
}

} // verus!
