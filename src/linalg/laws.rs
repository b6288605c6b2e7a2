use vstd::prelude::*;
use vstd::std_specs::ops::{AddSpec, MulSpec, NegSpec, SubSpec};
use std::ops::{Add, Mul, Neg, Sub};
use crate::linalg::matrix::{Matrix, is_default};
use crate::linalg::vector::{Vector, dot_fold};

verus! {

/// Writing `v` at `(r, c)`, as `set`, `replace` and a write through `get_mut` do,
/// makes `get` at `(r, c)` read `v` and leaves every other cell as it was.
pub proof fn lemma_matrix_write_then_read<T, const R: usize, const C: usize>(
    before: Matrix<T, R, C>,
    after: Matrix<T, R, C>,
    r: int,
    c: int,
    v: T,
)
    requires
        0 <= r < R,
        0 <= c < C,
        after@ == before.updated(r, c, v),
    ensures
        after.cell(r, c) == v,
        forall|i: int, j: int|
            0 <= i < R && 0 <= j < C && (i != r || j != c) ==> #[trigger] after.cell(i, j) == before.cell(i, j),
{
    before.lemma_shape();
    after.lemma_shape();
    assert forall|i: int, j: int| 0 <= i < R && 0 <= j < C && (i != r || j != c) implies #[trigger] after.cell(i, j)
        == before.cell(i, j) by {
        if i != r {
            assert(after@[i] == before@[i]);
        } else {
            assert(after@[i] == before@[r].update(c, v));
        }
    }
}

/// Writing `v` at index `i` of a vector, as `set` and a write through `get_mut` do,
/// makes `get` at `i` read `v` and leaves every other element as it was.
pub proof fn lemma_vector_write_then_read<T, const L: usize>(before: Vector<T, L>, after: Vector<T, L>, i: int, v: T)
    requires
        0 <= i < L,
        after@ == before@.update(i, v),
    ensures
        after@[i] == v,
        forall|k: int| 0 <= k < L && k != i ==> #[trigger] after@[k] == before@[k],
{
    vstd::array::array_len_matches_n(&before.0);
}

/// Collecting, in order, every cell that the owning traversal of `m` hands out
/// (that is, `m.flat()`) rebuilds `m`.
pub proof fn lemma_collect_drained<T: Default, const R: usize, const C: usize>(
    m: Matrix<T, R, C>,
    collected: Matrix<T, R, C>,
)
    requires
        collected.collected_from(m.flat()),
    ensures
        collected@ == m@,
{
    assert(collected.flat() =~= m.flat());
    Matrix::lemma_flat_eq(collected, m);
}

/// Collecting, in order, every element that the owning traversal of `v` hands out
/// (that is, `v@`) rebuilds `v`.
pub proof fn lemma_vector_collect_drained<T: Default, const L: usize>(v: Vector<T, L>, collected: Vector<T, L>)
    requires
        collected.collected_from(v@),
    ensures
        collected@ == v@,
{
    vstd::array::array_len_matches_n(&v.0);
    vstd::array::array_len_matches_n(&collected.0);
    assert(collected@ =~= v@);
}

/// Transposing twice gives back the matrix: if `t` is the transpose of `m`,
/// then the transpose of `t` is `m`.
pub proof fn lemma_transpose_involution<T, const R: usize, const C: usize>(m: Matrix<T, R, C>, t: Matrix<T, C, R>)
    requires
        t@ == m.transposed(),
    ensures
        t.transposed() == m@,
{
    m.lemma_shape();
    assert forall|i: int| 0 <= i < R implies #[trigger] t.transposed()[i] =~= m@[i] by {}
    assert(t.transposed() =~= m@);
}

/// Scaling distributes over addition for `i32` matrices: if `ab` is `a + b`,
/// `sa` is `a * s` and `sb` is `b * s`, then `ab * s` is `sa + sb`.
pub proof fn lemma_scale_distributes<const R: usize, const C: usize>(
    a: Matrix<i32, R, C>,
    b: Matrix<i32, R, C>,
    s: i32,
    ab: Matrix<i32, R, C>,
    sa: Matrix<i32, R, C>,
    sb: Matrix<i32, R, C>,
)
    requires
        a.add_ok(&b),
        ab@ == a.sum(&b),
        ab.scale_ok(s),
        a.scale_ok(s),
        b.scale_ok(s),
        sa@ == a.scaled(s),
        sb@ == b.scaled(s),
    ensures
        sa.add_ok(&sb),
        ab.scaled(s) == sa.sum(&sb),
{
    a.lemma_shape();
    assert forall|i: int, j: int| 0 <= i < R && 0 <= j < C implies #[trigger] sa.cell(i, j) + sb.cell(i, j)
        == ab.cell(i, j) * s by {
        assert(ab.cell(i, j) == a.cell(i, j) + b.cell(i, j));
        assert(sa.cell(i, j) == a.cell(i, j) * s);
        assert(sb.cell(i, j) == b.cell(i, j) * s);
        assert((a.cell(i, j) + b.cell(i, j)) * s == a.cell(i, j) * s + b.cell(i, j) * s) by (nonlinear_arith);
    }
    assert forall|i: int| 0 <= i < R implies #[trigger] ab.scaled(s)[i] =~= sa.sum(&sb)[i] by {
        assert forall|j: int| 0 <= j < C implies ab.scaled(s)[i][j] == sa.sum(&sb)[i][j] by {
            assert(sa.cell(i, j) + sb.cell(i, j) == ab.cell(i, j) * s);
        }
    }
    assert(ab.scaled(s) =~= sa.sum(&sb));
}

/// Scaling distributes over addition for every element type whose multiplication
/// distributes over its addition (as it does for the integer types, whose operators
/// wrap in the spec): if `ab` is `a + b`, `sa` is `a * s` and `sb` is `b * s`, then
/// `ab * s` is `sa + sb`.
pub proof fn lemma_scale_distributes_generic<T: Add<Output = T> + Mul<Output = T>, const R: usize, const C: usize>(
    a: Matrix<T, R, C>,
    b: Matrix<T, R, C>,
    s: T,
    ab: Matrix<T, R, C>,
    sa: Matrix<T, R, C>,
    sb: Matrix<T, R, C>,
)
    requires
        forall|x: T, y: T, z: T| #[trigger] x.add_spec(y).mul_spec(z) == x.mul_spec(z).add_spec(y.mul_spec(z)),
        ab@ == a.sum(&b),
        sa@ == a.scaled(s),
        sb@ == b.scaled(s),
    ensures
        ab.scaled(s) == sa.sum(&sb),
{
    a.lemma_shape();
    assert forall|i: int| 0 <= i < R implies #[trigger] ab.scaled(s)[i] =~= sa.sum(&sb)[i] by {
        assert forall|j: int| 0 <= j < C implies ab.scaled(s)[i][j] == sa.sum(&sb)[i][j] by {
            assert(ab.cell(i, j) == a.cell(i, j).add_spec(b.cell(i, j)));
            assert(sa.cell(i, j) == a.cell(i, j).mul_spec(s));
            assert(sb.cell(i, j) == b.cell(i, j).mul_spec(s));
            assert(a.cell(i, j).add_spec(b.cell(i, j)).mul_spec(s) == a.cell(i, j).mul_spec(s).add_spec(
                b.cell(i, j).mul_spec(s),
            ));
        }
    }
    assert(ab.scaled(s) =~= sa.sum(&sb));
}

/// The cross product anti-commutes for every element type whose multiplication
/// commutes and whose `x - y` is the negation of `y - x`: each component of
/// `u x v` is the negation of the matching component of `v x u`.
pub proof fn lemma_cross_anticommutes_generic<T: Sub<Output = T> + Mul<Output = T> + Neg<Output = T>>(
    u: Vector<T, 3>,
    v: Vector<T, 3>,
)
    requires
        forall|x: T, y: T| #[trigger] x.mul_spec(y) == y.mul_spec(x),
        forall|x: T, y: T| #[trigger] x.sub_spec(y) == y.sub_spec(x).neg_spec(),
    ensures
        forall|i: int| 0 <= i < 3 ==> #[trigger] u.crossed(&v)[i] == v.crossed(&u)[i].neg_spec(),
{
    let (x, y) = (u@, v@);
    assert(y[1].mul_spec(x[2]) == x[2].mul_spec(y[1]));
    assert(y[2].mul_spec(x[1]) == x[1].mul_spec(y[2]));
    assert(y[2].mul_spec(x[0]) == x[0].mul_spec(y[2]));
    assert(y[0].mul_spec(x[2]) == x[2].mul_spec(y[0]));
    assert(y[0].mul_spec(x[1]) == x[1].mul_spec(y[0]));
    assert(y[1].mul_spec(x[0]) == x[0].mul_spec(y[1]));
    assert(x[1].mul_spec(y[2]).sub_spec(x[2].mul_spec(y[1])) == x[2].mul_spec(y[1]).sub_spec(x[1].mul_spec(y[2])).neg_spec());
    assert(x[2].mul_spec(y[0]).sub_spec(x[0].mul_spec(y[2])) == x[0].mul_spec(y[2]).sub_spec(x[2].mul_spec(y[0])).neg_spec());
    assert(x[0].mul_spec(y[1]).sub_spec(x[1].mul_spec(y[0])) == x[1].mul_spec(y[0]).sub_spec(x[0].mul_spec(y[1])).neg_spec());
}

/// For vectors of length one the dot product is the default value plus the one product.
pub proof fn lemma_dot_length_one<T: Add<Output = T> + Mul<Output = T>>(d: T, u: Vector<T, 1>, v: Vector<T, 1>)
    ensures
        dot_fold(d, u@, v@, 1) == d.add_spec(u@[0].mul_spec(v@[0])),
{
    assert(dot_fold(d, u@, v@, 0) == d);
}

/// For `1 x 1` matrices the product's one cell is the default value plus the one product.
pub proof fn lemma_product_one_by_one<T: Add<Output = T> + Mul<Output = T>>(d: T, a: Matrix<T, 1, 1>, b: Matrix<T, 1, 1>)
    ensures
        a.product(&b, d)[0][0] == d.add_spec(a.cell(0, 0).mul_spec(b.cell(0, 0))),
{
    assert(dot_fold(d, a@[0], b.transposed()[0], 0) == d);
}

/// The dot product is symmetric when multiplication commutes: folding the
/// products of `u` and `v` gives what folding those of `v` and `u` gives.
pub proof fn lemma_dot_commutative<T: Add<Output = T> + Mul<Output = T>>(acc: T, u: Seq<T>, v: Seq<T>, n: int)
    requires
        forall|x: T, y: T| #[trigger] x.mul_spec(y) == y.mul_spec(x),
    ensures
        dot_fold(acc, u, v, n) == dot_fold(acc, v, u, n),
    decreases n,
{
    if n > 0 {
        lemma_dot_commutative(acc, u, v, n - 1);
        assert(u[n - 1].mul_spec(v[n - 1]) == v[n - 1].mul_spec(u[n - 1]));
    }
}

/// The cross product of `i32` vectors anti-commutes: each component of
/// `u x v` is the negation of the matching component of `v x u`.
pub proof fn lemma_cross_anticommutes(u: Vector<i32, 3>, v: Vector<i32, 3>)
    requires
        u.cross_ok(&v),
        v.cross_ok(&u),
    ensures
        forall|i: int| 0 <= i < 3 ==> #[trigger] u.crossed(&v)[i] == -v.crossed(&u)[i],
{
    let (x, y) = (u@, v@);
    assert(x[1] * y[2] == y[2] * x[1]) by (nonlinear_arith);
    assert(x[2] * y[1] == y[1] * x[2]) by (nonlinear_arith);
    assert(x[2] * y[0] == y[0] * x[2]) by (nonlinear_arith);
    assert(x[0] * y[2] == y[2] * x[0]) by (nonlinear_arith);
    assert(x[0] * y[1] == y[1] * x[0]) by (nonlinear_arith);
    assert(x[1] * y[0] == y[0] * x[1]) by (nonlinear_arith);
}

/// `u.dot(v)` and `v.dot(u)` return the same value when multiplication commutes
/// and `T::default()` has one possible result: `uv` and `vu` stand for what the two
/// calls may return.
pub proof fn lemma_dot_calls_commute<T: Add<Output = T> + Mul<Output = T> + Default, const L: usize>(
    u: Vector<T, L>,
    v: Vector<T, L>,
    uv: T,
    vu: T,
)
    requires
        forall|x: T, y: T| #[trigger] x.mul_spec(y) == y.mul_spec(x),
        forall|d1: T, d2: T| is_default(d1) && is_default(d2) ==> d1 == d2,
        exists|d: T| is_default(d) && uv == dot_fold(d, u@, v@, L as int),
        exists|d: T| is_default(d) && vu == dot_fold(d, v@, u@, L as int),
    ensures
        uv == vu,
{
    let d1 = choose|d: T| is_default(d) && uv == dot_fold(d, u@, v@, L as int);
    let d2 = choose|d: T| is_default(d) && vu == dot_fold(d, v@, u@, L as int);
    assert(d1 == d2);
    lemma_dot_commutative(d1, u@, v@, L as int);
}

} // verus!
