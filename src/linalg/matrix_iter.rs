use vstd::prelude::*;
use crate::linalg::matrix::{Matrix, is_default};

verus! {

/// `idx` addresses a cell of an `R` by `C` matrix, or is the end mark `(R, 0)`.
pub open spec fn index_ok<const R: usize, const C: usize>(idx: (usize, usize)) -> bool {
    (idx.0 < R && idx.1 < C) || idx == (R, 0usize)
}

/// The row-major position of `idx`.
pub open spec fn index_pos<const R: usize, const C: usize>(idx: (usize, usize)) -> int {
    idx.0 * C + idx.1
}

/// Where a row-major traversal starts: the first cell, or the end mark when there is none.
pub open spec fn first_index<const R: usize, const C: usize>() -> (usize, usize) {
    if R == 0 || C == 0 {
        (R, 0usize)
    } else {
        (0usize, 0usize)
    }
}

/// The cell that follows `idx` in row-major order (the end mark after the last cell).
pub open spec fn index_after<const R: usize, const C: usize>(idx: (usize, usize)) -> (usize, usize) {
    if idx.1 + 1 == C {
        ((idx.0 + 1) as usize, 0usize)
    } else {
        (idx.0, (idx.1 + 1) as usize)
    }
}

fn start_index<const R: usize, const C: usize>() -> (idx: (usize, usize))
    ensures
        idx == first_index::<R, C>(),
        index_ok::<R, C>(idx),
        index_pos::<R, C>(idx) == 0 || (idx == (R, 0usize) && R * C == 0),
{
    if R == 0 || C == 0 {
        proof {
            assert(R * C == 0) by (nonlinear_arith)
                requires
                    R == 0 || C == 0,
            ;
            assert(R * C == R * 0 + 0 || R == 0);
        }
        (R, 0)
    } else {
        (0, 0)
    }
}

fn next_index<const R: usize, const C: usize>(idx: (usize, usize)) -> (n: (usize, usize))
    requires
        idx.0 < R,
        idx.1 < C,
    ensures
        n == index_after::<R, C>(idx),
        index_ok::<R, C>(n),
        index_pos::<R, C>(n) == index_pos::<R, C>(idx) + 1,
{
    if idx.1 + 1 == C {
        assert((idx.0 + 1) * C == idx.0 * C + C) by (nonlinear_arith);
        (idx.0 + 1, 0)
    } else {
        (idx.0, idx.1 + 1)
    }
}

proof fn lemma_index_bounds<const R: usize, const C: usize>(idx: (usize, usize))
    requires
        index_ok::<R, C>(idx),
    ensures
        0 <= index_pos::<R, C>(idx) <= R * C,
        index_pos::<R, C>(idx) == R * C <==> idx == (R, 0usize),
{
    if idx.0 < R && idx.1 < C {
        assert(0 <= idx.0 * C) by (nonlinear_arith);
        assert(idx.0 * C + C <= R * C) by (nonlinear_arith)
            requires
                idx.0 < R,
        ;
    }
}

/// The owning traversal: hands out each cell once, in row-major order,
/// leaving a default value in its place.
pub struct MatrixIterator<T, const R: usize, const C: usize> {
    matrix: Matrix<T, R, C>,
    iter_index: (usize, usize),
}

impl<T: Default, const R: usize, const C: usize> MatrixIterator<T, R, C> {
    pub closed spec fn wf(&self) -> bool {
        index_ok::<R, C>(self.iter_index)
    }

    /// How many cells have been handed out.
    pub closed spec fn position(&self) -> int {
        index_pos::<R, C>(self.iter_index)
    }

    /// The cells still to come, in order.
    pub closed spec fn remaining(&self) -> Seq<T> {
        self.matrix.flat().subrange(self.position(), R * C)
    }

    pub fn new(matrix: Matrix<T, R, C>) -> (it: Self)
        ensures
            it.wf(),
            it.position() == 0,
            it.remaining() == matrix.flat(),
    {
        let it = MatrixIterator { matrix, iter_index: start_index::<R, C>() };
        assert(it.remaining() =~= matrix.flat());
        it
    }

    pub fn enumerate(self) -> (e: MatrixEnumerator<T, R, C>)
        ensures
            e.iterator() == self,
    {
        MatrixEnumerator::new(self)
    }

    /// The row and column of the next cell to come.
    fn current_index(&self) -> (idx: (usize, usize))
        requires
            self.wf(),
        ensures
            idx.0 < R && idx.1 < C ==> index_pos::<R, C>(idx) == self.position(),
            self.remaining().len() > 0 <==> (idx.0 < R && idx.1 < C),
    {
        proof {
            lemma_index_bounds::<R, C>(self.iter_index);
        }
        self.iter_index
    }

    pub fn next(&mut self) -> (r: Option<T>)
        requires
            old(self).wf(),
        ensures
            final(self).wf(),
            old(self).remaining().len() == 0 ==> r is None && final(self).remaining() == old(self).remaining()
                && final(self).position() == old(self).position(),
            old(self).remaining().len() > 0 ==> r == Some(old(self).remaining()[0])
                && final(self).remaining() == old(self).remaining().drop_first()
                && final(self).position() == old(self).position() + 1,
    {
        proof {
            lemma_index_bounds::<R, C>(self.iter_index);
        }
        let (row, col) = self.iter_index;
        if row >= R {
            return None;
        }
        let ghost before = self.matrix;
        proof {
            before.lemma_flat_index(row as int, col as int);
        }
        let d: T = T::default();
        let elem = self.matrix.replace((row, col), d);
        proof {
            Matrix::lemma_flat_update(before, self.matrix, row as int, col as int, d);
        }
        self.iter_index = next_index::<R, C>((row, col));
        proof {
            lemma_index_bounds::<R, C>(self.iter_index);
        }
        assert(self.remaining() =~= old(self).remaining().drop_first());
        Some(elem)
    }
}

/// The owning traversal paired with the row and column of each cell.
pub struct MatrixEnumerator<T, const R: usize, const C: usize>(MatrixIterator<T, R, C>);

impl<T: Default, const R: usize, const C: usize> MatrixEnumerator<T, R, C> {
    pub closed spec fn iterator(&self) -> MatrixIterator<T, R, C> {
        self.0
    }

    pub fn new(iter: MatrixIterator<T, R, C>) -> (e: Self)
        ensures
            e.iterator() == iter,
    {
        MatrixEnumerator(iter)
    }

    pub fn next(&mut self) -> (r: Option<((usize, usize), T)>)
        requires
            old(self).iterator().wf(),
        ensures
            final(self).iterator().wf(),
            old(self).iterator().remaining().len() == 0 ==> r is None
                && final(self).iterator().remaining() == old(self).iterator().remaining(),
            old(self).iterator().remaining().len() > 0 ==> (r matches Some((idx, v))
                && idx.0 < R && idx.1 < C
                && index_pos::<R, C>(idx) == old(self).iterator().position()
                && v == old(self).iterator().remaining()[0]
                && final(self).iterator().remaining() == old(self).iterator().remaining().drop_first()
                && final(self).iterator().position() == old(self).iterator().position() + 1),
    {
        let index = self.0.current_index();
        match self.0.next() {
            Some(v) => Some((index, v)),
            None => None,
        }
    }
}

impl<T: Default, const R: usize, const C: usize> Matrix<T, R, C> {
    /// The row-major cells hold `s` in order; past the end of `s` they hold default values,
    /// and what `s` has beyond `R * C` items is left out.
    pub open spec fn collected_from(&self, s: Seq<T>) -> bool {
        forall|k: int|
            0 <= k < R * C ==> if k < s.len() {
                #[trigger] self.flat()[k] == s[k]
            } else {
                is_default(self.flat()[k])
            }
    }

    /// Fills the matrix in row-major order from `items`.
    pub fn from_iter(items: Vec<T>) -> (m: Self)
        ensures
            m.collected_from(items@),
    {
        let ghost s = items@;
        let mut items = items;
        let mut m: Self = Matrix::new();
        let mut idx = start_index::<R, C>();
        proof {
            lemma_index_bounds::<R, C>(idx);
            assert forall|k: int| 0 <= k < R * C implies is_default(#[trigger] m.flat()[k]) by {
                Self::lemma_flat_position(k);
            }
        }
        while idx.0 < R
            invariant
                index_ok::<R, C>(idx),
                0 <= index_pos::<R, C>(idx) <= R * C,
                index_pos::<R, C>(idx) <= s.len() ==> items@ == s.subrange(index_pos::<R, C>(idx), s.len() as int),
                index_pos::<R, C>(idx) > s.len() ==> items@.len() == 0,
                forall|k: int|
                    0 <= k < index_pos::<R, C>(idx) ==> if k < s.len() {
                        #[trigger] m.flat()[k] == s[k]
                    } else {
                        is_default(m.flat()[k])
                    },
                forall|k: int| index_pos::<R, C>(idx) <= k < R * C ==> is_default(#[trigger] m.flat()[k]),
            decreases R * C - index_pos::<R, C>(idx),
        {
            proof {
                lemma_index_bounds::<R, C>(idx);
            }
            if items.len() > 0 {
                let v = items.remove(0);
                let ghost before = m;
                m.set(idx, v);
                proof {
                    Self::lemma_flat_update(before, m, idx.0 as int, idx.1 as int, v);
                }
            }
            idx = next_index::<R, C>(idx);
            proof {
                lemma_index_bounds::<R, C>(idx);
            }
        }
        m
    }

    /// The owning traversal of this matrix.
    pub fn into_iter(self) -> (it: MatrixIterator<T, R, C>)
        ensures
            it.wf(),
            it.position() == 0,
            it.remaining() == self.flat(),
    {
        MatrixIterator::new(self)
    }
}

/// The borrowing traversal: a reference to each cell, in row-major order.
pub struct MatrixIter<'a, T, const R: usize, const C: usize> {
    matrix: &'a Matrix<T, R, C>,
    iter_index: (usize, usize),
}

impl<'a, T, const R: usize, const C: usize> MatrixIter<'a, T, R, C> {
    pub closed spec fn wf(&self) -> bool {
        index_ok::<R, C>(self.iter_index)
    }

    /// How many cells have been handed out.
    pub closed spec fn position(&self) -> int {
        index_pos::<R, C>(self.iter_index)
    }

    /// The cells still to come, in order.
    pub closed spec fn remaining(&self) -> Seq<T> {
        self.matrix.flat().subrange(self.position(), R * C)
    }

    pub fn new(matrix: &'a Matrix<T, R, C>) -> (it: Self)
        ensures
            it.wf(),
            it.position() == 0,
            it.remaining() == matrix.flat(),
    {
        let it = MatrixIter { matrix, iter_index: start_index::<R, C>() };
        assert(it.remaining() =~= matrix.flat());
        it
    }

    pub fn enumerate(self) -> (e: MatrixEnum<'a, T, R, C>)
        ensures
            e.iterator() == self,
    {
        MatrixEnum::new(self)
    }

    fn current_index(&self) -> (idx: (usize, usize))
        requires
            self.wf(),
        ensures
            idx.0 < R && idx.1 < C ==> index_pos::<R, C>(idx) == self.position(),
            self.remaining().len() > 0 <==> (idx.0 < R && idx.1 < C),
    {
        proof {
            lemma_index_bounds::<R, C>(self.iter_index);
        }
        self.iter_index
    }

    pub fn next(&mut self) -> (r: Option<&'a T>)
        requires
            old(self).wf(),
        ensures
            final(self).wf(),
            old(self).remaining().len() == 0 ==> r is None && final(self).remaining() == old(self).remaining()
                && final(self).position() == old(self).position(),
            old(self).remaining().len() > 0 ==> (r matches Some(v) && *v == old(self).remaining()[0])
                && final(self).remaining() == old(self).remaining().drop_first()
                && final(self).position() == old(self).position() + 1,
    {
        proof {
            lemma_index_bounds::<R, C>(self.iter_index);
        }
        let (row, col) = self.iter_index;
        if row >= R {
            return None;
        }
        proof {
            self.matrix.lemma_flat_index(row as int, col as int);
        }
        let elem = self.matrix.get((row, col));
        self.iter_index = next_index::<R, C>((row, col));
        proof {
            lemma_index_bounds::<R, C>(self.iter_index);
        }
        assert(self.remaining() =~= old(self).remaining().drop_first());
        Some(elem)
    }
}

/// The borrowing traversal paired with the row and column of each cell.
pub struct MatrixEnum<'a, T, const R: usize, const C: usize>(MatrixIter<'a, T, R, C>);

impl<'a, T, const R: usize, const C: usize> MatrixEnum<'a, T, R, C> {
    pub closed spec fn iterator(&self) -> MatrixIter<'a, T, R, C> {
        self.0
    }

    pub fn new(iter: MatrixIter<'a, T, R, C>) -> (e: Self)
        ensures
            e.iterator() == iter,
    {
        MatrixEnum(iter)
    }

    pub fn next(&mut self) -> (r: Option<((usize, usize), &'a T)>)
        requires
            old(self).iterator().wf(),
        ensures
            final(self).iterator().wf(),
            old(self).iterator().remaining().len() == 0 ==> r is None
                && final(self).iterator().remaining() == old(self).iterator().remaining(),
            old(self).iterator().remaining().len() > 0 ==> (r matches Some((idx, v))
                && idx.0 < R && idx.1 < C
                && index_pos::<R, C>(idx) == old(self).iterator().position()
                && *v == old(self).iterator().remaining()[0]
                && final(self).iterator().remaining() == old(self).iterator().remaining().drop_first()
                && final(self).iterator().position() == old(self).iterator().position() + 1),
    {
        let index = self.0.current_index();
        match self.0.next() {
            Some(v) => Some((index, v)),
            None => None,
        }
    }
}

impl<T, const R: usize, const C: usize> Matrix<T, R, C> {
    /// The borrowing traversal of this matrix.
    pub fn iter(&self) -> (it: MatrixIter<'_, T, R, C>)
        ensures
            it.wf(),
            it.position() == 0,
            it.remaining() == self.flat(),
    {
        MatrixIter::new(self)
    }
}

/// The mutable traversal: a writable reference to each cell in turn, in row-major
/// order. Each reference lives until the next step at most.
pub struct MatrixIterMut<'a, T, const R: usize, const C: usize> {
    pub matrix: &'a mut Matrix<T, R, C>,
    pub iter_index: (usize, usize),
}

impl<'a, T, const R: usize, const C: usize> MatrixIterMut<'a, T, R, C> {
    pub open spec fn wf(&self) -> bool {
        index_ok::<R, C>(self.iter_index)
    }

    /// How many cells have been handed out.
    pub open spec fn position(&self) -> int {
        index_pos::<R, C>(self.iter_index)
    }

    /// The matrix as it stands now.
    pub open spec fn current(&self) -> Matrix<T, R, C> {
        *self.matrix
    }

    pub fn new(matrix: &'a mut Matrix<T, R, C>) -> (it: Self)
        ensures
            it.wf(),
            it.position() == 0,
            it.iter_index == first_index::<R, C>(),
            it.current() == *old(matrix),
            *final(it.matrix) == *final(matrix),
    {
        MatrixIterMut { matrix, iter_index: start_index::<R, C>() }
    }

    pub fn enumerate(self) -> (e: MatrixEnumMut<'a, T, R, C>)
        ensures
            e.0 == self,
            *final(e.0.matrix) == *final(self.matrix),
    {
        MatrixEnumMut::new(self)
    }

    fn current_index(&self) -> (idx: (usize, usize))
        requires
            self.wf(),
        ensures
            idx == self.iter_index,
            idx.0 < R && idx.1 < C ==> index_pos::<R, C>(idx) == self.position(),
            self.position() < R * C <==> (idx.0 < R && idx.1 < C),
            0 <= self.position() <= R * C,
    {
        proof {
            lemma_index_bounds::<R, C>(self.iter_index);
        }
        self.iter_index
    }

    pub fn next(&mut self) -> (r: Option<&mut T>)
        requires
            old(self).wf(),
        ensures
            final(self).wf(),
            *final(final(self).matrix) == *final(old(self).matrix),
            0 <= old(self).position() <= R * C,
            old(self).position() < R * C <==> old(self).iter_index.0 < R,
            old(self).position() == R * C ==> r is None && final(self).current() == old(self).current()
                && final(self).iter_index == old(self).iter_index,
            old(self).position() < R * C ==> (r matches Some(v)
                && *v == old(self).current().cell(old(self).iter_index.0 as int, old(self).iter_index.1 as int)
                && final(self).current()@ == old(self).current().updated(
                    old(self).iter_index.0 as int,
                    old(self).iter_index.1 as int,
                    *final(v),
                )
                && final(self).iter_index == index_after::<R, C>(old(self).iter_index)
                && final(self).position() == old(self).position() + 1),
    {
        proof {
            lemma_index_bounds::<R, C>(self.iter_index);
        }
        let (row, col) = self.iter_index;
        if row >= R {
            return None;
        }
        self.iter_index = next_index::<R, C>((row, col));
        Some(self.matrix.get_mut((row, col)))
    }
}

/// The mutable traversal paired with the row and column of each cell.
pub struct MatrixEnumMut<'a, T, const R: usize, const C: usize>(pub MatrixIterMut<'a, T, R, C>);

impl<'a, T, const R: usize, const C: usize> MatrixEnumMut<'a, T, R, C> {
    pub fn new(iter: MatrixIterMut<'a, T, R, C>) -> (e: Self)
        ensures
            e.0 == iter,
            *final(e.0.matrix) == *final(iter.matrix),
    {
        MatrixEnumMut(iter)
    }

    pub fn next(&mut self) -> (r: Option<((usize, usize), &mut T)>)
        requires
            old(self).0.wf(),
        ensures
            final(self).0.wf(),
            *final(final(self).0.matrix) == *final(old(self).0.matrix),
            old(self).0.position() == R * C ==> r is None && final(self).0.current() == old(self).0.current()
                && final(self).0.iter_index == old(self).0.iter_index,
            old(self).0.position() < R * C ==> (r matches Some((idx, v))
                && idx == old(self).0.iter_index
                && idx.0 < R && idx.1 < C
                && index_pos::<R, C>(idx) == old(self).0.position()
                && final(self).0.iter_index == index_after::<R, C>(idx)
                && *v == old(self).0.current().cell(idx.0 as int, idx.1 as int)
                && final(self).0.current()@ == old(self).0.current().updated(idx.0 as int, idx.1 as int, *final(v))
                && final(self).0.position() == old(self).0.position() + 1),
    {
        let index = self.0.current_index();
        match self.0.next() {
            Some(v) => Some((index, v)),
            None => None,
        }
    }
}

impl<T, const R: usize, const C: usize> Matrix<T, R, C> {
    /// The mutable traversal of this matrix.
    pub fn iter_mut(&mut self) -> (it: MatrixIterMut<'_, T, R, C>)
        ensures
            it.wf(),
            it.position() == 0,
            it.iter_index == first_index::<R, C>(),
            it.current() == *old(self),
            *final(it.matrix) == *final(self),
    {
        MatrixIterMut::new(self)
    }
}

} // verus!
