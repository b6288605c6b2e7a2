use vstd::prelude::*;
use vstd::std_specs::iter::IteratorSpec;
use vstd::std_specs::ops::{AddSpec, DivSpec, MulSpec, SubSpec};
use std::ops::{Add, Div, Mul, Sub};
use crate::linalg::matrix::{is_default, default_value, default_row};

verus! {

/// `acc + u[0] * v[0] + ... + u[n - 1] * v[n - 1]`, added from the left.
pub open spec fn dot_fold<T: Add<Output = T> + Mul<Output = T>>(acc: T, u: Seq<T>, v: Seq<T>, n: int) -> T
    decreases n,
{
    if n <= 0 {
        acc
    } else {
        dot_fold(acc, u, v, n - 1).add_spec(u[n - 1].mul_spec(v[n - 1]))
    }
}

/// Every product and every partial sum of `dot_fold(acc, u, v, n)` can be computed.
pub open spec fn dot_ok<T: Add<Output = T> + Mul<Output = T>>(acc: T, u: Seq<T>, v: Seq<T>, n: int) -> bool {
    forall|k: int|
        0 <= k < n ==> (#[trigger] u[k]).mul_req(v[k]) && dot_fold(acc, u, v, k).add_req(u[k].mul_spec(v[k]))
}

/// `acc + (u[0] - v[0])^2 + ... + (u[n - 1] - v[n - 1])^2`, added from the left.
pub open spec fn sq_dist_fold<T: Add<Output = T> + Sub<Output = T> + Mul<Output = T>>(
    acc: T,
    u: Seq<T>,
    v: Seq<T>,
    n: int,
) -> T
    decreases n,
{
    if n <= 0 {
        acc
    } else {
        let diff = u[n - 1].sub_spec(v[n - 1]);
        sq_dist_fold(acc, u, v, n - 1).add_spec(diff.mul_spec(diff))
    }
}

/// Every difference, square and partial sum of `sq_dist_fold(acc, u, v, n)` can be computed.
pub open spec fn sq_dist_ok<T: Add<Output = T> + Sub<Output = T> + Mul<Output = T>>(
    acc: T,
    u: Seq<T>,
    v: Seq<T>,
    n: int,
) -> bool {
    forall|k: int|
        0 <= k < n ==> {
            let diff = (#[trigger] u[k]).sub_spec(v[k]);
            &&& u[k].sub_req(v[k])
            &&& diff.mul_req(diff)
            &&& sq_dist_fold(acc, u, v, k).add_req(diff.mul_spec(diff))
        }
}

/// Square root, for the element types that have one.
pub trait Sqrt {
    type Output;

    fn sqrt(val: Self::Output) -> Self::Output;
}

/// Folds the products of `u` and `v`, index by index, onto `acc`.
pub(crate) fn dot_from<T: Copy + Add<Output = T> + Mul<Output = T>, const N: usize>(acc: T, u: &[T; N], v: &[T; N]) -> (r: T)
    requires
        T::obeys_add_spec(),
        T::obeys_mul_spec(),
        dot_ok(acc, u@, v@, N as int),
    ensures
        r == dot_fold(acc, u@, v@, N as int),
{
    let mut r = acc;
    let mut k: usize = 0;
    while k < N
        invariant
            k <= N,
            T::obeys_add_spec(),
            T::obeys_mul_spec(),
            dot_ok(acc, u@, v@, N as int),
            r == dot_fold(acc, u@, v@, k as int),
        decreases N - k,
    {
        assert(u@[k as int].mul_req(v@[k as int]));
        r = r + u[k] * v[k];
        k += 1;
    }
    r
}

/// Takes the value at `i` out of `arr`, leaving a fresh default value in its place.
fn take_at<T: Default, const N: usize>(arr: &mut [T; N], i: usize) -> (v: T)
    requires
        i < N,
    ensures
        v == old(arr)@[i as int],
        exists|d: T| is_default(d) && final(arr)@ == old(arr)@.update(i as int, d),
{
    let mut v: T = default_value();
    let ghost d = v;
    std::mem::swap(&mut arr[i], &mut v);
    v
}

/// A vector of exactly `L` elements.
#[derive(Debug, Clone, Copy)]
pub struct Vector<T, const L: usize>(pub [T; L]);

impl<T, const L: usize> View for Vector<T, L> {
    type V = Seq<T>;

    open spec fn view(&self) -> Seq<T> {
        self.0@
    }
}

impl<T, const L: usize> Vector<T, L> {
    pub fn from(data: [T; L]) -> (v: Self)
        ensures
            v.0 == data,
    {
        Vector(data)
    }

    pub fn get(&self, index: usize) -> (v: &T)
        requires
            index < L,
        ensures
            *v == self@[index as int],
    {
        &self.0[index]
    }

    pub fn get_mut(&mut self, index: usize) -> (v: &mut T)
        requires
            index < L,
        ensures
            *v == old(self)@[index as int],
            final(self)@ == old(self)@.update(index as int, *final(v)),
    {
        &mut self.0[index]
    }

    pub fn set(&mut self, index: usize, value: T)
        requires
            index < L,
        ensures
            final(self)@ == old(self)@.update(index as int, value),
    {
        self.0[index] = value;
    }

    pub fn len(&self) -> (n: usize)
        ensures
            n == L,
            n == self@.len(),
    {
        L
    }

    pub fn is_empty(&self) -> (e: bool)
        ensures
            e == (L == 0),
    {
        L == 0
    }

    /// The elements at indices `start..end`, as a view into the vector.
    pub fn range(&self, start: usize, end: usize) -> (s: &[T])
        requires
            start <= end <= L,
        ensures
            s@ == self@.subrange(start as int, end as int),
    {
        let all: &[T] = self.0.as_slice();
        &all[start..end]
    }

    /// References to the elements, in order.
    pub fn iter(&self) -> (it: std::slice::Iter<'_, T>)
        ensures
            it.remaining() == self@.as_ref(),
    {
        self.0.iter()
    }
}

/// The mutable traversal of a vector: a writable reference to each element in turn.
/// Each reference lives until the next step at most.
pub struct VectorIterMut<'a, T, const L: usize> {
    pub vector: &'a mut Vector<T, L>,
    pub index: usize,
}

impl<'a, T, const L: usize> VectorIterMut<'a, T, L> {
    pub fn next(&mut self) -> (r: Option<&mut T>)
        requires
            old(self).index <= L,
        ensures
            *final(final(self).vector) == *final(old(self).vector),
            old(self).index == L ==> r is None && *final(self).vector == *old(self).vector
                && final(self).index == L,
            old(self).index < L ==> (r matches Some(v)
                && *v == old(self).vector@[old(self).index as int]
                && final(self).vector@ == old(self).vector@.update(old(self).index as int, *final(v))
                && final(self).index == old(self).index + 1),
    {
        if self.index >= L {
            return None;
        }
        let i = self.index;
        self.index = i + 1;
        Some(self.vector.get_mut(i))
    }
}

impl<'a, T, const L: usize> VectorIterMut<'a, T, L> {
    pub fn enumerate(self) -> (e: VectorEnumMut<'a, T, L>)
        ensures
            e.0 == self,
            *final(e.0.vector) == *final(self.vector),
    {
        VectorEnumMut(self)
    }
}

/// The mutable traversal of a vector paired with the index of each element.
pub struct VectorEnumMut<'a, T, const L: usize>(pub VectorIterMut<'a, T, L>);

impl<'a, T, const L: usize> VectorEnumMut<'a, T, L> {
    pub fn next(&mut self) -> (r: Option<(usize, &mut T)>)
        requires
            old(self).0.index <= L,
        ensures
            *final(final(self).0.vector) == *final(old(self).0.vector),
            old(self).0.index == L ==> r is None && *final(self).0.vector == *old(self).0.vector
                && final(self).0.index == L,
            old(self).0.index < L ==> (r matches Some((i, v))
                && i == old(self).0.index
                && *v == old(self).0.vector@[i as int]
                && final(self).0.vector@ == old(self).0.vector@.update(i as int, *final(v))
                && final(self).0.index == i + 1),
    {
        let i = self.0.index;
        match self.0.next() {
            Some(v) => Some((i, v)),
            None => None,
        }
    }
}

impl<T, const L: usize> Vector<T, L> {
    /// The mutable traversal of this vector.
    pub fn iter_mut(&mut self) -> (it: VectorIterMut<'_, T, L>)
        ensures
            it.index == 0,
            *it.vector == *old(self),
            *final(it.vector) == *final(self),
    {
        VectorIterMut { vector: self, index: 0 }
    }
}

impl<T: Copy, const L: usize> Vector<T, L> {
    /// Every element equal to `value`.
    pub fn from_value(value: T) -> (v: Self)
        ensures
            forall|i: int| 0 <= i < L ==> #[trigger] v@[i] == value,
    {
        Vector([value; L])
    }
}

impl<T: Default, const L: usize> Vector<T, L> {
    /// The elements hold `s` in order; past the end of `s` they hold default values,
    /// and what `s` has beyond `L` items is left out.
    pub open spec fn collected_from(&self, s: Seq<T>) -> bool {
        forall|i: int|
            0 <= i < L ==> if i < s.len() {
                #[trigger] self@[i] == s[i]
            } else {
                is_default(self@[i])
            }
    }

    /// Fills the vector in order from `items`.
    pub fn from_iter(items: Vec<T>) -> (v: Self)
        ensures
            v.collected_from(items@),
    {
        let ghost s = items@;
        let mut items = items;
        let mut v: Self = Vector(default_row());
        let mut i: usize = 0;
        while i < L
            invariant
                i <= L,
                i <= s.len() ==> items@ == s.subrange(i as int, s.len() as int),
                i > s.len() ==> items@.len() == 0,
                forall|k: int| 0 <= k < i ==> if k < s.len() {
                    #[trigger] v@[k] == s[k]
                } else {
                    is_default(v@[k])
                },
                forall|k: int| i <= k < L ==> is_default(#[trigger] v@[k]),
            decreases L - i,
        {
            if items.len() > 0 {
                let x = items.remove(0);
                v.set(i, x);
            }
            i += 1;
        }
        v
    }
}

/// The owning traversal of a vector: hands out each element once, in order,
/// leaving a default value in its place.
pub struct VectorIntoIter<T, const L: usize> {
    vector: Vector<T, L>,
    index: usize,
}

impl<T: Default, const L: usize> VectorIntoIter<T, L> {
    pub closed spec fn wf(&self) -> bool {
        self.index <= L
    }

    /// The elements still to come, in order.
    pub closed spec fn remaining(&self) -> Seq<T> {
        self.vector@.subrange(self.index as int, L as int)
    }

    pub fn next(&mut self) -> (r: Option<T>)
        requires
            old(self).wf(),
        ensures
            final(self).wf(),
            old(self).remaining().len() == 0 ==> r is None && final(self).remaining() == old(self).remaining(),
            old(self).remaining().len() > 0 ==> r == Some(old(self).remaining()[0])
                && final(self).remaining() == old(self).remaining().drop_first(),
    {
        if self.index >= L {
            return None;
        }
        let i = self.index;
        let elem = take_at(&mut self.vector.0, i);
        self.index = i + 1;
        assert(self.remaining() =~= old(self).remaining().drop_first());
        Some(elem)
    }
}

impl<T: Default, const L: usize> VectorIntoIter<T, L> {
    pub fn enumerate(self) -> (e: VectorEnumerator<T, L>)
        ensures
            e.iterator() == self,
    {
        VectorEnumerator(self)
    }

    /// The index of the next element to come.
    fn current_index(&self) -> (i: usize)
        requires
            self.wf(),
        ensures
            i == L - self.remaining().len(),
    {
        self.index
    }
}

/// The owning traversal of a vector paired with the index of each element.
pub struct VectorEnumerator<T, const L: usize>(VectorIntoIter<T, L>);

impl<T: Default, const L: usize> VectorEnumerator<T, L> {
    pub closed spec fn iterator(&self) -> VectorIntoIter<T, L> {
        self.0
    }

    pub fn next(&mut self) -> (r: Option<(usize, T)>)
        requires
            old(self).iterator().wf(),
        ensures
            final(self).iterator().wf(),
            old(self).iterator().remaining().len() == 0 ==> r is None
                && final(self).iterator().remaining() == old(self).iterator().remaining(),
            old(self).iterator().remaining().len() > 0 ==> (r matches Some((i, x))
                && i == L - old(self).iterator().remaining().len()
                && x == old(self).iterator().remaining()[0]
                && final(self).iterator().remaining() == old(self).iterator().remaining().drop_first()),
    {
        let i = self.0.current_index();
        match self.0.next() {
            Some(x) => Some((i, x)),
            None => None,
        }
    }
}

impl<T: Default, const L: usize> Vector<T, L> {
    /// The owning traversal of this vector.
    pub fn into_iter(self) -> (it: VectorIntoIter<T, L>)
        ensures
            it.wf(),
            it.remaining() == self@,
    {
        let it = VectorIntoIter { vector: self, index: 0 };
        assert(it.remaining() =~= self@);
        it
    }
}

impl<T: Add<Output = T>, const L: usize> Vector<T, L> {
    pub open spec fn add_ok(&self, rhs: &Self) -> bool {
        forall|i: int| 0 <= i < L ==> (#[trigger] self@[i]).add_req(rhs@[i])
    }

    /// The element-wise sum.
    pub open spec fn sum(&self, rhs: &Self) -> Seq<T> {
        Seq::new(L as nat, |i: int| self@[i].add_spec(rhs@[i]))
    }
}

impl<T: Sub<Output = T>, const L: usize> Vector<T, L> {
    pub open spec fn sub_ok(&self, rhs: &Self) -> bool {
        forall|i: int| 0 <= i < L ==> (#[trigger] self@[i]).sub_req(rhs@[i])
    }

    /// The element-wise difference.
    pub open spec fn difference(&self, rhs: &Self) -> Seq<T> {
        Seq::new(L as nat, |i: int| self@[i].sub_spec(rhs@[i]))
    }
}

impl<T: Mul<Output = T>, const L: usize> Vector<T, L> {
    pub open spec fn scale_ok(&self, s: T) -> bool {
        forall|i: int| 0 <= i < L ==> (#[trigger] self@[i]).mul_req(s)
    }

    /// Every element multiplied by `s`.
    pub open spec fn scaled(&self, s: T) -> Seq<T> {
        Seq::new(L as nat, |i: int| self@[i].mul_spec(s))
    }
}

impl<T: Div<Output = T>, const L: usize> Vector<T, L> {
    pub open spec fn div_ok(&self, s: T) -> bool {
        forall|i: int| 0 <= i < L ==> (#[trigger] self@[i]).div_req(s)
    }

    /// Every element divided by `s`.
    pub open spec fn divided(&self, s: T) -> Seq<T> {
        Seq::new(L as nat, |i: int| self@[i].div_spec(s))
    }
}

impl<T: Default + Add<Output = T>, const L: usize> Vector<T, L> {
    /// The element-wise sum; both operands are consumed.
    pub fn add(self, rhs: Self) -> (v: Self)
        requires
            self.add_ok(&rhs),
        ensures
            T::obeys_add_spec() ==> v@ == self.sum(&rhs),
            forall|k: int| 0 <= k < L ==> call_ensures(T::add, (self@[k], rhs@[k]), #[trigger] v@[k]),
    {
        let ghost a0 = self;
        let mut a = self;
        let mut b = rhs;
        let mut i: usize = 0;
        while i < L
            invariant
                i <= L,
                a0.add_ok(&rhs),
                forall|k: int| i <= k < L ==> #[trigger] a@[k] == a0@[k],
                forall|k: int| i <= k < L ==> #[trigger] b@[k] == rhs@[k],
                T::obeys_add_spec() ==> forall|k: int| 0 <= k < i ==> #[trigger] a@[k] == a0.sum(&rhs)[k],
                forall|k: int| 0 <= k < i ==> call_ensures(T::add, (a0@[k], rhs@[k]), #[trigger] a@[k]),
            decreases L - i,
        {
            assert(a@[i as int] == a0@[i as int] && b@[i as int] == rhs@[i as int]);
            assert(a0@[i as int].add_req(rhs@[i as int]));
            let ghost (a1, b1) = (a, b);
            let x = take_at(&mut a.0, i);
            let y = take_at(&mut b.0, i);
            a.0[i] = x + y;
            assert(forall|k: int| 0 <= k < L && k != i ==> #[trigger] a@[k] == a1@[k]);
            assert(forall|k: int| 0 <= k < L && k != i ==> #[trigger] b@[k] == b1@[k]);
            i += 1;
        }
        assert(T::obeys_add_spec() ==> a@ =~= a0.sum(&rhs));
        a
    }
}

impl<T: Default + Sub<Output = T>, const L: usize> Vector<T, L> {
    /// The element-wise difference; both operands are consumed.
    pub fn sub(self, rhs: Self) -> (v: Self)
        requires
            self.sub_ok(&rhs),
        ensures
            T::obeys_sub_spec() ==> v@ == self.difference(&rhs),
            forall|k: int| 0 <= k < L ==> call_ensures(T::sub, (self@[k], rhs@[k]), #[trigger] v@[k]),
    {
        let ghost a0 = self;
        let mut a = self;
        let mut b = rhs;
        let mut i: usize = 0;
        while i < L
            invariant
                i <= L,
                a0.sub_ok(&rhs),
                forall|k: int| i <= k < L ==> #[trigger] a@[k] == a0@[k],
                forall|k: int| i <= k < L ==> #[trigger] b@[k] == rhs@[k],
                T::obeys_sub_spec() ==> forall|k: int| 0 <= k < i ==> #[trigger] a@[k] == a0.difference(&rhs)[k],
                forall|k: int| 0 <= k < i ==> call_ensures(T::sub, (a0@[k], rhs@[k]), #[trigger] a@[k]),
            decreases L - i,
        {
            assert(a@[i as int] == a0@[i as int] && b@[i as int] == rhs@[i as int]);
            assert(a0@[i as int].sub_req(rhs@[i as int]));
            let ghost (a1, b1) = (a, b);
            let x = take_at(&mut a.0, i);
            let y = take_at(&mut b.0, i);
            a.0[i] = x - y;
            assert(forall|k: int| 0 <= k < L && k != i ==> #[trigger] a@[k] == a1@[k]);
            assert(forall|k: int| 0 <= k < L && k != i ==> #[trigger] b@[k] == b1@[k]);
            i += 1;
        }
        assert(T::obeys_sub_spec() ==> a@ =~= a0.difference(&rhs));
        a
    }
}

impl<T: Copy + Mul<Output = T>, const L: usize> Vector<T, L> {
    /// Every element multiplied by `rhs`.
    pub fn mul_scal(self, rhs: T) -> (v: Self)
        requires
            self.scale_ok(rhs),
        ensures
            T::obeys_mul_spec() ==> v@ == self.scaled(rhs),
            forall|k: int| 0 <= k < L ==> call_ensures(T::mul, (self@[k], rhs), #[trigger] v@[k]),
    {
        let ghost a0 = self;
        let mut a = self;
        let mut i: usize = 0;
        while i < L
            invariant
                i <= L,
                a0.scale_ok(rhs),
                forall|k: int| i <= k < L ==> #[trigger] a@[k] == a0@[k],
                T::obeys_mul_spec() ==> forall|k: int| 0 <= k < i ==> #[trigger] a@[k] == a0.scaled(rhs)[k],
                forall|k: int| 0 <= k < i ==> call_ensures(T::mul, (a0@[k], rhs), #[trigger] a@[k]),
            decreases L - i,
        {
            assert(a@[i as int] == a0@[i as int]);
            assert(a0@[i as int].mul_req(rhs));
            let x = a.0[i];
            a.0[i] = x * rhs;
            i += 1;
        }
        assert(T::obeys_mul_spec() ==> a@ =~= a0.scaled(rhs));
        a
    }
}

impl<T: Copy + Div<Output = T>, const L: usize> Vector<T, L> {
    /// Every element divided by `rhs`.
    pub fn div_scal(self, rhs: T) -> (v: Self)
        requires
            self.div_ok(rhs),
        ensures
            T::obeys_div_spec() ==> v@ == self.divided(rhs),
            forall|k: int| 0 <= k < L ==> call_ensures(T::div, (self@[k], rhs), #[trigger] v@[k]),
    {
        let ghost a0 = self;
        let mut a = self;
        let mut i: usize = 0;
        while i < L
            invariant
                i <= L,
                a0.div_ok(rhs),
                forall|k: int| i <= k < L ==> #[trigger] a@[k] == a0@[k],
                T::obeys_div_spec() ==> forall|k: int| 0 <= k < i ==> #[trigger] a@[k] == a0.divided(rhs)[k],
                forall|k: int| 0 <= k < i ==> call_ensures(T::div, (a0@[k], rhs), #[trigger] a@[k]),
            decreases L - i,
        {
            assert(a@[i as int] == a0@[i as int]);
            assert(a0@[i as int].div_req(rhs));
            let x = a.0[i];
            a.0[i] = x / rhs;
            i += 1;
        }
        assert(T::obeys_div_spec() ==> a@ =~= a0.divided(rhs));
        a
    }
}

impl<T: Default + Add<Output = T> + Mul<Output = T>, const L: usize> Vector<T, L> {
    /// The dot product: one default value, then each product added in index order.
    pub fn dot(self, rhs: Self) -> (r: T)
        requires
            T::obeys_add_spec(),
            T::obeys_mul_spec(),
            forall|d: T| is_default(d) ==> dot_ok(d, self@, rhs@, L as int),
        ensures
            exists|d: T| is_default(d) && r == dot_fold(d, self@, rhs@, L as int),
    {
        let ghost (u, v) = (self@, rhs@);
        let mut a = self;
        let mut b = rhs;
        let d: T = default_value();
        let ghost d0 = d;
        assert(dot_ok(d0, u, v, L as int));
        let mut acc = d;
        let mut i: usize = 0;
        while i < L
            invariant
                i <= L,
                T::obeys_add_spec(),
                T::obeys_mul_spec(),
                dot_ok(d0, u, v, L as int),
                acc == dot_fold(d0, u, v, i as int),
                forall|k: int| i <= k < L ==> #[trigger] a@[k] == u[k],
                forall|k: int| i <= k < L ==> #[trigger] b@[k] == v[k],
            decreases L - i,
        {
            assert(a@[i as int] == u[i as int] && b@[i as int] == v[i as int]);
            assert(u[i as int].mul_req(v[i as int]));
            let ghost (a1, b1) = (a, b);
            let x = take_at(&mut a.0, i);
            let y = take_at(&mut b.0, i);
            acc = acc + x * y;
            assert(forall|k: int| 0 <= k < L && k != i ==> #[trigger] a@[k] == a1@[k]);
            assert(forall|k: int| 0 <= k < L && k != i ==> #[trigger] b@[k] == b1@[k]);
            i += 1;
        }
        acc
    }
}

impl<T: Sub<Output = T> + Mul<Output = T>> Vector<T, 3> {
    /// Every product and difference of the cross product can be computed.
    pub open spec fn cross_ok(&self, rhs: &Self) -> bool {
        let (u, v) = (self@, rhs@);
        &&& u[1].mul_req(v[2]) && u[2].mul_req(v[1])
        &&& u[2].mul_req(v[0]) && u[0].mul_req(v[2])
        &&& u[0].mul_req(v[1]) && u[1].mul_req(v[0])
        &&& u[1].mul_spec(v[2]).sub_req(u[2].mul_spec(v[1]))
        &&& u[2].mul_spec(v[0]).sub_req(u[0].mul_spec(v[2]))
        &&& u[0].mul_spec(v[1]).sub_req(u[1].mul_spec(v[0]))
    }

    /// The cross product, expanded as a determinant.
    pub open spec fn crossed(&self, rhs: &Self) -> Seq<T> {
        let (u, v) = (self@, rhs@);
        seq![
            u[1].mul_spec(v[2]).sub_spec(u[2].mul_spec(v[1])),
            u[2].mul_spec(v[0]).sub_spec(u[0].mul_spec(v[2])),
            u[0].mul_spec(v[1]).sub_spec(u[1].mul_spec(v[0])),
        ]
    }
}

impl<T: Default + Copy + Sub<Output = T> + Mul<Output = T>> Vector<T, 3> {
    pub fn cross(self, rhs: Self) -> (r: Self)
        requires
            T::obeys_mul_spec(),
            self.cross_ok(&rhs),
        ensures
            T::obeys_sub_spec() ==> r@ == self.crossed(&rhs),
            call_ensures(T::sub, (self@[1].mul_spec(rhs@[2]), self@[2].mul_spec(rhs@[1])), r@[0]),
            call_ensures(T::sub, (self@[2].mul_spec(rhs@[0]), self@[0].mul_spec(rhs@[2])), r@[1]),
            call_ensures(T::sub, (self@[0].mul_spec(rhs@[1]), self@[1].mul_spec(rhs@[0])), r@[2]),
    {
        let x = self.0[1] * rhs.0[2] - self.0[2] * rhs.0[1];
        let y = self.0[2] * rhs.0[0] - self.0[0] * rhs.0[2];
        let z = self.0[0] * rhs.0[1] - self.0[1] * rhs.0[0];
        let r = Vector([x, y, z]);
        assert(T::obeys_sub_spec() ==> r@ =~= self.crossed(&rhs));
        r
    }
}

impl<T, const L: usize> Vector<T, L> where
    T: Sub<Output = T> + Add<Output = T> + Mul<Output = T> + Default + Copy + Sqrt<Output = T>,
 {
    /// The square root of the vector dotted with itself.
    pub fn norm(&self) -> (r: T)
        requires
            T::obeys_add_spec(),
            T::obeys_mul_spec(),
            forall|d: T| is_default(d) ==> dot_ok(d, self@, self@, L as int),
        ensures
            exists|d: T| is_default(d) && call_ensures(T::sqrt, (dot_fold(d, self@, self@, L as int),), r),
    {
        let v = *self;
        T::sqrt(v.dot(v))
    }

    /// The square root of the sum of the squared element-wise differences.
    pub fn dist(&self, rhs: &Self) -> (r: T)
        requires
            T::obeys_add_spec(),
            T::obeys_sub_spec(),
            T::obeys_mul_spec(),
            forall|d: T| is_default(d) ==> sq_dist_ok(d, self@, rhs@, L as int),
        ensures
            exists|d: T| is_default(d) && call_ensures(T::sqrt, (sq_dist_fold(d, self@, rhs@, L as int),), r),
    {
        let d: T = default_value();
        assert(sq_dist_ok(d, self@, rhs@, L as int));
        let mut acc = d;
        let mut i: usize = 0;
        while i < L
            invariant
                i <= L,
                T::obeys_add_spec(),
                T::obeys_sub_spec(),
                T::obeys_mul_spec(),
                sq_dist_ok(d, self@, rhs@, L as int),
                acc == sq_dist_fold(d, self@, rhs@, i as int),
            decreases L - i,
        {
            assert(self@[i as int].sub_req(rhs@[i as int]));
            let diff = self.0[i] - rhs.0[i];
            acc = acc + diff * diff;
            i += 1;
        }
        T::sqrt(acc)
    }
}

} // verus!
