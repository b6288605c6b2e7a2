use math::linalg::vector::{Sqrt, Vector};

#[test]
fn vector_get() {
    let m = Vector::from([1, 2, 3]);
    assert_eq!(1, *m.get(0));
}

#[test]
fn vector_get_mut() {
    let mut m = Vector::from([1, 2, 3]);
    assert_eq!(&mut 1, m.get_mut(0));
}

#[test]
fn vector_set() {
    let mut m = Vector::from([1, 2, 3]);
    m.set(0, 2);
    assert_eq!(&2, m.get(0));
}

#[test]
fn from_value() {
    let v1 = Vector::from([1]);
    let v2: Vector<i32, 1> = Vector::from_value(1);
    assert_eq!(v1.len(), v2.len());
}

#[test]
fn from_value_fills_every_element() {
    let v: Vector<i32, 3> = Vector::from_value(7);
    assert_eq!(v.0, [7, 7, 7]);
    assert!(!v.is_empty());
}

#[test]
fn vector_from_iter() {
    let v: Vector<i32, 3> = Vector::from_iter(vec![1, 2, 3, 4]);
    assert_eq!(v.0, [1, 2, 3]);
    let w: Vector<i32, 3> = Vector::from_iter(vec![9]);
    assert_eq!(w.0, [9, 0, 0]);
}

#[test]
fn vector_iter() {
    let v = Vector::from([1, 2, 3]);
    let got: Vec<i32> = v.iter().copied().collect();
    assert_eq!(got, vec![1, 2, 3]);
}

#[test]
fn vector_add_sub() {
    let a = Vector::from([1, 2, 3]);
    let b = Vector::from([10, 20, 30]);
    assert_eq!(a.add(b).0, [11, 22, 33]);
    assert_eq!(b.sub(a).0, [9, 18, 27]);
}

#[test]
fn vector_scalar_ops() {
    let a = Vector::from([2, 4, -6]);
    assert_eq!(a.mul_scal(3).0, [6, 12, -18]);
    assert_eq!(a.div_scal(2).0, [1, 2, -3]);
}

#[test]
fn vector_dot() {
    let a = Vector::from([1, 2, 3]);
    let b = Vector::from([4, 5, 6]);
    assert_eq!(a.dot(b), 32);
    assert_eq!(a.dot(b), b.dot(a));
}

#[test]
fn vector_cross() {
    let x = Vector::from([1, 0, 0]);
    let y = Vector::from([0, 1, 0]);
    assert_eq!(x.cross(y).0, [0, 0, 1]);
    let u = Vector::from([1, 2, 3]);
    let v = Vector::from([4, 5, 6]);
    let uv = u.cross(v);
    let vu = v.cross(u);
    assert_eq!(uv.0, [-3, 6, -3]);
    assert_eq!(uv.0, [-vu.0[0], -vu.0[1], -vu.0[2]]);
}

#[test]
fn length_one_vector() {
    let a = Vector::from([3]);
    assert_eq!(a.len(), 1);
    assert_eq!(a.dot(Vector::from([4])), 12);
    assert_eq!(a.add(Vector::from([4])).0, [7]);
    assert_eq!(a.mul_scal(2).0, [6]);
}

#[test]
fn vector_iter_mut() {
    let mut v = Vector::from([1, 2, 3]);
    let mut it = v.iter_mut();
    while let Some(x) = it.next() {
        *x *= 10;
    }
    assert_eq!(v.0, [10, 20, 30]);
}

#[derive(Debug, Clone, Copy, Default, PartialEq)]
struct Whole(i64);

impl std::ops::Add for Whole {
    type Output = Whole;
    fn add(self, rhs: Whole) -> Whole {
        Whole(self.0 + rhs.0)
    }
}

impl std::ops::Sub for Whole {
    type Output = Whole;
    fn sub(self, rhs: Whole) -> Whole {
        Whole(self.0 - rhs.0)
    }
}

impl std::ops::Mul for Whole {
    type Output = Whole;
    fn mul(self, rhs: Whole) -> Whole {
        Whole(self.0 * rhs.0)
    }
}

impl Sqrt for Whole {
    type Output = Whole;
    fn sqrt(val: Whole) -> Whole {
        let mut r = 0;
        while (r + 1) * (r + 1) <= val.0 {
            r += 1;
        }
        Whole(r)
    }
}

#[test]
fn vector_norm_and_dist() {
    let v = Vector::from([Whole(3), Whole(4)]);
    assert_eq!(v.norm(), Whole(5));
    let o = Vector::from([Whole(1), Whole(1)]);
    let p = Vector::from([Whole(7), Whole(9)]);
    assert_eq!(o.dist(&p), Whole(10));
}

#[test]
fn vector_range() {
    let v = Vector::from([1, 2, 3, 4, 5]);
    assert_eq!(v.range(1, 4), &[2, 3, 4]);
    assert_eq!(v.range(2, 2).len(), 0);
}

#[test]
fn vector_drain_then_collect_round_trip() {
    let v = Vector::from([String::from("x"), String::from("y"), String::from("z")]);
    let mut it = v.into_iter();
    let mut drained = vec![];
    while let Some(s) = it.next() {
        drained.push(s);
    }
    assert!(it.next().is_none());
    assert_eq!(drained, vec![String::from("x"), String::from("y"), String::from("z")]);
    let back: Vector<String, 3> = Vector::from_iter(drained);
    assert_eq!(back.0, [String::from("x"), String::from("y"), String::from("z")]);
}

#[test]
fn vector_enumerate_owning() {
    let v = Vector::from([String::from("a"), String::from("b")]);
    let mut it = v.into_iter().enumerate();
    assert_eq!(it.next(), Some((0, String::from("a"))));
    assert_eq!(it.next(), Some((1, String::from("b"))));
    assert_eq!(it.next(), None);
    assert_eq!(it.next(), None);
}

#[test]
fn vector_enumerate_mut() {
    let mut v = Vector::from([1, 2, 3]);
    let mut it = v.iter_mut().enumerate();
    while let Some((i, x)) = it.next() {
        *x += 10 * i as i32;
    }
    assert_eq!(v.0, [1, 12, 23]);
}
