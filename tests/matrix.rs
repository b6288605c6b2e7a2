use math::linalg::matrix::Matrix;
use math::linalg::matrix_iter::MatrixIterator;

#[test]
fn matrix_get() {
    let m = Matrix::from([[1, 2, 3], [4, 5, 6], [7, 8, 9]]);
    assert_eq!(1, *m.get((0, 0)));
}

#[test]
fn matrix_get_mut() {
    let mut m = Matrix::from([[1, 2, 3], [4, 5, 6], [7, 8, 9]]);
    assert_eq!(&mut 1, m.get_mut((0, 0)));
}

#[test]
fn matrix_set() {
    let mut m = Matrix::from([[1, 2, 3], [4, 5, 6], [7, 8, 9]]);
    m.set((0, 0), 2);
    assert_eq!(&2, m.get((0, 0)));
}

#[test]
fn replace() {
    let mut m = Matrix::from([[String::from("One")]]);
    let old_val = m.replace((0, 0), String::from("Two"));
    assert_eq!(String::from("One"), old_val);
    assert_eq!(String::from("Two"), *m.get((0, 0)));
}

#[test]
fn index() {
    let m = Matrix::from([[String::from("One")]]);
    assert_eq!(String::from("One"), *m.get((0, 0)));
}

#[test]
fn index_mut() {
    let mut m = Matrix::from([[String::from("One")]]);
    *m.get_mut((0, 0)) = String::from("Two");
    assert_eq!(String::from("Two"), *m.get((0, 0)));
}

#[test]
fn iter() {
    let m = Matrix::from([[1, 2, 3], [4, 5, 6]]);
    let mut sum = 0;
    let mut it = m.iter();
    while let Some(v) = it.next() {
        sum += *v;
    }
    assert_eq!(sum, 21);
}

#[test]
fn iter_mut() {
    let mut m = Matrix::from([[1]]);
    let mut it = m.iter_mut();
    while let Some(v) = it.next() {
        *v = 2;
    }
    assert_eq!(m.get((0, 0)), &2);
}

#[test]
fn enumer_mut() {
    let mut m = Matrix::from([[1]]);
    let mut it = m.iter_mut().enumerate();
    while let Some(((_, _), v)) = it.next() {
        *v = 2;
    }
    assert_eq!(m.get((0, 0)), &2);
}

#[test]
fn iter_mut_visits_row_major() {
    let mut m = Matrix::from([[0, 0, 0], [0, 0, 0]]);
    let mut it = m.iter_mut().enumerate();
    let mut n = 0;
    while let Some(((r, c), v)) = it.next() {
        *v = n * 10 + (r * 3 + c) as i32;
        n += 1;
    }
    assert_eq!(m, Matrix::from([[0, 11, 22], [33, 44, 55]]));
}

#[test]
fn enumer() {
    let m = Matrix::from([[1, 2], [4, 5]]);
    let mut indexes = vec![];
    let mut it = m.iter().enumerate();
    while let Some(((row, col), _)) = it.next() {
        indexes.push((row, col));
    }
    assert_eq!(indexes, [(0, 0), (0, 1), (1, 0), (1, 1)]);
}

#[test]
fn from_iter() {
    let iter = vec![1, 2, 3, 4, 5];
    let test = Matrix::from([[1, 2], [3, 4]]);
    let m: Matrix<_, 2, 2> = Matrix::from_iter(iter);
    assert_eq!(m, test);
}

#[test]
fn from_iter_short_input_leaves_defaults() {
    let m: Matrix<i32, 2, 2> = Matrix::from_iter(vec![7]);
    assert_eq!(m, Matrix::from([[7, 0], [0, 0]]));
}

#[test]
fn eq() {
    let m = Matrix::from([[1]]);
    let m2 = m;
    assert_eq!(m, m2);
}

#[test]
fn ne_on_one_cell() {
    assert_ne!(Matrix::from([[1, 2], [3, 4]]), Matrix::from([[1, 2], [3, 5]]));
}

#[test]
fn add() {
    let m1 = Matrix::from([[1, 1], [1, 1]]);
    let m2 = m1;
    let m = Matrix::from([[2, 2], [2, 2]]);
    assert_eq!(m, m1.add(m2));
}

#[test]
fn mul() {
    let m1 = Matrix::from([[1, 1, 1], [1, 1, 1]]);
    let m2 = m1.clone().transpose();
    let m = Matrix::from([[3, 3], [3, 3]]);
    assert_eq!(m, m1.mul(m2));
}

#[test]
fn mul_non_square() {
    let a = Matrix::from([[1, 2, 3], [4, 5, 6]]);
    let b = Matrix::from([[7, 8], [9, 10], [11, 12]]);
    assert_eq!(a.mul(b), Matrix::from([[58, 64], [139, 154]]));
}

#[test]
fn mul_scal() {
    let m1 = Matrix::from([[1, 1], [1, 1]]);
    let m = Matrix::from([[2, 2], [2, 2]]);
    assert_eq!(m, m1.mul_scal(2));
}

#[test]
fn transpose_moves_cells() {
    let m = Matrix::from([[1, 2, 3], [4, 5, 6]]);
    assert_eq!(m.transpose(), Matrix::from([[1, 4], [2, 5], [3, 6]]));
}

#[test]
fn transpose_twice_is_identity() {
    let m = Matrix::from([[1, 2, 3], [4, 5, 6]]);
    assert_eq!(m.transpose().transpose(), m);
    let s = Matrix::from([[String::from("a"), String::from("b")]]);
    let back = s.transpose().transpose();
    assert_eq!(*back.get((0, 1)), String::from("b"));
}

#[test]
fn set_then_get_every_cell() {
    let mut m: Matrix<i32, 2, 3> = Matrix::new();
    for r in 0..2 {
        for c in 0..3 {
            m.set((r, c), (10 * r + c) as i32);
        }
    }
    for r in 0..2 {
        for c in 0..3 {
            assert_eq!(*m.get((r, c)), (10 * r + c) as i32);
        }
    }
}

#[test]
fn replace_returns_previous() {
    let mut m = Matrix::from([[1, 2], [3, 4]]);
    assert_eq!(m.replace((1, 0), 9), 3);
    assert_eq!(*m.get((1, 0)), 9);
    assert_eq!(m.replace((1, 0), 5), 9);
}

#[test]
fn new_is_default_filled() {
    let m: Matrix<String, 2, 2> = Matrix::new();
    assert_eq!(*m.get((1, 1)), String::new());
}

#[test]
fn drain_then_collect_round_trip() {
    let m = Matrix::from([[1, 2, 3], [4, 5, 6]]);
    let mut drained = vec![];
    let mut it: MatrixIterator<i32, 2, 3> = m.into_iter();
    while let Some(v) = it.next() {
        drained.push(v);
    }
    assert_eq!(drained, vec![1, 2, 3, 4, 5, 6]);
    assert!(it.next().is_none());
    let back: Matrix<i32, 2, 3> = Matrix::from_iter(drained);
    assert_eq!(back, m);
}

#[test]
fn owning_enumerate_pairs_indices() {
    let m = Matrix::from([[String::from("a"), String::from("b")], [String::from("c"), String::from("d")]]);
    let mut it = m.into_iter().enumerate();
    let mut seen = vec![];
    while let Some((idx, v)) = it.next() {
        seen.push((idx, v));
    }
    assert_eq!(seen[2], ((1, 0), String::from("c")));
    assert_eq!(seen.len(), 4);
}

#[test]
fn rows_and_cols() {
    let m = Matrix::from([[1, 2, 3], [4, 5, 6]]);
    assert_eq!(m.size(), (2, 3));
    assert_eq!(m.rows(), [[1, 2, 3], [4, 5, 6]]);
    assert_eq!(m.cols(), [[1, 4], [2, 5], [3, 6]]);
}

#[test]
fn scalar_distributes_over_add() {
    let a = Matrix::from([[1, -2], [3, 4]]);
    let b = Matrix::from([[5, 6], [-7, 8]]);
    assert_eq!(a.add(b).mul_scal(3), a.mul_scal(3).add(b.mul_scal(3)));
}

#[test]
fn one_by_one_matrix() {
    let mut m = Matrix::from([[4]]);
    assert_eq!(m.size(), (1, 1));
    assert_eq!(m.transpose(), m);
    assert_eq!(m.mul(Matrix::from([[5]])), Matrix::from([[20]]));
    assert_eq!(m.add(m), Matrix::from([[8]]));
    assert_eq!(m.mul_scal(2), Matrix::from([[8]]));
    assert_eq!(m.replace((0, 0), 1), 4);
    let mut it = m.iter().enumerate();
    assert_eq!(it.next(), Some(((0, 0), &1)));
    assert_eq!(it.next(), None);
}

#[test]
fn empty_matrix_iterates_nothing() {
    let m: Matrix<i32, 0, 3> = Matrix::from([]);
    assert!(m.iter().next().is_none());
    let n: Matrix<i32, 2, 0> = Matrix::from([[], []]);
    assert!(n.iter().next().is_none());
}

#[test]
fn iter_mut_finished_stays_finished() {
    let mut m = Matrix::from([[1, 2]]);
    let mut it = m.iter_mut();
    assert!(it.next().is_some());
    assert!(it.next().is_some());
    assert!(it.next().is_none());
    assert!(it.next().is_none());
}
