use faer::complex_native::c64;
use faer::sparse::solvers::{Lu, SpSolver};
use faer::sparse::{FaerSparseMat, SparseColMat};
use faer::{FaerMat, Mat, Side};
use linalg_core::pattern::SparsePattern;
use linalg_core::shape::{check_add, check_mul, check_solve, check_square, Shape};
use linalg_core::symbolic::SymbolicStructure;

fn shape(m: &Mat<f64>) -> Shape {
    Shape::new(m.nrows(), m.ncols())
}

fn rhs() -> Mat<f64> {
    Mat::from_fn(4, 1, |i, _| (i + 1) as f64)
}

fn demo_triplets() -> Vec<(usize, usize, f64)> {
    vec![
        (0, 0, 10.0),
        (1, 1, 20.0),
        (2, 2, 30.0),
        (3, 3, 40.0),
        (0, 1, 3.0),
        (1, 0, 2.0),
        (3, 2, 1.0),
    ]
}

fn indices_of(triplets: &[(usize, usize, f64)]) -> Vec<(usize, usize)> {
    triplets.iter().map(|&(i, j, _)| (i, j)).collect()
}

#[test]
fn dense_lblt_solve_has_small_residual() {
    // symmetric and indefinite
    let a = Mat::from_fn(4, 4, |i, j| {
        if i == j {
            10.0 - 4.0 * i as f64
        } else {
            1.0 / (1.0 + i as f64 + j as f64)
        }
    });
    let b = rhs();
    let order = check_square(shape(&a)).unwrap();
    assert_eq!(check_solve(order, shape(&b)), Ok(shape(&b)));
    let x = a.lblt(Side::Lower).solve(&b);
    let ax = check_mul(shape(&a), shape(&x)).unwrap();
    assert_eq!(check_add(ax, shape(&b)), Ok(shape(&b)));
    assert!((&a * &x - &b).norm_l2() < 1e-10);
}

#[test]
fn sparse_lu_solve_has_small_residual() {
    let a = SparseColMat::<usize, f64>::try_new_from_triplets(4, 4, &demo_triplets()).unwrap();
    let pattern = SparsePattern::try_from_indices(4, 4, &indices_of(&demo_triplets())).unwrap();
    assert_eq!(pattern.check_structure(), Ok(()));
    let b = rhs();
    let x = a.as_ref().sp_lu().unwrap().solve(&b);
    assert!((&a * &x - &b).norm_l2() < 1e-10);
}

#[test]
fn one_symbolic_structure_serves_two_factorizations() {
    let triplets = demo_triplets();
    let twice: Vec<(usize, usize, f64)> = triplets.iter().map(|&(i, j, v)| (i, j, 2.0 * v)).collect();
    let pattern = SparsePattern::try_from_indices(4, 4, &indices_of(&triplets)).unwrap();
    let symbolic = SymbolicStructure::try_new(&pattern).unwrap();
    let a = SparseColMat::<usize, f64>::try_new_from_triplets(4, 4, &triplets).unwrap();
    let a2 = SparseColMat::<usize, f64>::try_new_from_triplets(4, 4, &twice).unwrap();
    let pattern2 = SparsePattern::try_from_indices(4, 4, &indices_of(&twice)).unwrap();
    assert!(symbolic.admits(&pattern));
    assert!(symbolic.admits(&pattern2));

    let lu = Lu::try_new_with_symbolic(symbolic.lu_structure().clone(), a.as_ref()).unwrap();
    let lu2 = Lu::try_new_with_symbolic(symbolic.lu_structure().clone(), a2.as_ref()).unwrap();
    let b = rhs();
    let x = lu.solve(&b);
    let x2 = lu2.solve(&b);
    assert!((&a * &x - &b).norm_l2() < 1e-10);
    assert!((&a2 * &x2 - &b).norm_l2() < 1e-10);
    for i in 0..4 {
        assert!((x.read(i, 0) - 2.0 * x2.read(i, 0)).abs() < 1e-12);
    }
    // the shared structure is unchanged by both factorizations
    assert!(symbolic.admits(&pattern));
    assert_eq!(symbolic.pattern().col_ptrs, pattern.col_ptrs);
}

#[test]
fn eigenvalue_count_matches_order() {
    let a = Mat::from_fn(4, 4, |i, j| i as f64 + j as f64);
    let n = check_square(shape(&a)).unwrap();
    // a = u e^T + e u^T with u = (0, 1, 2, 3): eigenvalues 6 +- sqrt(56), 0, 0
    let s = 56.0f64.sqrt();
    let expected = [6.0 - s, 0.0, 0.0, 6.0 + s];

    let mut real = a.selfadjoint_eigenvalues(Side::Lower);
    assert_eq!(real.len(), n);
    real.sort_by(|x, y| x.partial_cmp(y).unwrap());
    for k in 0..n {
        assert!((real[k] - expected[k]).abs() < 1e-10);
    }

    let complex: Vec<c64> = a.eigenvalues::<c64>();
    assert_eq!(complex.len(), n);
    let mut re: Vec<f64> = complex.iter().map(|z| z.re).collect();
    re.sort_by(|x, y| x.partial_cmp(y).unwrap());
    for k in 0..n {
        assert!((re[k] - expected[k]).abs() < 1e-9);
        assert!(complex[k].im.abs() < 1e-9);
    }
}
