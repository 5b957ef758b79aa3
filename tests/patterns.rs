use linalg_core::error::MatError;
use linalg_core::pattern::SparsePattern;
use linalg_core::symbolic::SymbolicStructure;

fn demo_indices() -> Vec<(usize, usize)> {
    vec![(0, 0), (1, 1), (2, 2), (3, 3), (0, 1), (1, 0), (3, 2)]
}

#[test]
fn indices_compress_by_column() {
    let p = SparsePattern::try_from_indices(4, 4, &demo_indices()).unwrap();
    assert_eq!(p.nrows, 4);
    assert_eq!(p.ncols, 4);
    assert_eq!(p.col_ptrs, vec![0, 2, 4, 6, 7]);
    assert_eq!(p.row_indices, vec![0, 1, 0, 1, 2, 3, 3]);
    assert!(p.contains(3, 2));
    assert!(!p.contains(2, 3));
}

#[test]
fn repeated_indices_count_once() {
    let p = SparsePattern::try_from_indices(2, 2, &vec![(1, 0), (0, 0), (1, 0), (1, 0)]).unwrap();
    assert_eq!(p.col_ptrs, vec![0, 2, 2]);
    assert_eq!(p.row_indices, vec![0, 1]);
}

#[test]
fn empty_index_list_gives_empty_pattern() {
    let p = SparsePattern::try_from_indices(3, 2, &vec![]).unwrap();
    assert_eq!(p.col_ptrs, vec![0, 0, 0]);
    assert!(p.row_indices.is_empty());
}

#[test]
fn out_of_bounds_index_is_a_dimension_mismatch() {
    assert_eq!(
        SparsePattern::try_from_indices(4, 4, &vec![(0, 0), (4, 1)]).err(),
        Some(MatError::DimensionMismatch)
    );
    assert_eq!(
        SparsePattern::try_from_indices(4, 4, &vec![(0, 4)]).err(),
        Some(MatError::DimensionMismatch)
    );
    assert_eq!(
        SparsePattern::try_from_indices(0, 0, &vec![(0, 0)]).err(),
        Some(MatError::DimensionMismatch)
    );
}

#[test]
fn oversized_dimensions_are_refused() {
    assert_eq!(
        SparsePattern::try_from_indices(usize::MAX, 1, &vec![]).err(),
        Some(MatError::ResourceExhausted)
    );
}

#[test]
fn structure_check_finds_empty_lines() {
    let p = SparsePattern::try_from_indices(4, 4, &demo_indices()).unwrap();
    assert_eq!(p.check_structure(), Ok(()));
    let empty_row = SparsePattern::try_from_indices(3, 3, &vec![(0, 0), (1, 1), (0, 2)]).unwrap();
    assert_eq!(empty_row.check_structure(), Err(MatError::SingularPattern));
    let empty_col = SparsePattern::try_from_indices(3, 3, &vec![(0, 0), (1, 1), (2, 1)]).unwrap();
    assert_eq!(empty_col.check_structure(), Err(MatError::SingularPattern));
    let wide = SparsePattern::try_from_indices(2, 3, &vec![(0, 0), (1, 1), (0, 2)]).unwrap();
    assert_eq!(wide.check_structure(), Err(MatError::DimensionMismatch));
}

#[test]
fn sub_patterns_fit_within() {
    let full = SparsePattern::try_from_indices(4, 4, &demo_indices()).unwrap();
    let diag = SparsePattern::try_from_indices(4, 4, &vec![(0, 0), (1, 1), (2, 2), (3, 3)]).unwrap();
    let other = SparsePattern::try_from_indices(4, 4, &vec![(0, 0), (2, 3)]).unwrap();
    let smaller = SparsePattern::try_from_indices(3, 3, &vec![(0, 0)]).unwrap();
    assert!(diag.fits_within(&full));
    assert!(full.fits_within(&full));
    assert!(!full.fits_within(&diag));
    assert!(!other.fits_within(&full));
    assert!(!smaller.fits_within(&full));
}

#[test]
fn duplicate_is_an_equal_copy() {
    let p = SparsePattern::try_from_indices(4, 4, &demo_indices()).unwrap();
    let q = p.duplicate();
    assert_eq!(q.col_ptrs, p.col_ptrs);
    assert_eq!(q.row_indices, p.row_indices);
    assert_eq!((q.nrows, q.ncols), (4, 4));
}

#[test]
fn symbolic_structure_admits_its_pattern_and_sub_patterns() {
    let p = SparsePattern::try_from_indices(4, 4, &demo_indices()).unwrap();
    let s = SymbolicStructure::try_new(&p).unwrap();
    assert_eq!(s.pattern().col_ptrs, p.col_ptrs);
    assert_eq!(s.pattern().row_indices, p.row_indices);
    assert!(s.admits(&p));
    let diag = SparsePattern::try_from_indices(4, 4, &vec![(0, 0), (1, 1), (2, 2), (3, 3)]).unwrap();
    assert!(s.admits(&diag));
    let outside = SparsePattern::try_from_indices(4, 4, &vec![(0, 3)]).unwrap();
    assert!(!s.admits(&outside));
}

#[test]
fn symbolic_structure_rejects_degenerate_patterns() {
    let empty_row = SparsePattern::try_from_indices(3, 3, &vec![(0, 0), (1, 1), (0, 2)]).unwrap();
    assert_eq!(SymbolicStructure::try_new(&empty_row).err(), Some(MatError::SingularPattern));
    let wide = SparsePattern::try_from_indices(2, 3, &vec![(0, 0), (1, 1), (0, 2)]).unwrap();
    assert_eq!(SymbolicStructure::try_new(&wide).err(), Some(MatError::DimensionMismatch));
}
