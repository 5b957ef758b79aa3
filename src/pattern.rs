use vstd::prelude::*;

use crate::error::MatError;
use faer::sparse::SymbolicSparseColMat;

verus! {

/// The nonzero pattern of a sparse matrix in compressed-column form: the
/// row indices of column `j` are `row_indices[col_ptrs[j]..col_ptrs[j + 1]]`,
/// strictly increasing. Values are kept elsewhere; a pattern is all that the
/// symbolic stage of a factorization reads.
#[derive(Debug)]
pub struct SparsePattern {
    pub nrows: usize,
    pub ncols: usize,
    pub col_ptrs: Vec<usize>,
    pub row_indices: Vec<usize>,
}

/// Compressed-column arrays that describe a valid pattern of the given
/// dimensions.
#[verifier::opaque]
pub open spec fn csc_valid(nrows: int, ncols: int, cp: Seq<usize>, ri: Seq<usize>) -> bool {
    &&& nrows <= isize::MAX
    &&& ncols <= isize::MAX
    &&& cp.len() == ncols + 1
    &&& cp[0] == 0
    &&& cp[ncols] == ri.len()
    &&& forall|a: int, b: int| 0 <= a <= b <= ncols ==> cp[a] <= cp[b]
    &&& forall|j: int, p: int, q: int|
        #![trigger cp[j], ri[p], ri[q]]
        0 <= j < ncols && cp[j] <= p < q < cp[j + 1] ==> ri[p] < ri[q]
    &&& forall|p: int| 0 <= p < ri.len() ==> #[trigger] ri[p] < nrows
}

/// Entry `(i, j)` is in the pattern given by compressed-column arrays.
pub open spec fn csc_has(cp: Seq<usize>, ri: Seq<usize>, i: int, j: int) -> bool {
    0 <= j < cp.len() - 1 && exists|p: int| cp[j] <= p < cp[j + 1] && #[trigger] ri[p] == i
}

/// Entry `(i, j)` is one of the given index pairs.
pub open spec fn listed(indices: Seq<(usize, usize)>, i: int, j: int) -> bool {
    exists|k: int| 0 <= k < indices.len() && #[trigger] indices[k].0 == i && indices[k].1 == j
}

/// Every index pair lies inside an `nrows x ncols` matrix.
pub open spec fn all_in_bounds(nrows: int, ncols: int, indices: Seq<(usize, usize)>) -> bool {
    forall|k: int| 0 <= k < indices.len() ==> #[trigger] indices[k].0 < nrows && indices[k].1 < ncols
}

/// Relies on faer's `SymbolicSparseColMat::try_new_from_indices`: with every
/// pair in bounds, it sorts the pairs by column then row, drops repeated
/// pairs, and returns the compressed-column arrays of exactly the listed
/// positions; it fails only on index overflow or allocation failure, which
/// comes back as `None`.
#[verifier::external_body]
fn csc_from_indices(nrows: usize, ncols: usize, indices: &Vec<(usize, usize)>) -> (r: Option<
    (Vec<usize>, Vec<usize>),
>)
    requires
        nrows <= isize::MAX,
        ncols <= isize::MAX,
        all_in_bounds(nrows as int, ncols as int, indices@),
    ensures
        r matches Some((cp, ri)) ==> csc_valid(nrows as int, ncols as int, cp@, ri@) && (forall|i: int, j: int|
            csc_has(cp@, ri@, i, j) <==> listed(indices@, i, j)),
{
    match SymbolicSparseColMat::<usize>::try_new_from_indices(nrows, ncols, indices) {
        Ok((s, _)) => Some((s.col_ptrs().to_vec(), s.row_indices().to_vec())),
        Err(_) => None,
    }
}

impl SparsePattern {
    pub open spec fn wf(&self) -> bool {
        csc_valid(self.nrows as int, self.ncols as int, self.col_ptrs@, self.row_indices@)
    }

    /// Entry `(i, j)` is structurally present.
    pub open spec fn has_entry(&self, i: int, j: int) -> bool {
        csc_has(self.col_ptrs@, self.row_indices@, i, j)
    }

    pub open spec fn col_is_empty(&self, j: int) -> bool {
        self.col_ptrs@[j] == self.col_ptrs@[j + 1]
    }

    pub open spec fn row_is_empty(&self, i: int) -> bool {
        forall|j: int| 0 <= j < self.ncols ==> !#[trigger] self.has_entry(i, j)
    }

    /// Square, and no row or column without an entry.
    pub open spec fn is_structurally_sound(&self) -> bool {
        &&& self.nrows == self.ncols
        &&& forall|j: int| 0 <= j < self.ncols ==> !#[trigger] self.col_is_empty(j)
        &&& forall|i: int| 0 <= i < self.nrows ==> !#[trigger] self.row_is_empty(i)
    }

    /// Same dimensions, and every entry of `self` is an entry of `other`.
    pub open spec fn is_within(&self, other: &SparsePattern) -> bool {
        &&& self.nrows == other.nrows
        &&& self.ncols == other.ncols
        &&& forall|i: int, j: int| #[trigger] self.has_entry(i, j) ==> other.has_entry(i, j)
    }

    /// Builds the pattern of an `nrows x ncols` matrix from `(row, col)`
    /// pairs; a pair may repeat, and it then stands for one entry. A pair
    /// outside the matrix is a `DimensionMismatch`.
    pub fn try_from_indices(nrows: usize, ncols: usize, indices: &Vec<(usize, usize)>) -> (r: Result<
        SparsePattern,
        MatError,
    >)
        ensures
            r matches Ok(p) ==> p.wf() && p.nrows == nrows && p.ncols == ncols && (forall|i: int, j: int|
                p.has_entry(i, j) <==> listed(indices@, i, j)),
            r == Err::<SparsePattern, MatError>(MatError::DimensionMismatch) <==> !all_in_bounds(
                nrows as int,
                ncols as int,
                indices@,
            ),
            r is Err ==> r == Err::<SparsePattern, MatError>(MatError::DimensionMismatch) || r == Err::<
                SparsePattern,
                MatError,
            >(MatError::ResourceExhausted),
            all_in_bounds(nrows as int, ncols as int, indices@) && (nrows > isize::MAX || ncols
                > isize::MAX) ==> r == Err::<SparsePattern, MatError>(MatError::ResourceExhausted),
    {
        let mut k: usize = 0;
        while k < indices.len()
            invariant
                k <= indices@.len(),
                forall|kk: int| 0 <= kk < k ==> #[trigger] indices@[kk].0 < nrows && indices@[kk].1 < ncols,
            decreases indices@.len() - k,
        {
            let (i, j) = indices[k];
            if i >= nrows || j >= ncols {
                assert(!(indices@[k as int].0 < nrows && indices@[k as int].1 < ncols));
                return Err(MatError::DimensionMismatch);
            }
            k += 1;
        }
        assert(all_in_bounds(nrows as int, ncols as int, indices@));
        if nrows > isize::MAX as usize || ncols > isize::MAX as usize {
            return Err(MatError::ResourceExhausted);
        }
        match csc_from_indices(nrows, ncols, indices) {
            Some((col_ptrs, row_indices)) => Ok(SparsePattern { nrows, ncols, col_ptrs, row_indices }),
            None => Err(MatError::ResourceExhausted),
        }
    }

    /// Within column `j`, the row indices before position `p` include `i`,
    /// or an earlier column has an entry in row `i`.
    spec fn covered(&self, i: int, j: int, p: int) -> bool {
        (exists|jj: int| 0 <= jj < j && #[trigger] self.has_entry(i, jj)) || (exists|q: int|
            self.col_ptrs@[j] <= q < p && #[trigger] self.row_indices@[q] == i)
    }

    /// The bounds of column `j` in `row_indices`.
    proof fn lemma_col_range(&self, j: int)
        requires
            self.wf(),
            0 <= j < self.ncols,
        ensures
            self.col_ptrs@[j] <= self.col_ptrs@[j + 1] <= self.row_indices@.len(),
            forall|q: int|
                self.col_ptrs@[j] <= q < self.col_ptrs@[j + 1] ==> #[trigger] self.row_indices@[q]
                    < self.nrows,
            self.col_ptrs@.len() == self.ncols + 1,
    {
        reveal(csc_valid);
        assert(self.col_ptrs@[j] <= self.col_ptrs@[j + 1]);
        assert(self.col_ptrs@[j + 1] <= self.col_ptrs@[self.ncols as int]);
    }

    /// Whether entry `(i, j)` is present.
    pub fn contains(&self, i: usize, j: usize) -> (r: bool)
        requires
            self.wf(),
            j < self.ncols,
        ensures
            r == self.has_entry(i as int, j as int),
    {
        proof {
            self.lemma_col_range(j as int);
        }
        let end = self.col_ptrs[j + 1];
        let mut p = self.col_ptrs[j];
        while p < end
            invariant
                self.wf(),
                j < self.ncols,
                self.col_ptrs@.len() == self.ncols + 1,
                self.col_ptrs@[j as int] <= p <= end,
                end == self.col_ptrs@[j + 1],
                end <= self.row_indices@.len(),
                forall|q: int| self.col_ptrs@[j as int] <= q < p ==> #[trigger] self.row_indices@[q] != i,
            decreases end - p,
        {
            if self.row_indices[p] == i {
                return true;
            }
            p += 1;
        }
        false
    }

    /// Structural check before a factorization: the pattern must be square
    /// (`DimensionMismatch` otherwise), and every row and every column must
    /// hold an entry (`SingularPattern` otherwise).
    pub fn check_structure(&self) -> (r: Result<(), MatError>)
        requires
            self.wf(),
        ensures
            self.nrows != self.ncols ==> r == Err::<(), MatError>(MatError::DimensionMismatch),
            self.nrows == self.ncols && self.is_structurally_sound() ==> r is Ok,
            self.nrows == self.ncols && !self.is_structurally_sound() ==> r == Err::<(), MatError>(
                MatError::SingularPattern,
            ),
    {
        if self.nrows != self.ncols {
            return Err(MatError::DimensionMismatch);
        }
        let n = self.ncols;
        proof {
            reveal(csc_valid);
        }
        let mut j: usize = 0;
        while j < n
            invariant
                self.wf(),
                n == self.ncols,
                self.nrows == n,
                self.col_ptrs@.len() == n + 1,
                j <= n,
                forall|jj: int| 0 <= jj < j ==> !#[trigger] self.col_is_empty(jj),
            decreases n - j,
        {
            proof {
                self.lemma_col_range(j as int);
            }
            if self.col_ptrs[j] == self.col_ptrs[j + 1] {
                assert(self.col_is_empty(j as int));
                return Err(MatError::SingularPattern);
            }
            j += 1;
        }
        let mut seen: Vec<bool> = Vec::new();
        let mut i: usize = 0;
        while i < self.nrows
            invariant
                self.nrows == n,
                i <= self.nrows,
                seen@.len() == i,
                forall|ii: int| 0 <= ii < i ==> !#[trigger] seen@[ii],
            decreases self.nrows - i,
        {
            seen.push(false);
            i += 1;
        }
        j = 0;
        while j < n
            invariant
                self.wf(),
                n == self.ncols,
                self.nrows == n,
                self.col_ptrs@.len() == n + 1,
                j <= n,
                seen@.len() == self.nrows,
                forall|ii: int| 0 <= ii < self.nrows ==> (#[trigger] seen@[ii] <==> self.covered(ii, j as int, self.col_ptrs@[j as int] as int)),
            decreases n - j,
        {
            proof {
                self.lemma_col_range(j as int);
            }
            let end = self.col_ptrs[j + 1];
            let mut p = self.col_ptrs[j];
            while p < end
                invariant
                    self.wf(),
                    n == self.ncols,
                    self.nrows == n,
                self.nrows == n,
                self.col_ptrs@.len() == n + 1,
                    j < n,
                    self.col_ptrs@.len() == self.ncols + 1,
                    self.col_ptrs@[j as int] <= p <= end,
                    end == self.col_ptrs@[j + 1],
                    end <= self.row_indices@.len(),
                    forall|q: int|
                        self.col_ptrs@[j as int] <= q < end ==> #[trigger] self.row_indices@[q]
                            < self.nrows,
                    seen@.len() == self.nrows,
                    forall|ii: int| 0 <= ii < self.nrows ==> (#[trigger] seen@[ii] <==> self.covered(ii, j as int, p as int)),
                decreases end - p,
            {
                let r = self.row_indices[p];
                seen.set(r, true);
                proof {
                    assert forall|ii: int| 0 <= ii < self.nrows implies (#[trigger] seen@[ii] <==> self.covered(ii, j as int, p + 1)) by {
                        if ii == r {
                            assert(self.row_indices@[p as int] == ii);
                        } else {
                            if self.covered(ii, j as int, p + 1) && !self.covered(ii, j as int, p as int) {
                                let q = choose|q: int|
                                    self.col_ptrs@[j as int] <= q < p + 1 && #[trigger] self.row_indices@[q] == ii;
                                assert(q != p);
                            }
                        }
                    }
                }
                p += 1;
            }
            proof {
                assert forall|ii: int| 0 <= ii < self.nrows implies (#[trigger] seen@[ii] <==> self.covered(ii, j + 1, self.col_ptrs@[j + 1] as int)) by {
                    if self.covered(ii, j as int, end as int) {
                        if exists|jj: int| 0 <= jj < j && #[trigger] self.has_entry(ii, jj) {
                            let jj = choose|jj: int| 0 <= jj < j && #[trigger] self.has_entry(ii, jj);
                            assert(0 <= jj < j + 1 && self.has_entry(ii, jj));
                        } else {
                            assert(self.has_entry(ii, j as int));
                        }
                    }
                    if self.covered(ii, j + 1, self.col_ptrs@[j + 1] as int) {
                        assert(!(exists|q: int| self.col_ptrs@[j + 1] <= q < self.col_ptrs@[j + 1] && #[trigger] self.row_indices@[q] == ii));
                        let jj = choose|jj: int| 0 <= jj < j + 1 && #[trigger] self.has_entry(ii, jj);
                        if jj == j {
                            let q = choose|q: int| self.col_ptrs@[j as int] <= q < self.col_ptrs@[j + 1] && #[trigger] self.row_indices@[q] == ii;
                            assert(self.covered(ii, j as int, end as int));
                        }
                    }
                }
            }
            j += 1;
        }
        i = 0;
        while i < self.nrows
            invariant
                n == self.ncols,
                self.nrows == n,
                self.col_ptrs@.len() == n + 1,
                i <= self.nrows,
                seen@.len() == self.nrows,
                forall|ii: int| 0 <= ii < self.nrows ==> (#[trigger] seen@[ii] <==> self.covered(ii, n as int, self.col_ptrs@[n as int] as int)),
                forall|ii: int| 0 <= ii < i ==> !#[trigger] self.row_is_empty(ii),
            decreases self.nrows - i,
        {
            if !seen[i] {
                proof {
                    assert forall|jj: int| 0 <= jj < self.ncols implies !#[trigger] self.has_entry(i as int, jj) by {
                        assert(!self.covered(i as int, n as int, self.col_ptrs@[n as int] as int));
                    }
                    assert(self.row_is_empty(i as int));
                }
                return Err(MatError::SingularPattern);
            }
            proof {
                let jj = choose|jj: int| 0 <= jj < n && #[trigger] self.has_entry(i as int, jj);
                assert(!self.row_is_empty(i as int));
            }
            i += 1;
        }
        Ok(())
    }

    /// Whether `self` has the dimensions of `other` and each of its entries
    /// is an entry of `other`: a factorization analysed on `other` can then
    /// take a matrix with pattern `self`.
    pub fn fits_within(&self, other: &SparsePattern) -> (r: bool)
        requires
            self.wf(),
            other.wf(),
        ensures
            r == self.is_within(other),
    {
        if self.nrows != other.nrows || self.ncols != other.ncols {
            return false;
        }
        let n = self.ncols;
        let mut j: usize = 0;
        while j < n
            invariant
                self.wf(),
                other.wf(),
                n == self.ncols,
                n == other.ncols,
                self.nrows == other.nrows,
                j <= n,
                forall|i: int, jj: int| 0 <= jj < j && #[trigger] self.has_entry(i, jj) ==> other.has_entry(i, jj),
            decreases n - j,
        {
            proof {
                self.lemma_col_range(j as int);
            }
            let end = self.col_ptrs[j + 1];
            let mut p = self.col_ptrs[j];
            while p < end
                invariant
                    self.wf(),
                    other.wf(),
                    n == self.ncols,
                    n == other.ncols,
                    self.nrows == other.nrows,
                    j < n,
                    self.col_ptrs@.len() == n + 1,
                    self.col_ptrs@[j as int] <= p <= end,
                    end == self.col_ptrs@[j + 1],
                    end <= self.row_indices@.len(),
                    forall|i: int, jj: int| 0 <= jj < j && #[trigger] self.has_entry(i, jj) ==> other.has_entry(i, jj),
                    forall|q: int| self.col_ptrs@[j as int] <= q < p ==> other.has_entry(#[trigger] self.row_indices@[q] as int, j as int),
                decreases end - p,
            {
                let i = self.row_indices[p];
                if !other.contains(i, j) {
                    assert(self.has_entry(i as int, j as int));
                    return false;
                }
                p += 1;
            }
            proof {
                assert forall|i: int, jj: int| 0 <= jj < j + 1 && #[trigger] self.has_entry(i, jj) implies other.has_entry(i, jj) by {
                    if jj == j {
                        let q = choose|q: int| self.col_ptrs@[j as int] <= q < self.col_ptrs@[j + 1] && #[trigger] self.row_indices@[q] == i;
                        assert(other.has_entry(self.row_indices@[q] as int, j as int));
                    }
                }
            }
            j += 1;
        }
        proof {
            reveal(csc_valid);
            assert forall|i: int, jj: int| #[trigger] self.has_entry(i, jj) implies other.has_entry(i, jj) by {
                assert(0 <= jj < n);
            }
        }
        true
    }

    /// The same dimensions and the same compressed-column arrays.
    pub open spec fn same_as(&self, other: &SparsePattern) -> bool {
        &&& self.nrows == other.nrows
        &&& self.ncols == other.ncols
        &&& self.col_ptrs@ == other.col_ptrs@
        &&& self.row_indices@ == other.row_indices@
    }

    /// A copy of the pattern.
    pub fn duplicate(&self) -> (r: SparsePattern)
        ensures
            r.same_as(self),
    {
        SparsePattern {
            nrows: self.nrows,
            ncols: self.ncols,
            col_ptrs: self.col_ptrs.clone(),
            row_indices: self.row_indices.clone(),
        }
    }
}

} // verus!
