use vstd::prelude::*;

use crate::error::MatError;
use crate::pattern::SparsePattern;
use faer::sparse::solvers::SymbolicLu;
use faer::sparse::{FaerError, SymbolicSparseColMatRef};

verus! {

#[verifier::external_type_specification]
#[verifier::external_body]
#[verifier::reject_recursive_types(I)]
pub struct ExSymbolicLu<I>(SymbolicLu<I>);

#[verifier::external_type_specification]
#[verifier::external_body]
pub struct ExFaerError(FaerError);

/// Relies on faer's `SymbolicLu::try_new` (and on
/// `SymbolicSparseColMatRef::new_checked`, whose assertions a well-formed
/// square pattern meets): it computes the fill-reducing column ordering and
/// the elimination structure of a square pattern from its indices alone.
#[verifier::external_body]
fn analyze_lu(pattern: &SparsePattern) -> (r: Result<SymbolicLu<usize>, FaerError>)
    requires
        pattern.wf(),
        pattern.nrows == pattern.ncols,
{
    SymbolicLu::try_new(
        SymbolicSparseColMatRef::new_checked(
            pattern.nrows,
            pattern.ncols,
            &pattern.col_ptrs,
            None,
            &pattern.row_indices,
        ),
    )
}

/// The pattern-only stage of a sparse LU factorization: the analysed
/// pattern together with its elimination ordering and structure. It never
/// changes once built, and any number of numeric factorizations of matrices
/// whose pattern fits within the analysed one can share it.
pub struct SymbolicStructure {
    pattern: SparsePattern,
    lu: SymbolicLu<usize>,
}

impl SymbolicStructure {
    #[verifier::type_invariant]
    spec fn inv(self) -> bool {
        &&& self.pattern.wf()
        &&& self.pattern.nrows == self.pattern.ncols
        &&& self.pattern.is_structurally_sound()
    }

    /// The pattern that was analysed.
    pub closed spec fn analyzed(self) -> SparsePattern {
        self.pattern
    }

    /// Analyses a pattern. A pattern that is not square is a
    /// `DimensionMismatch`; one with an empty row or column is a
    /// `SingularPattern`; index overflow or allocation failure during the
    /// analysis is `ResourceExhausted`.
    pub fn try_new(pattern: &SparsePattern) -> (r: Result<SymbolicStructure, MatError>)
        requires
            pattern.wf(),
        ensures
            pattern.nrows != pattern.ncols ==> r == Err::<SymbolicStructure, MatError>(
                MatError::DimensionMismatch,
            ),
            pattern.nrows == pattern.ncols && !pattern.is_structurally_sound() ==> r == Err::<
                SymbolicStructure,
                MatError,
            >(MatError::SingularPattern),
            pattern.nrows == pattern.ncols && pattern.is_structurally_sound() ==> (r is Ok || r == Err::<
                SymbolicStructure,
                MatError,
            >(MatError::ResourceExhausted)),
            r matches Ok(s) ==> s.analyzed().same_as(pattern),
    {
        match pattern.check_structure() {
            Err(e) => Err(e),
            Ok(()) => match analyze_lu(pattern) {
                Ok(lu) => {
                    let copy = pattern.duplicate();
                    proof {
                        lemma_same_pattern_same_structure(pattern, &copy);
                    }
                    Ok(SymbolicStructure { pattern: copy, lu })
                },
                Err(_) => Err(MatError::ResourceExhausted),
            },
        }
    }

    /// The analysed pattern.
    pub fn pattern(&self) -> (r: &SparsePattern)
        ensures
            *r == self.analyzed(),
            r.wf(),
            r.nrows == r.ncols,
            r.is_structurally_sound(),
    {
        proof {
            use_type_invariant(self);
        }
        &self.pattern
    }

    /// The ordering and elimination structure that numeric factorizations
    /// start from.
    pub fn lu_structure(&self) -> &SymbolicLu<usize> {
        &self.lu
    }

    /// Whether a matrix with pattern `p` can be factored on this structure:
    /// same dimensions, and no entry outside the analysed pattern.
    pub fn admits(&self, p: &SparsePattern) -> (r: bool)
        requires
            p.wf(),
        ensures
            r == p.is_within(&self.analyzed()),
    {
        proof {
            use_type_invariant(self);
        }
        p.fits_within(&self.pattern)
    }
}

/// Patterns with the same arrays are alike in every structural respect.
proof fn lemma_same_pattern_same_structure(p: &SparsePattern, q: &SparsePattern)
    requires
        p.same_as(q),
    ensures
        p.wf() == q.wf(),
        p.is_structurally_sound() == q.is_structurally_sound(),
        forall|i: int, j: int| p.has_entry(i, j) == q.has_entry(i, j),
{
    assert forall|i: int, j: int| p.has_entry(i, j) == q.has_entry(i, j) by {}
    assert forall|j: int| p.col_is_empty(j) == q.col_is_empty(j) by {}
    assert forall|i: int| p.row_is_empty(i) == q.row_is_empty(i) by {
        assert forall|j: int| 0 <= j < p.ncols implies (p.has_entry(i, j) == q.has_entry(i, j)) by {}
    }
}

/// A structure analysed on pattern `p` admits `p` itself and every pattern
/// that fits within `p`, such as that of any rescaling of the matrix: one
/// analysis serves every refactorization on that pattern.
pub proof fn lemma_structure_admits_subpatterns(s: SymbolicStructure, p: SparsePattern, q: SparsePattern)
    requires
        s.analyzed().same_as(&p),
        q.is_within(&p),
    ensures
        p.is_within(&s.analyzed()),
        q.is_within(&s.analyzed()),
{
}

} // verus!
