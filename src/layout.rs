use vstd::prelude::*;

use crate::error::MatError;

verus! {

/// Where the entries of a strided matrix view live: entry `(i, j)` is the
/// element at address `start + i * row_stride + j * col_stride` of the
/// underlying storage (addresses counted in elements).
#[derive(Debug, Clone, Copy, PartialEq, Eq, Structural)]
pub struct ViewLayout {
    pub start: usize,
    pub rows: usize,
    pub cols: usize,
    pub row_stride: isize,
    pub col_stride: isize,
}

pub open spec fn min0(x: int) -> int {
    if x < 0 { x } else { 0 }
}

pub open spec fn max0(x: int) -> int {
    if x > 0 { x } else { 0 }
}

impl ViewLayout {
    /// The view addresses no element at all.
    pub open spec fn is_empty(self) -> bool {
        self.rows == 0 || self.cols == 0
    }

    pub open spec fn addr(self, i: int, j: int) -> int {
        self.start + i * self.row_stride + j * self.col_stride
    }

    pub open spec fn in_bounds(self, i: int, j: int) -> bool {
        0 <= i < self.rows && 0 <= j < self.cols
    }

    /// Offset of the last row (resp. column) from the first one.
    pub open spec fn row_extent(self) -> int {
        (self.rows - 1) * self.row_stride
    }

    pub open spec fn col_extent(self) -> int {
        (self.cols - 1) * self.col_stride
    }

    /// Lowest and highest address that a non-empty view touches.
    pub open spec fn lo(self) -> int {
        self.start + min0(self.row_extent()) + min0(self.col_extent())
    }

    pub open spec fn hi(self) -> int {
        self.start + max0(self.row_extent()) + max0(self.col_extent())
    }

    /// Every address of the view is a valid element address.
    pub open spec fn wf(self) -> bool {
        self.is_empty() || (0 <= self.lo() && self.hi() <= usize::MAX)
    }

    /// Builds a layout; fails when some entry's address would leave the
    /// range of machine addresses.
    pub fn new(start: usize, rows: usize, cols: usize, row_stride: isize, col_stride: isize) -> (r:
        Option<ViewLayout>)
        ensures
            ({
                let v = ViewLayout { start, rows, cols, row_stride, col_stride };
                &&& v.wf() ==> r == Some(v)
                &&& !v.wf() ==> r is None
            }),
    {
        let v = ViewLayout { start, rows, cols, row_stride, col_stride };
        if rows == 0 || cols == 0 {
            return Some(v);
        }
        let a = extent(rows, row_stride);
        let b = extent(cols, col_stride);
        let bound = usize::MAX as i128;
        let (alo, ahi): (i128, i128) = if a < 0 { (a, 0) } else { (0, a) };
        let (blo, bhi): (i128, i128) = if b < 0 { (b, 0) } else { (0, b) };
        if alo < -bound || blo < -bound || ahi > bound || bhi > bound {
            return None;
        }
        let lo = start as i128 + alo + blo;
        let hi = start as i128 + ahi + bhi;
        if lo < 0 || hi > bound {
            None
        } else {
            Some(v)
        }
    }

    /// Lowest and highest address of a non-empty view.
    pub fn span(&self) -> (r: (usize, usize))
        requires
            self.wf(),
            !self.is_empty(),
        ensures
            r.0 == self.lo(),
            r.1 == self.hi(),
    {
        let a = extent(self.rows, self.row_stride);
        let b = extent(self.cols, self.col_stride);
        let (alo, ahi): (i128, i128) = if a < 0 { (a, 0) } else { (0, a) };
        let (blo, bhi): (i128, i128) = if b < 0 { (b, 0) } else { (0, b) };
        let lo = self.start as i128 + alo + blo;
        let hi = self.start as i128 + ahi + bhi;
        (lo as usize, hi as usize)
    }
}

/// `(n - 1) * stride`, computed without overflow.
fn extent(n: usize, stride: isize) -> (r: i128)
    requires
        n >= 1,
    ensures
        r == (n - 1) * stride,
{
    let m = (n - 1) as i128;
    let s = stride as i128;
    proof {
        lemma_extent_fits(m as int, s as int);
    }
    m * s
}

proof fn lemma_extent_fits(m: int, s: int)
    requires
        0 <= m <= usize::MAX,
        isize::MIN <= s <= isize::MAX,
    ensures
        i128::MIN <= m * s <= i128::MAX,
{
    if s >= 0 {
        assert(m * s <= usize::MAX * isize::MAX) by (nonlinear_arith)
            requires 0 <= m <= usize::MAX, 0 <= s <= isize::MAX;
        assert(0 <= m * s) by (nonlinear_arith)
            requires 0 <= m, 0 <= s;
    } else {
        assert(m * s >= usize::MAX * isize::MIN) by (nonlinear_arith)
            requires 0 <= m <= usize::MAX, isize::MIN <= s < 0;
        assert(m * s <= 0) by (nonlinear_arith)
            requires 0 <= m, s < 0;
    }
}

/// For `0 <= i <= n - 1`, `i * s` lies between `0` and `(n - 1) * s`.
proof fn lemma_step_between(i: int, n: int, s: int)
    requires
        0 <= i <= n - 1,
    ensures
        min0((n - 1) * s) <= i * s <= max0((n - 1) * s),
{
    if s >= 0 {
        assert(0 <= i * s <= (n - 1) * s) by (nonlinear_arith)
            requires 0 <= i <= n - 1, s >= 0;
    } else {
        assert((n - 1) * s <= i * s <= 0) by (nonlinear_arith)
            requires 0 <= i <= n - 1, s < 0;
    }
}

/// Every entry of a view lies within its span.
pub proof fn lemma_addr_in_span(v: ViewLayout, i: int, j: int)
    requires
        v.in_bounds(i, j),
    ensures
        v.lo() <= v.addr(i, j) <= v.hi(),
{
    lemma_step_between(i, v.rows as int, v.row_stride as int);
    lemma_step_between(j, v.cols as int, v.col_stride as int);
}

/// Some element of storage is an entry of both views.
pub open spec fn share_element(a: ViewLayout, b: ViewLayout) -> bool {
    exists|i: int, j: int, k: int, l: int|
        a.in_bounds(i, j) && b.in_bounds(k, l) && #[trigger] a.addr(i, j) == #[trigger] b.addr(k, l)
}

/// The address ranges of two non-empty views intersect.
pub open spec fn spans_overlap(a: ViewLayout, b: ViewLayout) -> bool {
    !a.is_empty() && !b.is_empty() && a.lo() <= b.hi() && b.lo() <= a.hi()
}

/// Views whose address ranges are disjoint share no element.
pub proof fn lemma_disjoint_spans_share_no_element(a: ViewLayout, b: ViewLayout)
    requires
        !spans_overlap(a, b),
    ensures
        !share_element(a, b),
{
    assert forall|i: int, j: int, k: int, l: int|
        a.in_bounds(i, j) && b.in_bounds(k, l) implies #[trigger] a.addr(i, j) != #[trigger] b.addr(k, l)
    by {
        lemma_addr_in_span(a, i, j);
        lemma_addr_in_span(b, k, l);
    }
}

/// The shapes of `dst := dst + lhs * rhs` fit: `dst` is `m x n`, `lhs` is
/// `m x k` and `rhs` is `k x n`.
pub open spec fn matmul_shapes_fit(dst: ViewLayout, lhs: ViewLayout, rhs: ViewLayout) -> bool {
    &&& dst.rows == lhs.rows
    &&& dst.cols == rhs.cols
    &&& lhs.cols == rhs.rows
}

/// Admission check for the multiply-accumulate `dst := beta * dst + alpha *
/// lhs * rhs`, which writes `dst` while it reads `lhs` and `rhs`. Shapes are
/// checked first; then the destination's address range must be disjoint from
/// each source's, so that accepted operands never share an element.
pub fn check_matmul(dst: &ViewLayout, lhs: &ViewLayout, rhs: &ViewLayout) -> (r: Result<(), MatError>)
    requires
        dst.wf(),
        lhs.wf(),
        rhs.wf(),
    ensures
        !matmul_shapes_fit(*dst, *lhs, *rhs) ==> r == Err::<(), MatError>(MatError::DimensionMismatch),
        matmul_shapes_fit(*dst, *lhs, *rhs) ==> (r == Err::<(), MatError>(MatError::AliasingViolation)
            <==> spans_overlap(*dst, *lhs) || spans_overlap(*dst, *rhs)),
        matmul_shapes_fit(*dst, *lhs, *rhs) ==> (r is Ok <==> !spans_overlap(*dst, *lhs)
            && !spans_overlap(*dst, *rhs)),
        r is Ok ==> !share_element(*dst, *lhs) && !share_element(*dst, *rhs),
{
    if dst.rows != lhs.rows || dst.cols != rhs.cols || lhs.cols != rhs.rows {
        return Err(MatError::DimensionMismatch);
    }
    if overlaps(dst, lhs) || overlaps(dst, rhs) {
        return Err(MatError::AliasingViolation);
    }
    proof {
        lemma_disjoint_spans_share_no_element(*dst, *lhs);
        lemma_disjoint_spans_share_no_element(*dst, *rhs);
    }
    Ok(())
}

/// Whether the address ranges of two views intersect.
pub fn overlaps(a: &ViewLayout, b: &ViewLayout) -> (r: bool)
    requires
        a.wf(),
        b.wf(),
    ensures
        r == spans_overlap(*a, *b),
{
    if a.rows == 0 || a.cols == 0 || b.rows == 0 || b.cols == 0 {
        return false;
    }
    let (alo, ahi) = a.span();
    let (blo, bhi) = b.span();
    alo <= bhi && blo <= ahi
}

} // verus!
