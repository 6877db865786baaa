//! The square lattice of starting points, and its place in the picture.
//!
//! The lattice of half-width `dim` holds the points `(i, j)` with
//! `-dim <= i < dim` and `-dim <= j < dim`. They are enumerated column by
//! column, `i` ascending, and within a column with `j` ascending. In the
//! picture, point `(i, j)` is the pixel in column `i + dim` and row
//! `dim - j`, so that `j` grows upwards.

use vstd::prelude::*;
use vstd::arithmetic::div_mod::{lemma_fundamental_div_mod, lemma_fundamental_div_mod_converse};

verus! {

/// Whether `(i, j)` is a point of the lattice of half-width `dim`.
pub open spec fn in_lattice(dim: int, i: int, j: int) -> bool {
    -dim <= i < dim && -dim <= j < dim
}

/// Number of points of the lattice.
pub open spec fn lattice_len(dim: int) -> nat {
    if dim > 0 {
        (4 * dim * dim) as nat
    } else {
        0
    }
}

/// Place of the point `(i, j)` in the enumeration of the lattice.
pub open spec fn index_of(dim: int, i: int, j: int) -> int {
    (i + dim) * (2 * dim) + (j + dim)
}

/// The points of the lattice in the order of the enumeration.
pub open spec fn lattice(dim: int) -> Seq<(int, int)> {
    Seq::new(lattice_len(dim), |k: int| (k / (2 * dim) - dim, k % (2 * dim) - dim))
}

/// Column and row of the pixel that shows the point `(i, j)`.
pub open spec fn pixel_position(dim: int, i: int, j: int) -> (int, int) {
    (i + dim, dim - j)
}

/// Width and height of the picture of the lattice, in pixels.
pub open spec fn side(dim: int) -> int {
    2 * dim + 1
}

/// A sequence of points with machine integers, as mathematics.
pub open spec fn as_points(points: Seq<(i32, i32)>) -> Seq<(int, int)> {
    points.map_values(|p: (i32, i32)| (p.0 as int, p.1 as int))
}

/// The enumeration reaches every point of the lattice, at the place that
/// `index_of` gives.
pub proof fn lemma_point_at_its_index(dim: int, i: int, j: int)
    requires
        in_lattice(dim, i, j),
    ensures
        0 <= index_of(dim, i, j) < lattice_len(dim),
        lattice(dim)[index_of(dim, i, j)] == (i, j),
{
    let n = 2 * dim;
    let q = i + dim;
    let r = j + dim;
    assert(0 <= q * n && q * n + n <= n * n && n * n == 4 * dim * dim) by (nonlinear_arith)
        requires
            0 <= q < n,
            n == 2 * dim,
    ;
    lemma_fundamental_div_mod_converse(q * n + r, n, q, r);
}

/// The enumeration holds points of the lattice only, each at the place
/// that `index_of` gives, so none twice.
pub proof fn lemma_index_of_its_point(dim: int, k: int)
    requires
        0 <= k < lattice_len(dim),
    ensures
        in_lattice(dim, lattice(dim)[k].0, lattice(dim)[k].1),
        index_of(dim, lattice(dim)[k].0, lattice(dim)[k].1) == k,
{
    let n = 2 * dim;
    lemma_fundamental_div_mod(k, n);
    let q = k / n;
    let r = k % n;
    assert(0 <= r < n);
    assert(0 <= q < n) by (nonlinear_arith)
        requires
            0 <= k < 4 * dim * dim,
            n == 2 * dim,
            k == n * q + r,
            0 <= r < n,
    ;
    assert(q * n == n * q) by (nonlinear_arith);
}

/// Every point of the lattice has a pixel inside the picture, and no two
/// points share one.
pub proof fn lemma_pixel_of_point(dim: int, i: int, j: int, i2: int, j2: int)
    requires
        in_lattice(dim, i, j),
    ensures
        0 <= pixel_position(dim, i, j).0 < side(dim),
        0 <= pixel_position(dim, i, j).1 < side(dim),
        pixel_position(dim, i, j) == pixel_position(dim, i2, j2) ==> i == i2 && j == j2,
{
}

/// `itertools::Itertools::cartesian_product` of the range `lo..hi` with
/// itself, collected into a vector: all pairs of its numbers, the first
/// component changing slowest. The precondition keeps the vector within
/// the largest allocation.
#[verifier::external_body]
fn range_square(lo: i32, hi: i32) -> (pairs: Vec<(i32, i32)>)
    requires
        lo < hi,
        8 * ((hi - lo) * (hi - lo)) <= isize::MAX,
    ensures
        pairs@.len() == (hi - lo) * (hi - lo),
        forall|k: int|
            0 <= k < pairs@.len() ==> (#[trigger] pairs@[k]).0 == lo + k / (hi - lo) && pairs@[k].1
                == lo + k % (hi - lo),
{
    itertools::Itertools::cartesian_product(lo..hi, lo..hi).collect()
}

/// The points of the lattice of half-width `dim`, in the order of the
/// enumeration. A half-width that is not positive gives no points.
pub fn lattice_points(dim: i32) -> (points: Vec<(i32, i32)>)
    requires
        dim > 0 ==> 32 * (dim * dim) <= isize::MAX,
    ensures
        as_points(points@) == lattice(dim as int),
{
    if dim <= 0 {
        let points: Vec<(i32, i32)> = Vec::new();
        assert(as_points(points@) =~= lattice(dim as int));
        return points;
    }
    assert((dim - (-dim)) * (dim - (-dim)) == 4 * (dim * dim)) by (nonlinear_arith);
    let points = range_square(-dim, dim);
    assert(4 * (dim * dim) == 4 * dim * dim) by (nonlinear_arith);
    assert(as_points(points@) =~= lattice(dim as int));
    points
}

/// Place of a point of the lattice in the enumeration.
pub fn point_index(dim: i32, i: i32, j: i32) -> (index: usize)
    requires
        in_lattice(dim as int, i as int, j as int),
        4 * (dim * dim) <= usize::MAX,
    ensures
        index == index_of(dim as int, i as int, j as int),
{
    let n: u64 = 2 * (dim as u64);
    let q: u64 = (i as i64 + dim as i64) as u64;
    let r: u64 = (j as i64 + dim as i64) as u64;
    assert(q * n + r < n * n && n * n == 4 * (dim * dim) && q * n >= 0) by (nonlinear_arith)
        requires
            0 <= q < n,
            0 <= r < n,
            n == 2 * dim,
    ;
    (q * n + r) as usize
}

/// Column and row of the pixel that shows a point of the lattice.
pub fn pixel_of(dim: i32, i: i32, j: i32) -> (pixel: (u32, u32))
    requires
        in_lattice(dim as int, i as int, j as int),
    ensures
        (pixel.0 as int, pixel.1 as int) == pixel_position(dim as int, i as int, j as int),
{
    ((i as i64 + dim as i64) as u32, (dim as i64 - j as i64) as u32)
}

} // verus!
