//! The picture of a classified lattice.

use vstd::prelude::*;
use crate::classifier::IntegrationResult;
use crate::grid::{
    in_lattice, index_of, lattice_len, lemma_point_at_its_index, pixel_position, side,
};
use crate::palette::{color_of, color_table};

verus! {

/// A picture with three 8-bit channels per pixel. It is a buffer of the
/// `image` crate; a canvas is only ever made all black, by
/// `image::ImageBuffer::new`, and then painted pixel by pixel.
#[verifier::external_body]
pub struct Canvas {
    image: image::ImageBuffer<image::Rgb<u8>, Vec<u8>>,
}

/// Width and height of a canvas, in pixels.
pub uninterp spec fn canvas_extent(canvas: Canvas) -> (nat, nat);

/// The colour of every pixel of a canvas, by column and row.
pub uninterp spec fn canvas_pixels(canvas: Canvas) -> Map<(int, int), (u8, u8, u8)>;

/// The pixels of a picture of the given extent that is all black.
pub open spec fn blank(width: nat, height: nat) -> Map<(int, int), (u8, u8, u8)> {
    Map::new(
        |p: (int, int)| 0 <= p.0 < width && 0 <= p.1 < height,
        |p: (int, int)| (0u8, 0u8, 0u8),
    )
}

/// Place of the first sample of pixel `(x, y)` among the samples of a
/// picture of the given width: rows follow each other, and every pixel has
/// three samples.
pub open spec fn sample_index(width: nat, x: int, y: int) -> int {
    3 * (y * width + x)
}

/// `image::ImageBuffer::new`: a buffer of the given extent whose samples are
/// all zero. It panics when the number of samples overflows `usize`, and
/// the vector it allocates panics beyond `isize::MAX` bytes; the
/// precondition excludes both.
#[verifier::external_body]
fn new_canvas(width: u32, height: u32) -> (canvas: Canvas)
    requires
        3 * (width * height) <= isize::MAX,
    ensures
        canvas_extent(canvas) == (width as nat, height as nat),
        canvas_pixels(canvas) == blank(width as nat, height as nat),
{
    Canvas { image: image::ImageBuffer::new(width, height) }
}

/// `image::ImageBuffer::dimensions`: width and height of the buffer.
#[verifier::external_body]
fn dimensions(canvas: &Canvas) -> (extent: (u32, u32))
    ensures
        (extent.0 as nat, extent.1 as nat) == canvas_extent(*canvas),
{
    canvas.image.dimensions()
}

/// `image::ImageBuffer::put_pixel`: overwrites the pixel in column `x` and
/// row `y`, and leaves every other pixel and the extent as they were. It
/// panics outside the extent, which the precondition excludes.
#[verifier::external_body]
fn put_pixel(canvas: &mut Canvas, x: u32, y: u32, color: (u8, u8, u8))
    requires
        x < canvas_extent(*old(canvas)).0,
        y < canvas_extent(*old(canvas)).1,
    ensures
        canvas_extent(*final(canvas)) == canvas_extent(*old(canvas)),
        canvas_pixels(*final(canvas)) == canvas_pixels(*old(canvas)).insert(
            (x as int, y as int),
            color,
        ),
{
    canvas.image.put_pixel(x, y, image::Rgb([color.0, color.1, color.2]))
}

/// `image::ImageBuffer::get_pixel`: the pixel in column `x` and row `y`. It
/// panics outside the extent, which the precondition excludes.
#[verifier::external_body]
fn get_pixel(canvas: &Canvas, x: u32, y: u32) -> (color: (u8, u8, u8))
    requires
        x < canvas_extent(*canvas).0,
        y < canvas_extent(*canvas).1,
    ensures
        color == canvas_pixels(*canvas)[(x as int, y as int)],
{
    let pixel = canvas.image.get_pixel(x, y);
    (pixel.0[0], pixel.0[1], pixel.0[2])
}

/// `image::ImageBuffer::into_raw`: the samples of the buffer. A buffer made
/// by `ImageBuffer::new` holds exactly three samples for every pixel, row
/// after row, and within a row pixel after pixel.
#[verifier::external_body]
fn into_raw(canvas: Canvas) -> (samples: Vec<u8>)
    ensures
        samples@.len() == 3 * (canvas_extent(canvas).0 * canvas_extent(canvas).1),
        forall|x: int, y: int|
            0 <= x < canvas_extent(canvas).0 && 0 <= y < canvas_extent(canvas).1 ==> (
                #[trigger] samples@[sample_index(canvas_extent(canvas).0, x, y)],
                samples@[sample_index(canvas_extent(canvas).0, x, y) + 1],
                samples@[sample_index(canvas_extent(canvas).0, x, y) + 2],
            ) == canvas_pixels(canvas)[(x, y)],
{
    canvas.image.into_raw()
}

impl Canvas {
    /// Width of the picture, in pixels.
    pub fn width(&self) -> (width: u32)
        ensures
            width == canvas_extent(*self).0,
    {
        dimensions(self).0
    }

    /// Height of the picture, in pixels.
    pub fn height(&self) -> (height: u32)
        ensures
            height == canvas_extent(*self).1,
    {
        dimensions(self).1
    }

    /// The colour of the pixel in column `x` and row `y`, or `None` outside
    /// the picture.
    pub fn pixel(&self, x: u32, y: u32) -> (color: Option<(u8, u8, u8)>)
        ensures
            color == if x < canvas_extent(*self).0 && y < canvas_extent(*self).1 {
                Some(canvas_pixels(*self)[(x as int, y as int)])
            } else {
                None::<(u8, u8, u8)>
            },
    {
        let extent = dimensions(self);
        if x < extent.0 && y < extent.1 {
            Some(get_pixel(self, x, y))
        } else {
            None
        }
    }

    /// The samples of the picture: for every row from the top, for every
    /// pixel from the left, its red, green and blue channel.
    pub fn into_samples(self) -> (samples: Vec<u8>)
        ensures
            samples@.len() == 3 * (canvas_extent(self).0 * canvas_extent(self).1),
            forall|x: int, y: int|
                0 <= x < canvas_extent(self).0 && 0 <= y < canvas_extent(self).1 ==> (
                    #[trigger] samples@[sample_index(canvas_extent(self).0, x, y)],
                    samples@[sample_index(canvas_extent(self).0, x, y) + 1],
                    samples@[sample_index(canvas_extent(self).0, x, y) + 2],
                ) == canvas_pixels(self)[(x, y)],
    {
        into_raw(self)
    }
}

/// The region codes of a sequence of classifications.
pub open spec fn codes_of(results: Seq<IntegrationResult>) -> Seq<int> {
    results.map_values(|r: IntegrationResult| r.converge_result as int)
}

/// The pixels of the picture of the lattice of half-width `dim` after the
/// points before column `col`, and the first `row` points of that column,
/// have been painted. `codes` holds the region code of every point, in the
/// order of the enumeration.
pub open spec fn painted(dim: int, codes: Seq<int>, col: int, row: int) -> Map<
    (int, int),
    (u8, u8, u8),
> {
    Map::new(
        |p: (int, int)| 0 <= p.0 < side(dim) && 0 <= p.1 < side(dim),
        |p: (int, int)|
            {
                let i = p.0 - dim;
                let j = dim - p.1;
                if in_lattice(dim, i, j) && (p.0 < col || (p.0 == col && j + dim < row)) {
                    color_table(codes[index_of(dim, i, j)])
                } else {
                    (0u8, 0u8, 0u8)
                }
            },
    )
}

/// The pixels of the finished picture of the lattice of half-width `dim`:
/// the pixel of every point has the colour of the point's region code, and
/// every other pixel is black.
pub open spec fn picture(dim: int, codes: Seq<int>) -> Map<(int, int), (u8, u8, u8)> {
    painted(dim, codes, 2 * dim, 0)
}

/// Draws the picture of a classified lattice of half-width `dim`.
/// `results` holds the classification of every point, in the order of the
/// enumeration; what it holds beyond those is not looked at.
pub fn render(results: &Vec<IntegrationResult>, dim: i32) -> (canvas: Canvas)
    requires
        0 <= dim,
        results@.len() >= lattice_len(dim as int),
        3 * (side(dim as int) * side(dim as int)) <= isize::MAX,
    ensures
        canvas_extent(canvas) == (side(dim as int) as nat, side(dim as int) as nat),
        canvas_pixels(canvas) == picture(dim as int, codes_of(results@)),
{
    let n: u32 = 2 * (dim as u32);
    let ghost codes = codes_of(results@);
    assert(n * n == 4 * dim * dim && n * n <= (n + 1) * (n + 1) && (dim == 0 ==> n * n == 0))
        by (nonlinear_arith)
        requires
            n == 2 * dim,
            0 <= dim,
    ;
    assert(n * n == lattice_len(dim as int));
    let mut canvas = new_canvas(n + 1, n + 1);
    assert(canvas_pixels(canvas) =~= painted(dim as int, codes, 0, 0));
    let mut index: usize = 0;
    let mut col: u32 = 0;
    while col < n
        invariant
            0 <= dim,
            n == 2 * dim,
            col <= n,
            n * n <= results@.len(),
            n * n <= isize::MAX,
            codes == codes_of(results@),
            index == col * n,
            canvas_extent(canvas) == ((n + 1) as nat, (n + 1) as nat),
            canvas_pixels(canvas) == painted(dim as int, codes, col as int, 0),
        decreases n - col,
    {
        let mut row: u32 = 0;
        while row < n
            invariant
                0 <= dim,
                n == 2 * dim,
                col < n,
                row <= n,
                n * n <= results@.len(),
                n * n <= isize::MAX,
                codes == codes_of(results@),
                index == col * n + row,
                canvas_extent(canvas) == ((n + 1) as nat, (n + 1) as nat),
                canvas_pixels(canvas) == painted(dim as int, codes, col as int, row as int),
            decreases n - row,
        {
            assert(col * n + row < n * n && col * n >= 0) by (nonlinear_arith)
                requires
                    0 <= col < n,
                    0 <= row < n,
            ;
            let color = color_of(results[index].converge_result);
            put_pixel(&mut canvas, col, n - row, color);
            proof {
                let i = col - dim;
                let j = row - dim;
                assert(index_of(dim as int, i, j) == col * n + row) by (nonlinear_arith)
                    requires
                        i == col - dim,
                        j == row - dim,
                        n == 2 * dim,
                ;
                assert(codes[index as int] == results@[index as int].converge_result as int);
                assert(canvas_pixels(canvas) =~= painted(
                    dim as int,
                    codes,
                    col as int,
                    row as int + 1,
                ));
            }
            index += 1;
            row += 1;
        }
        proof {
            assert(col * n + n == (col + 1) * n) by (nonlinear_arith);
            assert(painted(dim as int, codes, col as int, n as int) =~= painted(
                dim as int,
                codes,
                col as int + 1,
                0,
            ));
        }
        col += 1;
    }
    canvas
}

/// The picture shows every point of the lattice at its pixel, in the
/// colour of the region code that stands at the point's place in the
/// enumeration.
pub proof fn lemma_picture_shows_point(dim: int, codes: Seq<int>, i: int, j: int)
    requires
        in_lattice(dim, i, j),
    ensures
        picture(dim, codes).dom().contains(pixel_position(dim, i, j)),
        picture(dim, codes)[pixel_position(dim, i, j)] == color_table(codes[index_of(dim, i, j)]),
{
}

/// A pixel of the picture that shows no point of the lattice is black.
pub proof fn lemma_picture_black_elsewhere(dim: int, codes: Seq<int>, x: int, y: int)
    requires
        0 <= x < side(dim),
        0 <= y < side(dim),
        forall|i: int, j: int| in_lattice(dim, i, j) ==> #[trigger] pixel_position(dim, i, j) != (x, y),
    ensures
        picture(dim, codes)[(x, y)] == (0u8, 0u8, 0u8),
{
    if in_lattice(dim, x - dim, dim - y) {
        assert(pixel_position(dim, x - dim, dim - y) == (x, y));
    }
}

/// The picture is decided by the region code of each point alone: two
/// sequences of codes that agree at the place of every point give the same
/// picture, whatever else they hold.
pub proof fn lemma_picture_depends_on_codes(dim: int, a: Seq<int>, b: Seq<int>)
    requires
        forall|k: int| 0 <= k < lattice_len(dim) ==> a[k] == b[k],
    ensures
        picture(dim, a) == picture(dim, b),
{
    assert forall|p: (int, int)| #[trigger]
        picture(dim, a).dom().contains(p) implies picture(dim, a)[p] == picture(dim, b)[p] by {
        let i = p.0 - dim;
        let j = dim - p.1;
        if in_lattice(dim, i, j) {
            lemma_point_at_its_index(dim, i, j);
        }
    }
    assert(picture(dim, a) =~= picture(dim, b));
}

} // verus!
