//! The pixel grid: an `image` buffer of eight-bit RGB pixels, seen by the
//! verifier as a width, a height and a row-major sequence of pixels.

use image::ImageBuffer;
use image::Rgb;
use image::RgbImage;
use vstd::prelude::*;

verus! {

/// One pixel: red, green and blue, eight bits each.
#[derive(Clone, Copy, Debug, PartialEq, Eq, Structural)]
pub struct Rgb8 {
    pub r: u8,
    pub g: u8,
    pub b: u8,
}

/// A grid of pixels, `(0, 0)` at the top left, stored row by row.
///
/// The grid is an `image::ImageBuffer<Rgb<u8>, Vec<u8>>`. The verifier does not
/// look inside it: it knows a frame by `frame_dimensions` and `frame_pixels`.
#[verifier::external_body]
pub struct Frame {
    image: ImageBuffer<Rgb<u8>, Vec<u8>>,
}

/// Width and height of the grid, in pixels, as `ImageBuffer::dimensions` reports them.
pub uninterp spec fn frame_dimensions(frame: Frame) -> (u32, u32);

/// The pixels of the grid, row by row from the top, each row from the left:
/// the pixel at column `x` of row `y` stands at index `y * width + x`.
pub uninterp spec fn frame_pixels(frame: Frame) -> Seq<Rgb8>;

/// What the verifier knows of a frame.
pub struct FrameView {
    pub width: nat,
    pub height: nat,
    pub pixels: Seq<Rgb8>,
}

impl Rgb8 {
    /// The pixel with every channel zero.
    pub open spec fn black() -> Rgb8 {
        Rgb8 { r: 0, g: 0, b: 0 }
    }
}

impl FrameView {
    /// Where the pixel at column `x` of row `y` stands in `pixels`.
    pub open spec fn index(self, x: int, y: int) -> int {
        y * self.width + x
    }

    /// Column `x`, row `y` lies in the grid.
    pub open spec fn contains(self, x: int, y: int) -> bool {
        0 <= x < self.width && 0 <= y < self.height
    }

    /// The pixel at column `x` of row `y`.
    pub open spec fn pixel(self, x: int, y: int) -> Rgb8 {
        self.pixels[self.index(x, y)]
    }

    /// The grid holds one pixel for each of its places.
    pub open spec fn well_formed(self) -> bool {
        self.pixels.len() == self.width * self.height
    }
}

impl View for Frame {
    type V = FrameView;

    open spec fn view(&self) -> FrameView {
        FrameView {
            width: frame_dimensions(*self).0 as nat,
            height: frame_dimensions(*self).1 as nat,
            pixels: frame_pixels(*self),
        }
    }
}

/// Channel `c` of a pixel: red for 0, green for 1, blue for 2.
pub open spec fn channel(px: Rgb8, c: int) -> u8 {
    if c == 0 {
        px.r
    } else if c == 1 {
        px.g
    } else {
        px.b
    }
}

/// The bytes of a pixel sequence: red, green, blue of the first pixel, then of
/// the second, and so on.
pub open spec fn flatten(pixels: Seq<Rgb8>) -> Seq<u8> {
    Seq::new(3 * pixels.len(), |i: int| channel(pixels[i / 3], i % 3))
}

/// `image::RgbImage::new`: a grid of the given size with every channel of
/// every pixel zero. The call counts the bytes as 3 times `width` times
/// `height`, in that order, and panics when a product does not fit in `usize`,
/// which `requires` leaves out.
#[verifier::external_body]
fn blank(width: u32, height: u32) -> (frame: Frame)
    requires
        3 * width <= usize::MAX,
        3 * width * height <= usize::MAX,
    ensures
        frame_dimensions(frame) == (width, height),
        frame_pixels(frame) == Seq::new((width * height) as nat, |k: int| Rgb8::black()),
{
    Frame { image: RgbImage::new(width, height) }
}

/// `ImageBuffer::dimensions`: the width and the height that the grid was made with.
/// A grid holds exactly `width * height` pixels.
#[verifier::external_body]
fn dimensions(frame: &Frame) -> (size: (u32, u32))
    ensures
        size == frame_dimensions(*frame),
        frame_pixels(*frame).len() == size.0 * size.1,
{
    frame.image.dimensions()
}

/// `ImageBuffer::put_pixel`: the pixel at column `x` of row `y` becomes `px`;
/// the size and every other pixel stay. The call panics when `(x, y)` lies
/// outside the grid, which `requires` leaves out.
#[verifier::external_body]
fn put(frame: &mut Frame, x: u32, y: u32, px: Rgb8)
    requires
        x < frame_dimensions(*old(frame)).0,
        y < frame_dimensions(*old(frame)).1,
    ensures
        frame_dimensions(*final(frame)) == frame_dimensions(*old(frame)),
        frame_pixels(*old(frame)).len() == frame_dimensions(*old(frame)).0 * frame_dimensions(
            *old(frame),
        ).1,
        frame_pixels(*final(frame)) == frame_pixels(*old(frame)).update(
            y * frame_dimensions(*old(frame)).0 + x,
            px,
        ),
{
    frame.image.put_pixel(x, y, Rgb([px.r, px.g, px.b]))
}

/// `ImageBuffer::into_raw`: the bytes behind the grid. A grid made by
/// `RgbImage::new` holds three bytes for each pixel and nothing after them.
#[verifier::external_body]
fn raw(frame: Frame) -> (bytes: Vec<u8>)
    ensures
        bytes@ == flatten(frame_pixels(frame)),
{
    frame.image.into_raw()
}

impl Frame {
    /// A black grid of `width` by `height` pixels. The bytes of a row, three
    /// for each pixel, and those of the whole grid have to be countable in a
    /// `usize`.
    pub fn new(width: u32, height: u32) -> (frame: Frame)
        requires
            3 * width <= usize::MAX,
            3 * width * height <= usize::MAX,
        ensures
            frame@.width == width,
            frame@.height == height,
            frame@.well_formed(),
            forall|x: int, y: int| frame@.contains(x, y) ==> frame@.pixel(x, y) == Rgb8::black(),
    {
        let frame = blank(width, height);
        proof {
            assert forall|x: int, y: int| frame@.contains(x, y) implies frame@.pixel(x, y)
                == Rgb8::black() by {
                lemma_index_in_range(frame@, x, y);
            }
        }
        frame
    }

    /// Width and height of the grid, in pixels.
    pub fn dimensions(&self) -> (size: (u32, u32))
        ensures
            size.0 == self@.width,
            size.1 == self@.height,
            self@.well_formed(),
    {
        dimensions(self)
    }

    /// Sets the pixel at column `x` of row `y`.
    pub fn put_pixel(&mut self, x: u32, y: u32, px: Rgb8)
        requires
            old(self)@.contains(x as int, y as int),
        ensures
            final(self)@.width == old(self)@.width,
            final(self)@.height == old(self)@.height,
            final(self)@.well_formed(),
            final(self)@.pixels.len() == old(self)@.pixels.len(),
            final(self)@.pixels == old(self)@.pixels.update(old(self)@.index(x as int, y as int), px),
            final(self)@.pixel(x as int, y as int) == px,
            forall|u: int, v: int|
                old(self)@.contains(u, v) && (u != x || v != y) ==> final(self)@.pixel(u, v) == old(
                    self,
                )@.pixel(u, v),
    {
        proof {
            lemma_index_in_range(self@, x as int, y as int);
        }
        put(self, x, y, px);
        proof {
            assert forall|u: int, v: int| old(self)@.contains(u, v) && (u != x || v != y) implies self@.pixel(
                u,
                v,
            ) == old(self)@.pixel(u, v) by {
                lemma_index_in_range(old(self)@, u, v);
                lemma_index_distinct(old(self)@, u, v, x as int, y as int);
            }
        }
    }

    /// The bytes of the grid, three for each pixel, row by row.
    pub fn into_raw(self) -> (bytes: Vec<u8>)
        ensures
            bytes@ == flatten(self@.pixels),
    {
        raw(self)
    }
}

/// A place inside the grid has its index inside the pixel sequence.
pub proof fn lemma_index_in_range(grid: FrameView, x: int, y: int)
    requires
        grid.contains(x, y),
    ensures
        0 <= grid.index(x, y) < grid.width * grid.height,
{
    assert(0 <= y * grid.width + x < grid.width * grid.height) by (nonlinear_arith)
        requires
            0 <= x < grid.width,
            0 <= y < grid.height,
    ;
}

/// The bytes of the grid run row by row from the top left: channel `c` of the
/// pixel at column `x` of row `y` is byte `3 * (y * width + x) + c`.
pub proof fn lemma_byte_of_pixel(grid: FrameView, x: int, y: int, c: int)
    requires
        grid.well_formed(),
        grid.contains(x, y),
        0 <= c < 3,
    ensures
        0 <= 3 * grid.index(x, y) + c < flatten(grid.pixels).len(),
        flatten(grid.pixels)[3 * grid.index(x, y) + c] == channel(grid.pixel(x, y), c),
{
    lemma_index_in_range(grid, x, y);
    let k = grid.index(x, y);
    assert((3 * k + c) / 3 == k);
    assert((3 * k + c) % 3 == c);
}

/// Two different places of the grid have different indices.
pub proof fn lemma_index_distinct(grid: FrameView, x1: int, y1: int, x2: int, y2: int)
    requires
        grid.contains(x1, y1),
        grid.contains(x2, y2),
        x1 != x2 || y1 != y2,
    ensures
        grid.index(x1, y1) != grid.index(x2, y2),
{
    let w = grid.width as int;
    assert(y1 * w + x1 != y2 * w + x2) by (nonlinear_arith)
        requires
            0 <= x1 < w,
            0 <= x2 < w,
            x1 != x2 || y1 != y2,
    ;
}

} // verus!
