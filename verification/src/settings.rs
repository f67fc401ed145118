//! The settings of a render, and the loop that fills a frame pixel by pixel.

use crate::frame::Frame;
use crate::frame::FrameView;
use crate::frame::Rgb8;
use vstd::prelude::*;

verus! {

/// Height of the viewport, in world units: the rectangle in front of the
/// camera through which the rays are cast.
pub const VIEWPORT_HEIGHT: u32 = 2;

/// The size of the picture and the effort spent on each of its pixels.
#[derive(Clone, Copy, Debug)]
pub struct Settings {
    /// Width of the picture, in pixels.
    pub image_width: u32,
    /// Height of the picture, in pixels.
    pub image_height: u32,
    /// How many rays are averaged into one pixel.
    pub samples_per_pixel: u32,
    /// How many surfaces a light path may meet before it is given up.
    pub max_depth: u32,
}

impl Settings {
    /// Settings from their four inputs, as given.
    pub fn new(image_width: u32, image_height: u32, samples_per_pixel: u32, max_depth: u32) -> (settings:
        Settings)
        ensures
            settings.image_width == image_width,
            settings.image_height == image_height,
            settings.samples_per_pixel == samples_per_pixel,
            settings.max_depth == max_depth,
    {
        Settings { image_width, image_height, samples_per_pixel, max_depth }
    }

    /// Column `x`, row `y` is a pixel of the picture.
    pub open spec fn covers(&self, x: int, y: int) -> bool {
        0 <= x < self.image_width && 0 <= y < self.image_height
    }

    /// Width of the viewport, in world units, as a fraction: the viewport has
    /// the picture's aspect ratio, so its width is to `VIEWPORT_HEIGHT` as
    /// `image_width` is to `image_height`.
    pub fn viewport_width(&self) -> (ratio: (u64, u32))
        ensures
            ratio.0 == VIEWPORT_HEIGHT * self.image_width,
            ratio.1 == self.image_height,
    {
        let width: u64 = self.image_width as u64;
        (2 * width, self.image_height)
    }

    /// The bytes of a frame of the picture's size, three for each pixel, can
    /// be counted in a `usize`, those of one row and those of all rows.
    pub open spec fn buildable(&self) -> bool {
        3 * self.image_width <= usize::MAX && 3 * self.image_width * self.image_height
            <= usize::MAX
    }

    /// A black frame of the picture's size.
    pub fn build(&self) -> (frame: Frame)
        requires
            self.buildable(),
        ensures
            frame@.width == self.image_width,
            frame@.height == self.image_height,
            frame@.well_formed(),
            forall|x: int, y: int| self.covers(x, y) ==> frame@.pixel(x, y) == Rgb8::black(),
    {
        Frame::new(self.image_width, self.image_height)
    }

    /// A black frame of the picture's size, or `None` for a picture too large
    /// to have one.
    pub fn try_build(&self) -> (built: Option<Frame>)
        ensures
            built.is_some() == self.buildable(),
            built matches Some(frame) ==> (frame@.width == self.image_width && frame@.height
                == self.image_height && frame@.well_formed() && forall|x: int, y: int|
                self.covers(x, y) ==> frame@.pixel(x, y) == Rgb8::black()),
    {
        let width: u128 = self.image_width as u128;
        let height: u128 = self.image_height as u128;
        assert(3 * width * height <= 3 * 0xffff_ffff * 0xffff_ffff) by (nonlinear_arith)
            requires
                0 <= width <= 0xffff_ffff,
                0 <= height <= 0xffff_ffff,
        ;
        let row: u128 = 3 * width;
        let bytes: u128 = 3 * width * height;
        if row <= usize::MAX as u128 && bytes <= usize::MAX as u128 {
            Some(self.build())
        } else {
            None
        }
    }

    /// Every pixel of the picture lies in the grid. A picture without pixels
    /// fits in any grid.
    pub open spec fn fits_in(&self, grid: FrameView) -> bool {
        self.image_width == 0 || self.image_height == 0 || (self.image_width <= grid.width
            && self.image_height <= grid.height)
    }

    /// Whether every pixel of the picture lies in `frame`.
    pub fn fits(&self, frame: &Frame) -> (ok: bool)
        ensures
            ok == self.fits_in(frame@),
    {
        let (width, height) = frame.dimensions();
        self.image_width == 0 || self.image_height == 0 || (self.image_width <= width
            && self.image_height <= height)
    }

    /// Fills the picture: every pixel of the picture gets the colour that
    /// `shade` gives for its column and row, and nothing else in the frame
    /// changes. Each pixel is shaded on its own.
    pub fn render<F: Fn(u32, u32) -> Rgb8>(&self, shade: F, frame: &mut Frame)
        requires
            self.fits_in(old(frame)@),
            forall|x: u32, y: u32| self.covers(x as int, y as int) ==> call_requires(shade, (x, y)),
        ensures
            final(frame)@.width == old(frame)@.width,
            final(frame)@.height == old(frame)@.height,
            final(frame)@.pixels.len() == old(frame)@.pixels.len(),
            forall|x: u32, y: u32|
                self.covers(x as int, y as int) ==> call_ensures(
                    shade,
                    (x, y),
                    #[trigger] final(frame)@.pixel(x as int, y as int),
                ),
            forall|x: int, y: int|
                old(frame)@.contains(x, y) && !self.covers(x, y) ==> final(frame)@.pixel(x, y) == old(
                    frame,
                )@.pixel(x, y),
    {
        let width = self.image_width;
        let height = self.image_height;
        let mut i: u32 = 0;
        while i < width
            invariant
                i <= width,
                width == self.image_width,
                height == self.image_height,
                self.fits_in(frame@),
                frame@.width == old(frame)@.width,
                frame@.height == old(frame)@.height,
                frame@.pixels.len() == old(frame)@.pixels.len(),
                forall|x: u32, y: u32| self.covers(x as int, y as int) ==> call_requires(shade, (x, y)),
                forall|x: u32, y: u32|
                    x < i && y < height ==> call_ensures(
                        shade,
                        (x, y),
                        #[trigger] frame@.pixel(x as int, y as int),
                    ),
                forall|x: int, y: int|
                    old(frame)@.contains(x, y) && !(x < i && y < height) ==> frame@.pixel(x, y) == old(
                        frame,
                    )@.pixel(x, y),
            decreases width - i,
        {
            let mut j: u32 = 0;
            while j < height
                invariant
                    i < width,
                    j <= height,
                    width == self.image_width,
                    height == self.image_height,
                    self.fits_in(frame@),
                    frame@.width == old(frame)@.width,
                    frame@.height == old(frame)@.height,
                    frame@.pixels.len() == old(frame)@.pixels.len(),
                    forall|x: u32, y: u32|
                        self.covers(x as int, y as int) ==> call_requires(shade, (x, y)),
                    forall|x: u32, y: u32|
                        (x < i && y < height) || (x == i && y < j) ==> call_ensures(
                            shade,
                            (x, y),
                            #[trigger] frame@.pixel(x as int, y as int),
                        ),
                    forall|x: int, y: int|
                        old(frame)@.contains(x, y) && !((x < i && y < height) || (x == i && y < j))
                            ==> frame@.pixel(x, y) == old(frame)@.pixel(x, y),
                decreases height - j,
            {
                assert(self.covers(i as int, j as int));
                let px = shade(i, j);
                frame.put_pixel(i, j, px);
                j += 1;
            }
            i += 1;
        }
    }
}

} // verus!
