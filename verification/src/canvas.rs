//! The pixel canvas that a rendered frame is written to.

use crate::color::Color;
use crate::raster::{pixel_rows, put_rgb};
use vstd::prelude::*;

verus! {

/// Why a canvas operation was refused.
#[derive(Debug, Clone, Copy, PartialEq, Eq, Structural)]
pub enum CanvasError {
    /// A canvas needs at least one pixel in each direction, and its pixels
    /// must fit in memory.
    Dimensions,
    /// A frame must bring exactly one sample for every pixel of the canvas.
    SampleCount,
}

/// Whether `rows` is a grid of `height` rows of `width` colours each.
pub open spec fn is_grid(rows: Seq<Seq<Color>>, width: int, height: int) -> bool {
    &&& rows.len() == height
    &&& forall|y: int| 0 <= y < height ==> (#[trigger] rows[y]).len() == width
}

/// The red, green and blue channels of every colour of a grid.
pub open spec fn channel_rows(rows: Seq<Seq<Color>>) -> Seq<Seq<(u8, u8, u8)>> {
    Seq::new(
        rows.len(),
        |y: int| Seq::new(rows[y].len(), |x: int| (rows[y][x].0, rows[y][x].1, rows[y][x].2)),
    )
}

/// A grid of `height` rows of `width` pixels, all of one colour.
pub open spec fn filled(width: int, height: int, color: Color) -> Seq<Seq<Color>> {
    Seq::new(height as nat, |y: int| Seq::new(width as nat, |x: int| color))
}

/// The colour that one sample paints: its own where the ray met a sphere, the
/// background where it met none.
pub open spec fn sample_color(sample: Option<Color>, background: Color) -> Color {
    match sample {
        Some(color) => color,
        None => background,
    }
}

/// Where the sample for the pixel in column `x` of row `y` stands in a frame.
/// A frame runs column by column, and inside a column from row `0` up.
pub open spec fn sample_index(x: int, y: int, height: int) -> int {
    x * height + y
}

/// The grid that a frame of samples paints on a canvas of the given size.
pub open spec fn painted(
    samples: Seq<Option<Color>>,
    background: Color,
    width: int,
    height: int,
) -> Seq<Seq<Color>> {
    Seq::new(
        height as nat,
        |y: int|
            Seq::new(
                width as nat,
                |x: int| sample_color(samples[sample_index(x, y, height)], background),
            ),
    )
}

/// What a pixel shows once its ray has been followed: the traced sample, or
/// the sentinel colour where the ray could not be traced at all.
pub open spec fn settled(traced: Result<Option<Color>, ()>, sentinel: Color) -> Option<Color> {
    match traced {
        Ok(sample) => sample,
        Err(_) => Some(sentinel),
    }
}

/// Settles what one pixel of a frame shows. A ray that was traced keeps its
/// sample, hit or miss. A ray that could not be traced, for want of a
/// direction, shows the sentinel colour, so that one bad pixel never stops
/// the frame.
pub fn settle_sample(traced: Result<Option<Color>, ()>, sentinel: Color) -> (s: Option<Color>)
    ensures
        s == settled(traced, sentinel),
{
    match traced {
        Ok(sample) => sample,
        Err(_) => Some(sentinel),
    }
}

/// Every pixel has a sample of its own: the index of a pixel's sample lies
/// inside a frame of `width * height` samples, and two different pixels never
/// share an index.
pub proof fn lemma_one_sample_per_pixel(width: int, height: int, x: int, y: int, u: int, v: int)
    requires
        0 <= x < width,
        0 <= y < height,
        0 <= u < width,
        0 <= v < height,
    ensures
        0 <= sample_index(x, y, height) < width * height,
        sample_index(x, y, height) == sample_index(u, v, height) ==> x == u && y == v,
{
    assert(0 <= x * height && x * height + height <= width * height) by (nonlinear_arith)
        requires
            0 <= x < width,
            0 < height,
    ;
    if x < u {
        assert(x * height + height <= u * height) by (nonlinear_arith)
            requires
                x < u,
                0 < height,
        ;
    } else if u < x {
        assert(u * height + height <= x * height) by (nonlinear_arith)
            requires
                u < x,
                0 < height,
        ;
    }
}

/// A frame in which no ray met a sphere paints the background on every pixel.
pub proof fn lemma_no_hit_paints_background(
    samples: Seq<Option<Color>>,
    background: Color,
    width: int,
    height: int,
)
    requires
        0 <= width,
        0 <= height,
        samples.len() == width * height,
        forall|k: int| 0 <= k < samples.len() ==> #[trigger] samples[k] is None,
    ensures
        painted(samples, background, width, height) == filled(width, height, background),
{
    assert forall|y: int, x: int| 0 <= y < height && 0 <= x < width implies #[trigger] painted(
        samples,
        background,
        width,
        height,
    )[y][x] == background by {
        lemma_one_sample_per_pixel(width, height, x, y, x, y);
    }
    assert(painted(samples, background, width, height) =~~= filled(width, height, background));
}

/// Whether `3 * width * height` bytes of pixel data can be addressed.
pub open spec fn fits_in_memory(width: int, height: int) -> bool {
    3 * width * height <= usize::MAX
}

/// A canvas of `width` by `height` pixels. Row `0` is the bottom row of the
/// picture: the vertical axis points up, as it does in the scene.
///
/// The canvas keeps its pixels twice: as rows of colours, which is what its
/// view shows, and in an image of the `image` crate, which is what gets
/// stored. A well-formed canvas has the two agree.
#[derive(Debug)]
pub struct Canvas {
    buffer: Vec<Vec<Color>>,
    image: image::DynamicImage,
    height: i32,
    width: i32,
}

impl View for Canvas {
    type V = Seq<Seq<Color>>;

    /// The rows of the canvas from `y = 0` on, each row from `x = 0` on.
    closed spec fn view(&self) -> Seq<Seq<Color>> {
        Seq::new(self.buffer@.len(), |y: int| self.buffer@[y]@)
    }
}

impl Canvas {
    /// The number of pixels in a row.
    pub closed spec fn spec_width(&self) -> int {
        self.width as int
    }

    /// The number of rows.
    pub closed spec fn spec_height(&self) -> int {
        self.height as int
    }

    /// The pixels that the image behind the canvas holds.
    pub closed spec fn stored(&self) -> Seq<Seq<(u8, u8, u8)>> {
        pixel_rows(self.image)
    }

    /// The invariant of a canvas: it has at least one pixel, its view is a
    /// grid of its width and height, and the image behind it holds the same
    /// pixels.
    pub open spec fn wf(&self) -> bool {
        &&& 0 < self.spec_width() <= i32::MAX
        &&& 0 < self.spec_height() <= i32::MAX
        &&& is_grid(self@, self.spec_width(), self.spec_height())
        &&& self.stored() == channel_rows(self@)
    }

    /// Creates a canvas of `x` by `y` black pixels.
    ///
    /// A width or height that is not positive is refused, and so is a canvas
    /// whose pixel data could not be addressed.
    pub fn new(x: i32, y: i32) -> (made: Result<Canvas, CanvasError>)
        ensures
            match made {
                Ok(canvas) => {
                    &&& 0 < x && 0 < y && fits_in_memory(x as int, y as int)
                    &&& canvas.wf()
                    &&& canvas.spec_width() == x
                    &&& canvas.spec_height() == y
                    &&& canvas@ == filled(x as int, y as int, Color(0, 0, 0))
                },
                Err(e) => {
                    &&& e == CanvasError::Dimensions
                    &&& x <= 0 || y <= 0 || !fits_in_memory(x as int, y as int)
                },
            },
    {
        if x <= 0 || y <= 0 {
            return Err(CanvasError::Dimensions);
        }
        assert(3 * (x as u64) * (y as u64) <= 3 * 0x8000_0000 * 0x8000_0000) by (nonlinear_arith)
            requires
                0 < x <= 0x7fff_ffff,
                0 < y <= 0x7fff_ffff,
        ;
        let bytes: u64 = 3 * (x as u64) * (y as u64);
        if bytes > usize::MAX as u64 {
            return Err(CanvasError::Dimensions);
        }
        let mut v: Vec<Vec<Color>> = Vec::with_capacity(y as usize);
        let mut j: i32 = 0;
        while j < y
            invariant
                0 < x,
                0 <= j <= y,
                v@.len() == j,
                forall|r: int| 0 <= r < j ==> (#[trigger] v@[r])@ == Seq::new(
                    x as nat,
                    |c: int| Color(0, 0, 0),
                ),
            decreases y - j,
        {
            let mut row: Vec<Color> = Vec::with_capacity(x as usize);
            let mut i: i32 = 0;
            while i < x
                invariant
                    0 <= i <= x,
                    row@.len() == i,
                    forall|c: int| 0 <= c < i ==> #[trigger] row@[c] == Color(0, 0, 0),
                decreases x - i,
            {
                row.push(Color::default());
                i += 1;
            }
            assert(row@ =~= Seq::new(x as nat, |c: int| Color(0, 0, 0)));
            v.push(row);
            j += 1;
        }
        assert(3 * (x as int) <= 3 * (x as int) * (y as int)) by (nonlinear_arith)
            requires
                0 < x,
                0 < y,
        ;
        let im = image::DynamicImage::new_rgb8(x as u32, y as u32);
        let canvas = Canvas { buffer: v, image: im, height: y, width: x };
        assert(canvas@ =~~= filled(x as int, y as int, Color(0, 0, 0)));
        assert(canvas.stored() =~~= channel_rows(canvas@));
        Ok(canvas)
    }

    /// The number of pixels in a row.
    pub fn width(&self) -> (w: i32)
        ensures
            w == self.spec_width(),
    {
        self.width
    }

    /// The number of rows.
    pub fn height(&self) -> (h: i32)
        ensures
            h == self.spec_height(),
    {
        self.height
    }

    /// Sets the pixel in column `x` of row `y` to `color` and leaves every
    /// other pixel as it was.
    pub fn put_pixel(&mut self, x: isize, y: isize, color: Color)
        requires
            old(self).wf(),
            0 <= x < old(self).spec_width(),
            0 <= y < old(self).spec_height(),
        ensures
            final(self).wf(),
            final(self).spec_width() == old(self).spec_width(),
            final(self).spec_height() == old(self).spec_height(),
            final(self)@ == old(self)@.update(y as int, old(self)@[y as int].update(x as int, color)),
    {
        assert(self@[y as int] == self.buffer@[y as int]@);
        self.buffer[y as usize].set(x as usize, color);
        put_rgb(&mut self.image, x as u32, y as u32, color.0, color.1, color.2);
        assert(self@ =~~= old(self)@.update(
            y as int,
            old(self)@[y as int].update(x as int, color),
        ));
        assert(self.stored() =~~= channel_rows(self@));
    }

    /// The colour of the pixel in column `x` of row `y`, or `None` where the
    /// canvas has no such pixel.
    pub fn get_pixel(&self, x: isize, y: isize) -> (found: Option<Color>)
        ensures
            match found {
                Some(color) => {
                    &&& 0 <= y < self@.len()
                    &&& 0 <= x < self@[y as int].len()
                    &&& color == self@[y as int][x as int]
                },
                None => !(0 <= y < self@.len() && 0 <= x < self@[y as int].len()),
            },
    {
        if y < 0 || x < 0 {
            return None;
        }
        if y as usize >= self.buffer.len() {
            return None;
        }
        let row: &Vec<Color> = &self.buffer[y as usize];
        if x as usize >= row.len() {
            return None;
        }
        Some(row[x as usize])
    }

    /// The offset of a pixel from the centre of the canvas, which is where the
    /// ray through that pixel leaves the viewport: column `x` lies
    /// `x - width / 2` to the right of the centre and row `y` lies
    /// `y - height / 2` above it. `None` where the canvas has no such pixel.
    pub fn centered(&self, x: i32, y: i32) -> (offset: Option<(i32, i32)>)
        ensures
            match offset {
                Some((cx, cy)) => {
                    &&& 0 <= x < self.spec_width()
                    &&& 0 <= y < self.spec_height()
                    &&& cx == x - self.spec_width() / 2
                    &&& cy == y - self.spec_height() / 2
                },
                None => !(0 <= x < self.spec_width() && 0 <= y < self.spec_height()),
            },
    {
        if x < 0 || x >= self.width || y < 0 || y >= self.height {
            return None;
        }
        Some((x - self.width / 2, y - self.height / 2))
    }

    /// Paints a whole frame: pixel `(x, y)` takes the colour of sample
    /// `x * height + y`, and the background colour where that sample is
    /// `None`, which stands for a ray that met no sphere.
    ///
    /// A frame that does not bring exactly `width * height` samples is
    /// refused and the canvas stays as it was.
    pub fn draw(&mut self, samples: &Vec<Option<Color>>, background: Color) -> (done: Result<
        (),
        CanvasError,
    >)
        requires
            old(self).wf(),
        ensures
            final(self).wf(),
            final(self).spec_width() == old(self).spec_width(),
            final(self).spec_height() == old(self).spec_height(),
            match done {
                Ok(_) => {
                    &&& samples@.len() == old(self).spec_width() * old(self).spec_height()
                    &&& final(self)@ == painted(
                        samples@,
                        background,
                        old(self).spec_width(),
                        old(self).spec_height(),
                    )
                },
                Err(e) => {
                    &&& e == CanvasError::SampleCount
                    &&& samples@.len() != old(self).spec_width() * old(self).spec_height()
                    &&& final(self)@ == old(self)@
                },
            },
    {
        let w: i32 = self.width;
        let h: i32 = self.height;
        assert((w as u64) * (h as u64) <= 0x8000_0000 * 0x8000_0000) by (nonlinear_arith)
            requires
                0 < w <= 0x7fff_ffff,
                0 < h <= 0x7fff_ffff,
        ;
        let count: u64 = (w as u64) * (h as u64);
        if samples.len() as u64 != count {
            return Err(CanvasError::SampleCount);
        }
        let ghost before = self@;
        let mut px: i32 = 0;
        while px < w
            invariant
                self.wf(),
                self.spec_width() == w,
                self.spec_height() == h,
                0 <= px <= w,
                samples@.len() == w * h,
                forall|y: int, x: int|
                    0 <= y < h && 0 <= x < w ==> #[trigger] self@[y][x] == if x < px {
                        sample_color(samples@[sample_index(x, y, h as int)], background)
                    } else {
                        before[y][x]
                    },
            decreases w - px,
        {
            let mut py: i32 = 0;
            while py < h
                invariant
                    self.wf(),
                    self.spec_width() == w,
                    self.spec_height() == h,
                    0 <= px < w,
                    0 <= py <= h,
                    samples@.len() == w * h,
                    forall|y: int, x: int|
                        0 <= y < h && 0 <= x < w ==> #[trigger] self@[y][x] == if x < px || (x
                            == px && y < py) {
                            sample_color(samples@[sample_index(x, y, h as int)], background)
                        } else {
                            before[y][x]
                        },
                decreases h - py,
            {
                assert(px * h + py < w * h) by (nonlinear_arith)
                    requires
                        0 <= px < w,
                        0 <= py < h,
                ;
                assert(0 <= px * h) by (nonlinear_arith)
                    requires
                        0 <= px,
                        0 < h,
                ;
                assert(w * h == samples.len() <= usize::MAX);
                let k: usize = (px as usize) * (h as usize) + (py as usize);
                let color: Color = match samples[k] {
                    Some(c) => c,
                    None => background,
                };
                self.put_pixel(px as isize, py as isize, color);
                py += 1;
            }
            px += 1;
        }
        assert(self@ =~~= painted(samples@, background, w as int, h as int));
        Ok(())
    }

    /// The picture as it is to be stored: an image whose rows run from the
    /// top of the picture down, which is the canvas turned upside down.
    pub fn flush(&self) -> (out: image::DynamicImage)
        ensures
            pixel_rows(out) == self.stored().reverse(),
            self.wf() ==> pixel_rows(out) == channel_rows(self@).reverse(),
    {
        self.image.flipv()
    }
}

} // verus!
