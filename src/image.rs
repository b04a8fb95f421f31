//! The rendered image: pixels in raster order and their plain-text encoding.
//!
//! An image is filled one pixel at a time, row by row from the top and left
//! to right in each row, and is written out as a plain PPM ("P3") text: a
//! header with the dimensions and the largest channel value, then one line
//! `r g b` per pixel in the same order.
use vstd::prelude::*;

verus! {

/// One output pixel: three channels in `0..=255`.
#[derive(Clone, Copy, Debug, PartialEq, Eq, Structural)]
pub struct Rgb8 {
    pub r: u8,
    pub g: u8,
    pub b: u8,
}

/// The channel value for an intensity already scaled to `0..256` and
/// truncated: values below zero give 0 and values above 255 give 255.
pub open spec fn clamp_channel(v: int) -> u8 {
    if v < 0 {
        0
    } else if v > 255 {
        255
    } else {
        v as u8
    }
}

impl Rgb8 {
    /// The pixel whose channels are the scaled intensities `r`, `g`, `b`,
    /// each clamped into `0..=255`.
    pub fn from_scaled(r: i64, g: i64, b: i64) -> (p: Rgb8)
        ensures
            p.r == clamp_channel(r as int),
            p.g == clamp_channel(g as int),
            p.b == clamp_channel(b as int),
    {
        Rgb8 { r: channel(r), g: channel(g), b: channel(b) }
    }
}

/// Clamps one scaled intensity into `0..=255`.
pub fn channel(v: i64) -> (c: u8)
    ensures
        c == clamp_channel(v as int),
{
    if v < 0 {
        0
    } else if v > 255 {
        255
    } else {
        v as u8
    }
}

pub const ZERO_DIGIT: u8 = 48;

pub const SPACE: u8 = 32;

pub const NEWLINE: u8 = 10;

/// The decimal digits of `n`, most significant first, as ASCII bytes.
pub open spec fn decimal(n: nat) -> Seq<u8>
    decreases n,
{
    if n < 10 {
        seq![(ZERO_DIGIT + n) as u8]
    } else {
        decimal(n / 10).push((ZERO_DIGIT + n % 10) as u8)
    }
}

/// Appends the decimal digits of `n` to `out`.
pub fn push_decimal(out: &mut Vec<u8>, n: usize)
    ensures
        final(out)@ == old(out)@ + decimal(n as nat),
    decreases n,
{
    if n >= 10 {
        push_decimal(out, n / 10);
    }
    let digit: u8 = (n % 10) as u8;
    out.push(ZERO_DIGIT + digit);
    proof {
        assert(old(out)@ + decimal(n as nat) =~= out@);
    }
}

/// The text line of one pixel: its three channels in decimal, separated by
/// spaces, and a newline.
pub open spec fn pixel_line(p: Rgb8) -> Seq<u8> {
    decimal(p.r as nat) + seq![SPACE] + decimal(p.g as nat) + seq![SPACE] + decimal(p.b as nat)
        + seq![NEWLINE]
}

/// The lines of a sequence of pixels, in order.
pub open spec fn pixel_lines(ps: Seq<Rgb8>) -> Seq<u8>
    decreases ps.len(),
{
    if ps.len() == 0 {
        Seq::empty()
    } else {
        pixel_lines(ps.drop_last()) + pixel_line(ps.last())
    }
}

pub const LETTER_P: u8 = 80;

pub const DIGIT_THREE: u8 = 51;

pub const MAX_CHANNEL: usize = 255;

/// The header of a plain PPM text: `P3`, the width and height, and the
/// largest channel value, each on its own line.
pub open spec fn ppm_header(width: nat, height: nat) -> Seq<u8> {
    seq![LETTER_P, DIGIT_THREE, NEWLINE] + decimal(width) + seq![SPACE] + decimal(height) + seq![
        NEWLINE,
    ] + decimal(MAX_CHANNEL as nat) + seq![NEWLINE]
}

/// The whole plain PPM text of an image.
pub open spec fn ppm(width: nat, height: nat, ps: Seq<Rgb8>) -> Seq<u8> {
    ppm_header(width, height) + pixel_lines(ps)
}

/// Appends the text line of one pixel to `out`.
pub fn write_colour(out: &mut Vec<u8>, pixel: Rgb8)
    ensures
        final(out)@ == old(out)@ + pixel_line(pixel),
{
    push_decimal(out, pixel.r as usize);
    out.push(SPACE);
    push_decimal(out, pixel.g as usize);
    out.push(SPACE);
    push_decimal(out, pixel.b as usize);
    out.push(NEWLINE);
    proof {
        assert(out@ =~= old(out)@ + pixel_line(pixel));
    }
}

/// Appends the header of a plain PPM text to `out`.
pub fn write_header(out: &mut Vec<u8>, width: usize, height: usize)
    ensures
        final(out)@ == old(out)@ + ppm_header(width as nat, height as nat),
{
    out.push(LETTER_P);
    out.push(DIGIT_THREE);
    out.push(NEWLINE);
    push_decimal(out, width);
    out.push(SPACE);
    push_decimal(out, height);
    out.push(NEWLINE);
    push_decimal(out, MAX_CHANNEL);
    out.push(NEWLINE);
    proof {
        assert(out@ =~= old(out)@ + ppm_header(width as nat, height as nat));
    }
}

/// The column and row of the `n`-th pixel of an image `width` pixels wide,
/// in raster order: rows from the top, each row from the left.
pub open spec fn raster_position(n: nat, width: nat) -> (nat, nat)
    recommends
        width > 0,
{
    (n % width, n / width)
}

/// The position reported for the `n`-th pixel of a `width` by `height`
/// image lies inside the image, and the index that [`Image::get`] reads at
/// that position is `n` again: pixels written in raster order are found where
/// they were placed.
pub proof fn lemma_raster_position(n: nat, width: nat, height: nat)
    requires
        width > 0,
        n < width * height,
    ensures
        ({
            let (i, j) = raster_position(n, width);
            &&& i < width
            &&& j < height
            &&& j * width + i == n
        }),
{
    let (i, j) = raster_position(n, width);
    vstd::arithmetic::div_mod::lemma_fundamental_div_mod(n as int, width as int);
    vstd::arithmetic::div_mod::lemma_mod_bound(n as int, width as int);
    assert(j * width + i == n && j < height) by (nonlinear_arith)
        requires
            n == width * j + i,
            0 <= i < width,
            n < width * height,
    ;
}

/// An image being filled in raster order.
pub struct Image {
    width: usize,
    height: usize,
    pixels: Vec<Rgb8>,
}

impl Image {
    pub closed spec fn width_spec(&self) -> nat {
        self.width as nat
    }

    pub closed spec fn height_spec(&self) -> nat {
        self.height as nat
    }

    /// The pixels written so far, in raster order.
    pub closed spec fn pixels_spec(&self) -> Seq<Rgb8> {
        self.pixels@
    }

    /// The pixel count fits in a machine word, and no more pixels have been
    /// written than the image holds.
    pub open spec fn wf(&self) -> bool {
        &&& self.width_spec() * self.height_spec() <= usize::MAX
        &&& self.pixels_spec().len() <= self.width_spec() * self.height_spec()
    }

    /// Every pixel has been written.
    pub open spec fn complete(&self) -> bool {
        self.pixels_spec().len() == self.width_spec() * self.height_spec()
    }

    /// An empty image of the given size. An image with no rows or no
    /// columns is complete from the start.
    pub fn new(width: usize, height: usize) -> (r: Image)
        requires
            width * height <= usize::MAX,
        ensures
            r.wf(),
            r.width_spec() == width,
            r.height_spec() == height,
            r.pixels_spec() == Seq::<Rgb8>::empty(),
    {
        Image { width, height, pixels: Vec::new() }
    }

    pub fn width(&self) -> (r: usize)
        ensures
            r == self.width_spec(),
    {
        self.width
    }

    pub fn height(&self) -> (r: usize)
        ensures
            r == self.height_spec(),
    {
        self.height
    }

    /// The pixels written so far, in raster order.
    pub fn pixels(&self) -> (r: &Vec<Rgb8>)
        ensures
            r@ == self.pixels_spec(),
    {
        &self.pixels
    }

    pub fn is_complete(&self) -> (r: bool)
        requires
            self.wf(),
        ensures
            r == self.complete(),
    {
        self.pixels.len() == self.width * self.height
    }

    /// The column and row of the pixel to be written next, or `None` when
    /// the image is complete.
    pub fn next_position(&self) -> (r: Option<(usize, usize)>)
        requires
            self.wf(),
        ensures
            self.complete() ==> r is None,
            !self.complete() ==> r == Some(
                (
                    raster_position(self.pixels_spec().len(), self.width_spec()).0 as usize,
                    raster_position(self.pixels_spec().len(), self.width_spec()).1 as usize,
                ),
            ),
    {
        let n = self.pixels.len();
        if n == self.width * self.height {
            None
        } else {
            proof {
                assert(self.width > 0) by (nonlinear_arith)
                    requires
                        n < self.width * self.height,
                ;
            }
            Some((n % self.width, n / self.width))
        }
    }

    /// Writes the next pixel in raster order.
    pub fn push(&mut self, pixel: Rgb8)
        requires
            old(self).wf(),
            !old(self).complete(),
        ensures
            final(self).wf(),
            final(self).width_spec() == old(self).width_spec(),
            final(self).height_spec() == old(self).height_spec(),
            final(self).pixels_spec() == old(self).pixels_spec().push(pixel),
    {
        self.pixels.push(pixel);
    }

    /// The pixel at column `i` and row `j`, if it has been written.
    pub fn get(&self, i: usize, j: usize) -> (r: Option<Rgb8>)
        requires
            self.wf(),
        ensures
            r == (if i < self.width_spec() && j < self.height_spec() && j * self.width_spec() + i
                < self.pixels_spec().len() {
                Some(self.pixels_spec()[j * self.width_spec() + i])
            } else {
                None
            }),
    {
        if i >= self.width || j >= self.height {
            return None;
        }
        proof {
            assert(j * self.width + i < self.width * self.height) by (nonlinear_arith)
                requires
                    i < self.width,
                    j < self.height,
            ;
        }
        let index = j * self.width + i;
        if index < self.pixels.len() {
            Some(self.pixels[index])
        } else {
            None
        }
    }

    /// The plain PPM text of the complete image.
    pub fn to_ppm(&self) -> (r: Vec<u8>)
        requires
            self.wf(),
            self.complete(),
        ensures
            r@ == ppm(self.width_spec(), self.height_spec(), self.pixels_spec()),
    {
        let mut out: Vec<u8> = Vec::new();
        write_header(&mut out, self.width, self.height);
        let mut k: usize = 0;
        while k < self.pixels.len()
            invariant
                k <= self.pixels@.len(),
                out@ == ppm_header(self.width as nat, self.height as nat) + pixel_lines(
                    self.pixels@.take(k as int),
                ),
            decreases self.pixels@.len() - k,
        {
            write_colour(&mut out, self.pixels[k]);
            proof {
                let before = self.pixels@.take(k as int);
                let after = self.pixels@.take(k + 1);
                assert(after.drop_last() =~= before);
                assert(after.last() == self.pixels@[k as int]);
            }
            k = k + 1;
        }
        proof {
            assert(self.pixels@.take(k as int) =~= self.pixels@);
        }
        out
    }
}

} // verus!
