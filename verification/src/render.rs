//! The image: its settings, the order in which its pixels are written, and
//! its text in the plain PPM format.

use crate::color::{channel, channel_value};
use crate::config::ConfigError;
use crate::decimal::{digits, lemma_digits_shape, push_decimal};
use crate::vec3::Vec3;
use vstd::prelude::*;

verus! {

/// The settings of one render.
#[derive(Clone, Copy, Debug, PartialEq, Eq, Structural)]
pub struct RenderConfig {
    pub image_width: u32,
    pub image_height: u32,
    pub samples_per_pixel: u32,
    pub max_depth: u32,
}

impl RenderConfig {
    /// At least one sample is taken per pixel.
    pub open spec fn valid(self) -> bool {
        self.samples_per_pixel >= 1
    }

    /// The number of pixels of the image.
    pub open spec fn pixels(self) -> nat {
        (self.image_width * self.image_height) as nat
    }

    /// The column of the pixel that is written at place `k`, counted from
    /// the left.
    pub open spec fn column(self, k: nat) -> nat {
        k % (self.image_width as nat)
    }

    /// The scanline of the pixel that is written at place `k`, counted from
    /// the bottom: the top scanline is written first.
    pub open spec fn scanline(self, k: nat) -> int {
        self.image_height - 1 - k / (self.image_width as nat)
    }

    /// The place in the output of the pixel in column `i` of scanline `j`.
    pub open spec fn place(self, i: nat, j: nat) -> int {
        (self.image_height - 1 - j) * self.image_width + i
    }

    /// Settings, refused unless `samples_per_pixel >= 1`.
    pub fn new(image_width: u32, image_height: u32, samples_per_pixel: u32, max_depth: u32) -> (r:
        Result<RenderConfig, ConfigError>)
        ensures
            samples_per_pixel >= 1 ==> r == Ok::<RenderConfig, ConfigError>(
                RenderConfig { image_width, image_height, samples_per_pixel, max_depth },
            ),
            samples_per_pixel == 0 ==> r == Err::<RenderConfig, ConfigError>(
                ConfigError::SamplesPerPixel,
            ),
    {
        if samples_per_pixel == 0 {
            Err(ConfigError::SamplesPerPixel)
        } else {
            Ok(RenderConfig { image_width, image_height, samples_per_pixel, max_depth })
        }
    }

    /// Counts the pixels.
    pub fn pixel_count(&self) -> (n: u64)
        ensures
            n == self.pixels(),
    {
        assert(self.image_width * self.image_height <= 0xffff_ffff * 0xffff_ffff)
            by (nonlinear_arith)
            requires
                0 <= self.image_width <= 0xffff_ffff,
                0 <= self.image_height <= 0xffff_ffff,
        ;
        (self.image_width as u64) * (self.image_height as u64)
    }

    /// The column and the scanline of the pixel that is written at place
    /// `k`: rows from the top scanline down, each from left to right.
    pub fn pixel_at(&self, k: u64) -> (ij: (u32, u32))
        requires
            k < self.pixels(),
        ensures
            ij.0 == self.column(k as nat),
            ij.1 == self.scanline(k as nat),
            ij.0 < self.image_width,
            ij.1 < self.image_height,
    {
        let w: u64 = self.image_width as u64;
        let h: u64 = self.image_height as u64;
        assert(w > 0) by (nonlinear_arith)
            requires
                k < w * h,
                0 <= k,
        ;
        let row: u64 = k / w;
        assert(row < h) by (nonlinear_arith)
            requires
                k < w * h,
                row == k / w,
                w > 0,
        ;
        ((k % w) as u32, (h - 1 - row) as u32)
    }

    /// The place in the output of the pixel in column `i` of scanline `j`.
    pub fn index_of(&self, i: u32, j: u32) -> (k: u64)
        requires
            i < self.image_width,
            j < self.image_height,
        ensures
            k == self.place(i as nat, j as nat),
            k < self.pixels(),
    {
        let w: u64 = self.image_width as u64;
        let h: u64 = self.image_height as u64;
        let rows_above: u64 = h - 1 - (j as u64);
        assert(0 <= rows_above * w && rows_above * w + i < w * h && w * h <= 0xffff_ffff
            * 0xffff_ffff) by (nonlinear_arith)
            requires
                0 <= rows_above,
                rows_above + 1 <= h,
                0 <= i < w,
                w <= 0xffff_ffff,
                h <= 0xffff_ffff,
        ;
        rows_above * w + (i as u64)
    }
}

/// The seed of the random stream of the pixel at place `k`, derived from the
/// seed of the render: their sum, wrapped to 64 bits.
pub open spec fn seed_at(seed: u64, k: u64) -> u64 {
    ((seed + k) % 0x1_0000_0000_0000_0000) as u64
}

/// Derives the seed of one pixel's random stream from the seed of the
/// render, so that a render can be repeated pixel for pixel.
pub fn pixel_seed(seed: u64, k: u64) -> (s: u64)
    ensures
        s == seed_at(seed, k),
{
    let room: u64 = u64::MAX - seed;
    if k <= room {
        seed + k
    } else {
        k - room - 1
    }
}

/// Under one render seed no two pixels share a stream.
pub proof fn lemma_seeds_differ(seed: u64, k1: u64, k2: u64)
    requires
        k1 != k2,
    ensures
        seed_at(seed, k1) != seed_at(seed, k2),
{
}

/// Every pixel of the image is written once: a place in the output and a
/// pixel's column and scanline determine each other.
pub proof fn lemma_places_and_pixels(config: RenderConfig, k: nat, i: nat, j: nat)
    requires
        i < config.image_width,
        j < config.image_height,
        k < config.pixels(),
    ensures
        config.column(k) < config.image_width,
        0 <= config.scanline(k) < config.image_height,
        config.place(config.column(k), config.scanline(k) as nat) == k,
        0 <= config.place(i, j) < config.pixels(),
        config.column(config.place(i, j) as nat) == i,
        config.scanline(config.place(i, j) as nat) == j,
{
    let w = config.image_width as int;
    let h = config.image_height as int;
    let kk = k as int;
    assert(kk / w < h && kk == w * (kk / w) + kk % w && 0 <= kk % w < w && 0 <= kk / w)
        by (nonlinear_arith)
        requires
            0 <= kk < w * h,
            w > 0,
    ;
    assert((kk / w) * w + kk % w == kk) by (nonlinear_arith)
        requires
            kk == w * (kk / w) + kk % w,
    ;
    let r = h - 1 - j;
    let p = r * w + i;
    assert(0 <= p < w * h && p / w == r && p % w == i) by (nonlinear_arith)
        requires
            p == r * w + i,
            0 <= r < h,
            0 <= i < w,
    ;
}

/// The first three lines of the file: the format's name, the image's width
/// and height, and the largest channel value.
pub open spec fn header(image_width: u32, image_height: u32) -> Seq<u8> {
    seq![80u8, 51u8, 10u8] + digits(image_width as nat) + seq![32u8] + digits(image_height as nat)
        + seq![10u8, 50u8, 53u8, 53u8, 10u8]
}

/// One line of the file: the three channels of a pixel in decimal, with a
/// space between them and a line feed at the end.
pub open spec fn pixel_line(red: nat, green: nat, blue: nat) -> Seq<u8> {
    digits(red) + seq![32u8] + digits(green) + seq![32u8] + digits(blue) + seq![10u8]
}

/// The line of a gamma-corrected colour.
pub open spec fn color_line(v: Vec3) -> Seq<u8> {
    pixel_line(channel(v.x), channel(v.y), channel(v.z))
}

/// The lines of a run of colours, in order.
pub open spec fn body(colors: Seq<Vec3>) -> Seq<u8>
    decreases colors.len(),
{
    if colors.len() == 0 {
        Seq::<u8>::empty()
    } else {
        body(colors.drop_last()) + color_line(colors.last())
    }
}

/// The whole file.
pub open spec fn image_text(image_width: u32, image_height: u32, colors: Seq<Vec3>) -> Seq<u8> {
    header(image_width, image_height) + body(colors)
}

/// The number of line feeds in a text.
pub open spec fn line_feeds(text: Seq<u8>) -> nat
    decreases text.len(),
{
    if text.len() == 0 {
        0
    } else {
        line_feeds(text.drop_last()) + if text.last() == 10u8 {
            1nat
        } else {
            0nat
        }
    }
}

/// Line feeds add up over concatenation.
pub proof fn lemma_line_feeds_add(a: Seq<u8>, b: Seq<u8>)
    ensures
        line_feeds(a + b) == line_feeds(a) + line_feeds(b),
    decreases b.len(),
{
    if b.len() == 0 {
        assert(a + b =~= a);
    } else {
        lemma_line_feeds_add(a, b.drop_last());
        assert((a + b).drop_last() =~= a + b.drop_last());
    }
}

/// Decimal notation holds no line feed.
pub proof fn lemma_digits_on_one_line(n: nat)
    ensures
        line_feeds(digits(n)) == 0,
{
    lemma_digits_shape(n);
    lemma_no_line_feed(digits(n));
}

/// A text without the line feed byte has no line feeds.
pub proof fn lemma_no_line_feed(text: Seq<u8>)
    requires
        forall|k: int| 0 <= k < text.len() ==> text[k] != 10u8,
    ensures
        line_feeds(text) == 0,
    decreases text.len(),
{
    if text.len() > 0 {
        lemma_no_line_feed(text.drop_last());
    }
}

/// The file has three lines of header and then exactly one line per colour,
/// each ended by a line feed.
pub proof fn lemma_one_line_per_pixel(image_width: u32, image_height: u32, colors: Seq<Vec3>)
    ensures
        line_feeds(header(image_width, image_height)) == 3,
        line_feeds(body(colors)) == colors.len(),
        line_feeds(image_text(image_width, image_height, colors)) == 3 + colors.len(),
    decreases colors.len(),
{
    let space = seq![32u8];
    let feed = seq![10u8];
    assert(line_feeds(space) == 0) by {
        lemma_no_line_feed(space);
    }
    assert(line_feeds(feed) == 1) by {
        assert(feed.drop_last() =~= Seq::<u8>::empty());
        assert(line_feeds(feed.drop_last()) == 0);
        assert(feed.last() == 10u8);
    }
    // The header.
    let magic = seq![80u8, 51u8, 10u8];
    let depth = seq![10u8, 50u8, 53u8, 53u8, 10u8];
    assert(line_feeds(magic) == 1) by {
        assert(magic =~= seq![80u8, 51u8] + feed);
        lemma_line_feeds_add(seq![80u8, 51u8], feed);
        lemma_no_line_feed(seq![80u8, 51u8]);
    }
    assert(line_feeds(depth) == 2) by {
        assert(depth =~= feed + seq![50u8, 53u8, 53u8] + feed);
        lemma_line_feeds_add(feed + seq![50u8, 53u8, 53u8], feed);
        lemma_line_feeds_add(feed, seq![50u8, 53u8, 53u8]);
        lemma_no_line_feed(seq![50u8, 53u8, 53u8]);
    }
    let w = digits(image_width as nat);
    let h = digits(image_height as nat);
    lemma_digits_on_one_line(image_width as nat);
    lemma_digits_on_one_line(image_height as nat);
    lemma_line_feeds_add(magic, w);
    lemma_line_feeds_add(magic + w, space);
    lemma_line_feeds_add(magic + w + space, h);
    lemma_line_feeds_add(magic + w + space + h, depth);
    // The body.
    if colors.len() > 0 {
        lemma_one_line_per_pixel(image_width, image_height, colors.drop_last());
        let v = colors.last();
        let r = digits(channel(v.x));
        let g = digits(channel(v.y));
        let b = digits(channel(v.z));
        lemma_digits_on_one_line(channel(v.x));
        lemma_digits_on_one_line(channel(v.y));
        lemma_digits_on_one_line(channel(v.z));
        lemma_line_feeds_add(r, space);
        lemma_line_feeds_add(r + space, g);
        lemma_line_feeds_add(r + space + g, space);
        lemma_line_feeds_add(r + space + g + space, b);
        lemma_line_feeds_add(r + space + g + space + b, feed);
        lemma_line_feeds_add(body(colors.drop_last()), color_line(v));
    }
    lemma_line_feeds_add(header(image_width, image_height), body(colors));
}

/// Appends the header.
pub fn write_header(image_width: u32, image_height: u32, out: &mut Vec<u8>)
    ensures
        final(out)@ == old(out)@ + header(image_width, image_height),
{
    out.push(80);
    out.push(51);
    out.push(10);
    push_decimal(out, image_width);
    out.push(32);
    push_decimal(out, image_height);
    out.push(10);
    out.push(50);
    out.push(53);
    out.push(53);
    out.push(10);
    assert(out@ =~= old(out)@ + header(image_width, image_height));
}

/// Appends the line of one pixel. The channels of `v` are taken as gamma
/// corrected already: each is clamped and scaled to eight bits.
pub fn write_color(v: Vec3, out: &mut Vec<u8>)
    ensures
        final(out)@ == old(out)@ + color_line(v),
{
    let red: u8 = channel_value(v.x);
    let green: u8 = channel_value(v.y);
    let blue: u8 = channel_value(v.z);
    push_decimal(out, red as u32);
    out.push(32);
    push_decimal(out, green as u32);
    out.push(32);
    push_decimal(out, blue as u32);
    out.push(10);
    assert(out@ =~= old(out)@ + color_line(v));
}

/// Writes the image whose pixels have the gamma-corrected colours `colors`,
/// given in output order: the top scanline first, each from left to right.
/// There is no image unless there is one colour per pixel.
pub fn render(image_width: u32, image_height: u32, colors: &Vec<Vec3>) -> (r: Option<Vec<u8>>)
    ensures
        colors@.len() == image_width * image_height ==> r.is_some() && r.unwrap()@ == image_text(
            image_width,
            image_height,
            colors@,
        ),
        colors@.len() != image_width * image_height ==> r.is_none(),
{
    assert(image_width * image_height <= 0xffff_ffff * 0xffff_ffff) by (nonlinear_arith)
        requires
            0 <= image_width <= 0xffff_ffff,
            0 <= image_height <= 0xffff_ffff,
    ;
    let pixels: u64 = (image_width as u64) * (image_height as u64);
    if colors.len() as u64 != pixels {
        return None;
    }
    let mut out: Vec<u8> = Vec::new();
    write_header(image_width, image_height, &mut out);
    let mut k: usize = 0;
    while k < colors.len()
        invariant
            k <= colors@.len(),
            out@ == header(image_width, image_height) + body(colors@.take(k as int)),
        decreases colors@.len() - k,
    {
        write_color(colors[k], &mut out);
        proof {
            assert(colors@.take(k + 1).drop_last() == colors@.take(k as int));
            assert(colors@.take(k + 1).last() == colors@[k as int]);
            assert(out@ =~= header(image_width, image_height) + body(colors@.take(k + 1)));
        }
        k += 1;
    }
    assert(colors@.take(k as int) == colors@);
    Some(out)
}

} // verus!
