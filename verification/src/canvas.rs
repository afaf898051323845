//! The canvas: a rectangular pixel buffer with a fixed channel count per
//! pixel, stored row-major and channel-interleaved in a flat byte vector.

use vstd::prelude::*;
use crate::image::Image;

verus! {

/// Flat buffer position of channel `ch` of the pixel at column `px`, row `py`,
/// in a row-major, channel-interleaved buffer of width `width` with
/// `channels` channels per pixel.
pub open spec fn buf_idx(width: int, channels: int, px: int, py: int, ch: int) -> int {
    (py * width + px) * channels + ch
}

/// A mutable pixel buffer of `width * height` pixels, each with `channels`
/// subpixel values, stored row-major and channel-interleaved.
pub struct Canvas {
    width: u32,
    height: u32,
    channels: u32,
    data: Vec<u8>,
}

impl Canvas {
    pub closed spec fn spec_width(self) -> u32 {
        self.width
    }

    pub closed spec fn spec_height(self) -> u32 {
        self.height
    }

    pub closed spec fn spec_channels(self) -> u32 {
        self.channels
    }

    /// The raw buffer contents, row-major and channel-interleaved.
    pub closed spec fn spec_data(self) -> Seq<u8> {
        self.data@
    }

    /// Well-formed: the buffer holds exactly one subpixel value per channel
    /// of every pixel, and the pixel format has at least one channel.
    pub open spec fn wf(self) -> bool {
        &&& self.spec_channels() >= 1
        &&& self.spec_data().len() == self.spec_width() * self.spec_height() * self.spec_channels()
    }

    /// The value of channel `ch` of the pixel at column `px`, row `py`.
    pub open spec fn at(self, px: int, py: int, ch: int) -> u8 {
        self.spec_data()[buf_idx(self.spec_width() as int, self.spec_channels() as int, px, py, ch)]
    }

    /// Allocates a canvas of the given dimensions with every subpixel set to
    /// the zero value of the pixel representation.
    pub fn new(width: u32, height: u32, channels: u32) -> (c: Canvas)
        requires
            channels >= 1,
            width * height * channels <= usize::MAX,
        ensures
            c.wf(),
            c.spec_width() == width,
            c.spec_height() == height,
            c.spec_channels() == channels,
            forall|i: int| 0 <= i < c.spec_data().len() ==> c.spec_data()[i] == 0u8,
    {
        proof {
            lemma_pixel_count_fits(width as int, height as int, channels as int);
        }
        let total: usize = (width as usize) * (height as usize) * (channels as usize);
        let mut data: Vec<u8> = Vec::new();
        while data.len() < total
            invariant
                data.len() <= total,
                forall|i: int| 0 <= i < data.len() ==> data[i] == 0u8,
            decreases total - data.len(),
        {
            data.push(0u8);
        }
        Canvas { width, height, channels, data }
    }

    /// Replaces the canvas with a taller one: the old contents fill the
    /// prefix of the new buffer element-for-element, and every newly added
    /// element holds the zero value. Build-new-then-swap: the old buffer is
    /// only released once the new one is complete.
    pub fn grow_height(&mut self, extra: u32)
        requires
            old(self).wf(),
            old(self).spec_height() + extra <= u32::MAX,
            old(self).spec_width() * (old(self).spec_height() + extra) * old(self).spec_channels()
                <= usize::MAX,
        ensures
            final(self).wf(),
            final(self).spec_width() == old(self).spec_width(),
            final(self).spec_channels() == old(self).spec_channels(),
            final(self).spec_height() == old(self).spec_height() + extra,
            forall|i: int| 0 <= i < old(self).spec_data().len()
                ==> final(self).spec_data()[i] == old(self).spec_data()[i],
            forall|i: int| old(self).spec_data().len() <= i < final(self).spec_data().len()
                ==> final(self).spec_data()[i] == 0u8,
    {
        let new_height: u32 = self.height + extra;
        proof {
            lemma_pixel_count_fits(self.width as int, new_height as int, self.channels as int);
            lemma_buffer_grows(
                self.width as int,
                self.height as int,
                new_height as int,
                self.channels as int,
            );
        }
        let new_total: usize = (self.width as usize) * (new_height as usize)
            * (self.channels as usize);
        let n_old: usize = self.data.len();
        let mut new_data: Vec<u8> = Vec::new();
        let mut i: usize = 0;
        while i < n_old
            invariant
                i <= n_old,
                n_old == self.data.len(),
                new_data.len() == i,
                forall|k: int| 0 <= k < i ==> new_data[k] == self.data[k],
            decreases n_old - i,
        {
            new_data.push(self.data[i]);
            i = i + 1;
        }
        while new_data.len() < new_total
            invariant
                n_old <= new_data.len() <= new_total || new_data.len() == n_old,
                forall|k: int| 0 <= k < n_old ==> new_data[k] == self.data[k],
                forall|k: int| n_old <= k < new_data.len() ==> new_data[k] == 0u8,
            decreases new_total - new_data.len(),
        {
            new_data.push(0u8);
        }
        self.data = new_data;
        self.height = new_height;
    }

    pub fn width(&self) -> (r: u32)
        ensures
            r == self.spec_width(),
    {
        self.width
    }

    pub fn height(&self) -> (r: u32)
        ensures
            r == self.spec_height(),
    {
        self.height
    }

    pub fn channels(&self) -> (r: u32)
        ensures
            r == self.spec_channels(),
    {
        self.channels
    }

    /// Reads channel `ch` of the pixel at column `px`, row `py`.
    pub fn get(&self, px: u32, py: u32, ch: u32) -> (v: u8)
        requires
            self.wf(),
            px < self.spec_width(),
            py < self.spec_height(),
            ch < self.spec_channels(),
        ensures
            v == self.at(px as int, py as int, ch as int),
    {
        let n: usize = self.data.len();
        proof {
            lemma_buf_idx_bounds(
                self.width as int,
                self.height as int,
                self.channels as int,
                px as int,
                py as int,
                ch as int,
            );
            lemma_pixel_count_fits(self.width as int, self.height as int, self.channels as int);
        }
        let idx: usize = ((py as usize) * (self.width as usize) + (px as usize))
            * (self.channels as usize) + (ch as usize);
        self.data[idx]
    }

    /// The raw canvas contents, row-major and channel-interleaved, suitable
    /// for handing to an external image encoder.
    pub fn raw_data(&self) -> (r: &Vec<u8>)
        ensures
            r@ == self.spec_data(),
    {
        &self.data
    }

    /// Copies the source image's pixels into the canvas with its top-left
    /// corner at `(x, y)`. Overwrite semantics: every canvas pixel under the
    /// image's footprint is fully replaced, no blending; every pixel outside
    /// the footprint is untouched.
    #[verifier::loop_isolation(false)]
    pub fn blit(&mut self, src: &Image, x: u32, y: u32)
        requires
            old(self).wf(),
            src.wf(),
            src.spec_channels() == old(self).spec_channels(),
            x + src.spec_width() <= old(self).spec_width(),
            y + src.spec_height() <= old(self).spec_height(),
        ensures
            final(self).wf(),
            final(self).spec_width() == old(self).spec_width(),
            final(self).spec_height() == old(self).spec_height(),
            final(self).spec_channels() == old(self).spec_channels(),
            forall|c: int, r: int, ch: int|
                0 <= c < src.spec_width() && 0 <= r < src.spec_height()
                    && 0 <= ch < src.spec_channels()
                    ==> final(self).at(x + c, y + r, ch) == src.at(c, r, ch),
            forall|px: int, py: int, ch: int|
                0 <= px < old(self).spec_width() && 0 <= py < old(self).spec_height()
                    && 0 <= ch < old(self).spec_channels()
                    && !(x <= px < x + src.spec_width() && y <= py < y + src.spec_height())
                    ==> final(self).at(px, py, ch) == old(self).at(px, py, ch),
    {
        let sw: u32 = src.width();
        let sh: u32 = src.height();
        let cc: u32 = self.channels;
        let n: usize = self.data.len();
        proof {
            lemma_pixel_count_fits(self.width as int, self.height as int, self.channels as int);
        }
        let mut r: u32 = 0;
        while r < sh
            invariant
                r <= sh,
                self.spec_width() == old(self).spec_width(),
                self.spec_height() == old(self).spec_height(),
                self.spec_channels() == old(self).spec_channels(),
                self.spec_data().len() == old(self).spec_data().len(),
                forall|c2: int, r2: int, ch2: int|
                    0 <= c2 < sw && 0 <= r2 < r && 0 <= ch2 < cc
                        ==> self.at(x + c2, y + r2, ch2) == src.at(c2, r2, ch2),
                forall|px: int, py: int, ch2: int|
                    0 <= px < old(self).spec_width() && 0 <= py < old(self).spec_height()
                        && 0 <= ch2 < cc && !(x <= px < x + sw && y <= py < y + r)
                        ==> self.at(px, py, ch2) == old(self).at(px, py, ch2),
            decreases sh - r,
        {
            let mut c: u32 = 0;
            while c < sw
                invariant
                    c <= sw,
                    r < sh,
                    self.spec_width() == old(self).spec_width(),
                    self.spec_height() == old(self).spec_height(),
                    self.spec_channels() == old(self).spec_channels(),
                    self.spec_data().len() == old(self).spec_data().len(),
                    forall|c2: int, r2: int, ch2: int|
                        0 <= c2 < sw && 0 <= r2 < r && 0 <= ch2 < cc
                            ==> self.at(x + c2, y + r2, ch2) == src.at(c2, r2, ch2),
                    forall|c2: int, ch2: int|
                        0 <= c2 < c && 0 <= ch2 < cc
                            ==> self.at(x + c2, y + r, ch2) == src.at(c2, r as int, ch2),
                    forall|px: int, py: int, ch2: int|
                        0 <= px < old(self).spec_width() && 0 <= py < old(self).spec_height()
                            && 0 <= ch2 < cc && !(x <= px < x + sw && y <= py < y + r)
                            && !(py == y + r && x <= px < x + c)
                            ==> self.at(px, py, ch2) == old(self).at(px, py, ch2),
                decreases sw - c,
            {
                let mut ch: u32 = 0;
                while ch < cc
                    invariant
                        ch <= cc,
                        c < sw,
                        r < sh,
                        self.spec_width() == old(self).spec_width(),
                        self.spec_height() == old(self).spec_height(),
                        self.spec_channels() == old(self).spec_channels(),
                        self.spec_data().len() == old(self).spec_data().len(),
                        forall|c2: int, r2: int, ch2: int|
                            0 <= c2 < sw && 0 <= r2 < r && 0 <= ch2 < cc
                                ==> self.at(x + c2, y + r2, ch2) == src.at(c2, r2, ch2),
                        forall|c2: int, ch2: int|
                            0 <= c2 < c && 0 <= ch2 < cc
                                ==> self.at(x + c2, y + r, ch2) == src.at(c2, r as int, ch2),
                        forall|ch2: int|
                            0 <= ch2 < ch
                                ==> self.at(x + c, y + r, ch2) == src.at(c as int, r as int, ch2),
                        forall|px: int, py: int, ch2: int|
                            0 <= px < old(self).spec_width() && 0 <= py < old(self).spec_height()
                                && 0 <= ch2 < cc && !(x <= px < x + sw && y <= py < y + r)
                                && !(py == y + r && x <= px < x + c)
                                && !(py == y + r && px == x + c && 0 <= ch2 < ch)
                                ==> self.at(px, py, ch2) == old(self).at(px, py, ch2),
                    decreases cc - ch,
                {
                    let v: u8 = src.get(c, r, ch);
                    proof {
                        lemma_buf_idx_bounds(
                            self.spec_width() as int,
                            self.spec_height() as int,
                            self.spec_channels() as int,
                            (x + c) as int,
                            (y + r) as int,
                            ch as int,
                        );
                    }
                    let dst: usize = (((y + r) as usize) * (self.width as usize)
                        + ((x + c) as usize)) * (cc as usize) + (ch as usize);
                    let ghost prev = *self;
                    self.data.set(dst, v);
                    proof {
                        assert forall|px: int, py: int, ch2: int|
                            0 <= px < self.spec_width() && 0 <= py < self.spec_height()
                                && 0 <= ch2 < cc
                                && !(px == x + c && py == y + r && ch2 == ch)
                            implies self.at(px, py, ch2) == prev.at(px, py, ch2) by {
                            lemma_buf_idx_bounds(
                                self.spec_width() as int,
                                self.spec_height() as int,
                                self.spec_channels() as int,
                                px,
                                py,
                                ch2,
                            );
                            if buf_idx(
                                self.spec_width() as int,
                                self.spec_channels() as int,
                                px,
                                py,
                                ch2,
                            ) == buf_idx(
                                self.spec_width() as int,
                                self.spec_channels() as int,
                                (x + c) as int,
                                (y + r) as int,
                                ch as int,
                            ) {
                                lemma_buf_idx_injective(
                                    self.spec_width() as int,
                                    self.spec_channels() as int,
                                    px,
                                    py,
                                    ch2,
                                    (x + c) as int,
                                    (y + r) as int,
                                    ch as int,
                                );
                            }
                        }
                        assert(self.at((x + c) as int, (y + r) as int, ch as int) == v);
                    }
                    ch = ch + 1;
                }
                c = c + 1;
            }
            r = r + 1;
        }
    }
}

/// A flat buffer position computed from in-range pixel coordinates lies
/// within the buffer, and so do the intermediate products.
pub(crate) proof fn lemma_buf_idx_bounds(
    width: int,
    height: int,
    channels: int,
    px: int,
    py: int,
    ch: int,
)
    requires
        0 <= px < width,
        0 <= py < height,
        0 <= ch < channels,
    ensures
        0 <= py * width + px < width * height,
        0 <= buf_idx(width, channels, px, py, ch) < width * height * channels,
{
    assert(0 <= py * width + px < width * height) by (nonlinear_arith)
        requires
            0 <= px < width,
            0 <= py < height,
    ;
    assert(0 <= (py * width + px) * channels + ch < width * height * channels)
        by (nonlinear_arith)
        requires
            0 <= py * width + px < width * height,
            0 <= ch < channels,
    ;
}

/// A pixel in a row at or above `h0` has its buffer position at or beyond
/// the prefix that a canvas of height `h0` occupies.
pub(crate) proof fn lemma_buf_idx_row_split(
    width: int,
    channels: int,
    px: int,
    py: int,
    ch: int,
    h0: int,
)
    requires
        0 <= px < width,
        0 <= ch < channels,
        py >= h0 >= 0,
    ensures
        buf_idx(width, channels, px, py, ch) >= width * h0 * channels,
{
    assert((py * width + px) * channels + ch >= width * h0 * channels) by (nonlinear_arith)
        requires
            0 <= px,
            0 <= ch,
            0 < channels,
            0 < width,
            py >= h0 >= 0,
    ;
}

/// Distinct in-range pixel coordinates map to distinct flat buffer
/// positions.
pub(crate) proof fn lemma_buf_idx_injective(
    width: int,
    channels: int,
    px1: int,
    py1: int,
    ch1: int,
    px2: int,
    py2: int,
    ch2: int,
)
    requires
        0 <= px1 < width,
        0 <= py1,
        0 <= ch1 < channels,
        0 <= px2 < width,
        0 <= py2,
        0 <= ch2 < channels,
        buf_idx(width, channels, px1, py1, ch1) == buf_idx(width, channels, px2, py2, ch2),
    ensures
        px1 == px2,
        py1 == py2,
        ch1 == ch2,
{
    assert(py1 * width + px1 == py2 * width + px2 && ch1 == ch2) by (nonlinear_arith)
        requires
            (py1 * width + px1) * channels + ch1 == (py2 * width + px2) * channels + ch2,
            0 <= ch1 < channels,
            0 <= ch2 < channels,
    ;
    assert(py1 == py2 && px1 == px2) by (nonlinear_arith)
        requires
            py1 * width + px1 == py2 * width + px2,
            0 <= px1 < width,
            0 <= px2 < width,
    ;
}

/// A buffer sized for a given height never shrinks when the height grows.
proof fn lemma_buffer_grows(width: int, h1: int, h2: int, channels: int)
    requires
        width >= 0,
        channels >= 0,
        0 <= h1 <= h2,
    ensures
        width * h1 * channels <= width * h2 * channels,
{
    assert(width * h1 * channels <= width * h2 * channels) by (nonlinear_arith)
        requires
            width >= 0,
            channels >= 0,
            0 <= h1 <= h2,
    ;
}

/// If the full subpixel count fits in `usize`, so does the intermediate
/// product `width * height`.
pub(crate) proof fn lemma_pixel_count_fits(width: int, height: int, channels: int)
    requires
        width >= 0,
        height >= 0,
        channels >= 1,
        width * height * channels <= usize::MAX,
    ensures
        width * height <= usize::MAX,
{
    assert(width * height <= width * height * channels) by (nonlinear_arith)
        requires
            width >= 0,
            height >= 0,
            channels >= 1,
    ;
}

} // verus!
