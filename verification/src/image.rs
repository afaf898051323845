//! A source image: fixed dimensions and raw pixel data in the same
//! row-major, channel-interleaved layout as the canvas.

use vstd::prelude::*;
use crate::canvas::buf_idx;
use crate::canvas::lemma_buf_idx_bounds;
use crate::canvas::lemma_pixel_count_fits;

verus! {

/// An immutable source image to be pasted onto the canvas.
pub struct Image {
    width: u32,
    height: u32,
    channels: u32,
    data: Vec<u8>,
}

impl Image {
    pub closed spec fn spec_width(self) -> u32 {
        self.width
    }

    pub closed spec fn spec_height(self) -> u32 {
        self.height
    }

    pub closed spec fn spec_channels(self) -> u32 {
        self.channels
    }

    /// The raw pixel data, row-major and channel-interleaved.
    pub closed spec fn spec_data(self) -> Seq<u8> {
        self.data@
    }

    /// Well-formed: one subpixel value per channel of every pixel, and at
    /// least one channel per pixel.
    pub open spec fn wf(self) -> bool {
        &&& self.spec_channels() >= 1
        &&& self.spec_data().len() == self.spec_width() * self.spec_height() * self.spec_channels()
    }

    /// The value of channel `ch` of the pixel at column `px`, row `py`.
    pub open spec fn at(self, px: int, py: int, ch: int) -> u8 {
        self.spec_data()[buf_idx(self.spec_width() as int, self.spec_channels() as int, px, py, ch)]
    }

    /// Builds an image from raw pixel data; returns `None` when the buffer
    /// length does not match the dimensions.
    pub fn from_raw(width: u32, height: u32, channels: u32, data: Vec<u8>) -> (r: Option<Image>)
        ensures
            match r {
                Some(img) => {
                    &&& channels >= 1
                    &&& data@.len() == width * height * channels
                    &&& img.wf()
                    &&& img.spec_width() == width
                    &&& img.spec_height() == height
                    &&& img.spec_channels() == channels
                    &&& img.spec_data() == data@
                },
                None => channels < 1 || data@.len() != width * height * channels,
            },
    {
        if channels < 1 {
            return None;
        }
        proof {
            assert((width as int) * (height as int) * (channels as int)
                <= (u32::MAX as int) * (u32::MAX as int) * (u32::MAX as int)) by (nonlinear_arith)
                requires
                    0 <= width <= u32::MAX,
                    0 <= height <= u32::MAX,
                    0 <= channels <= u32::MAX,
            ;
            assert((width as int) * (height as int) <= (u32::MAX as int) * (u32::MAX as int)) by (nonlinear_arith)
                requires
                    0 <= width <= u32::MAX,
                    0 <= height <= u32::MAX,
            ;
        }
        let claimed: u128 = (width as u128) * (height as u128) * (channels as u128);
        if (data.len() as u128) != claimed {
            return None;
        }
        Some(Image { width, height, channels, data })
    }

    pub fn width(&self) -> (r: u32)
        ensures
            r == self.spec_width(),
    {
        self.width
    }

    pub fn height(&self) -> (r: u32)
        ensures
            r == self.spec_height(),
    {
        self.height
    }

    pub fn channels(&self) -> (r: u32)
        ensures
            r == self.spec_channels(),
    {
        self.channels
    }

    /// Reads channel `ch` of the pixel at column `px`, row `py`.
    pub fn get(&self, px: u32, py: u32, ch: u32) -> (v: u8)
        requires
            self.wf(),
            px < self.spec_width(),
            py < self.spec_height(),
            ch < self.spec_channels(),
        ensures
            v == self.at(px as int, py as int, ch as int),
    {
        let n: usize = self.data.len();
        proof {
            lemma_buf_idx_bounds(
                self.width as int,
                self.height as int,
                self.channels as int,
                px as int,
                py as int,
                ch as int,
            );
            lemma_pixel_count_fits(self.width as int, self.height as int, self.channels as int);
        }
        let idx: usize = ((py as usize) * (self.width as usize) + (px as usize))
            * (self.channels as usize) + (ch as usize);
        self.data[idx]
    }

    /// The raw pixel data, row-major and channel-interleaved.
    pub fn raw_data(&self) -> (r: &Vec<u8>)
        ensures
            r@ == self.spec_data(),
    {
        &self.data
    }
}

} // verus!
