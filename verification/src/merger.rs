//! The grid compositor: owns the canvas and the packing state, and places
//! each pushed image into the next free slot, growing the canvas by one row
//! of slots whenever capacity runs out.

use vstd::prelude::*;
use vstd::arithmetic::div_mod::lemma_fundamental_div_mod;
use crate::canvas::Canvas;
use crate::canvas::lemma_buf_idx_bounds;
use crate::canvas::lemma_buf_idx_row_split;
use crate::image::Image;

verus! {

broadcast use vstd::arithmetic::mul::lemma_mul_is_commutative;

/// Column of the 0-based slot index `idx` in a grid `n` slots wide.
pub open spec fn slot_col(idx: int, n: int) -> int {
    idx % n
}

/// Row of the 0-based slot index `idx` in a grid `n` slots wide.
pub open spec fn slot_row(idx: int, n: int) -> int {
    idx / n
}

/// The failures a compositor can report.
#[derive(Debug, PartialEq, Eq, Structural)]
pub enum MergerError {
    /// A pushed image's width or height differs from the fixed image
    /// dimensions the compositor was constructed with.
    DimensionMismatch,
    /// The operation is declared but has no defined behavior.
    Unsupported,
}

/// The grid compositor.
pub struct Merger {
    canvas: Canvas,
    image_width: u32,
    image_height: u32,
    num_images: u32,
    num_images_per_row: u32,
    last_pasted_index: i64,
    total_rows: u32,
}

impl Merger {
    pub closed spec fn spec_image_width(self) -> u32 {
        self.image_width
    }

    pub closed spec fn spec_image_height(self) -> u32 {
        self.image_height
    }

    pub closed spec fn spec_num_images(self) -> u32 {
        self.num_images
    }

    pub closed spec fn spec_num_images_per_row(self) -> u32 {
        self.num_images_per_row
    }

    pub closed spec fn spec_last_pasted_index(self) -> i64 {
        self.last_pasted_index
    }

    pub closed spec fn spec_total_rows(self) -> u32 {
        self.total_rows
    }

    pub closed spec fn spec_canvas(self) -> Canvas {
        self.canvas
    }

    /// Well-formed compositor state: the canvas is sized for exactly
    /// `total_rows` rows of `num_images_per_row` slots, the placed-image
    /// count never exceeds capacity, and the count always equals the last
    /// pasted index plus one.
    pub open spec fn wf(self) -> bool {
        &&& self.spec_canvas().wf()
        &&& self.spec_num_images_per_row() >= 1
        &&& self.spec_total_rows() >= 1
        &&& self.spec_canvas().spec_width()
            == self.spec_image_width() * self.spec_num_images_per_row()
        &&& self.spec_canvas().spec_height()
            == self.spec_image_height() * self.spec_total_rows()
        &&& self.spec_num_images()
            <= self.spec_num_images_per_row() * self.spec_total_rows()
        &&& self.spec_num_images_per_row() * self.spec_total_rows() <= u32::MAX
        &&& self.spec_num_images() == self.spec_last_pasted_index() + 1
    }

    /// The number of slots the canvas currently provides.
    pub open spec fn spec_capacity(self) -> int {
        self.spec_num_images_per_row() * self.spec_total_rows()
    }

    /// Whether every currently allocated slot already holds an image.
    pub open spec fn spec_is_full(self) -> bool {
        self.spec_num_images() == self.spec_capacity()
    }

    /// Pixel x of the left edge of slot `idx`.
    pub open spec fn spec_slot_x(self, idx: int) -> int {
        slot_col(idx, self.spec_num_images_per_row() as int) * self.spec_image_width()
    }

    /// Pixel y of the top edge of slot `idx`.
    pub open spec fn spec_slot_y(self, idx: int) -> int {
        slot_row(idx, self.spec_num_images_per_row() as int) * self.spec_image_height()
    }

    /// The value of channel `ch` of the canvas pixel at offset `(c, r)`
    /// within slot `idx`'s rectangle.
    pub open spec fn spec_slot_pixel(self, idx: int, c: int, r: int, ch: int) -> u8 {
        self.spec_canvas().at(self.spec_slot_x(idx) + c, self.spec_slot_y(idx) + r, ch)
    }

    /// The machine limits a push must respect: when the canvas is full, the
    /// grown canvas must still be addressable.
    pub open spec fn spec_can_grow(self) -> bool {
        self.spec_is_full() ==> {
            &&& self.spec_num_images_per_row() * (self.spec_total_rows() + 1) <= u32::MAX
            &&& self.spec_image_height() * (self.spec_total_rows() + 1) <= u32::MAX
            &&& self.spec_canvas().spec_width()
                * (self.spec_canvas().spec_height() + self.spec_image_height())
                * self.spec_canvas().spec_channels() <= usize::MAX
        }
    }

    /// Builds a compositor for images of `image_width * image_height` pixels
    /// with `channels` channels each, packed `num_images_per_row` to a row,
    /// with a zero-filled canvas sized for `initial_rows` rows of slots.
    pub fn new(
        image_width: u32,
        image_height: u32,
        num_images_per_row: u32,
        initial_rows: u32,
        channels: u32,
    ) -> (m: Merger)
        requires
            channels >= 1,
            num_images_per_row >= 1,
            initial_rows >= 1,
            image_width * num_images_per_row <= u32::MAX,
            image_height * initial_rows <= u32::MAX,
            num_images_per_row * initial_rows <= u32::MAX,
            (image_width * num_images_per_row) * (image_height * initial_rows) * channels
                <= usize::MAX,
        ensures
            m.wf(),
            m.spec_image_width() == image_width,
            m.spec_image_height() == image_height,
            m.spec_num_images_per_row() == num_images_per_row,
            m.spec_total_rows() == initial_rows,
            m.spec_num_images() == 0,
            m.spec_last_pasted_index() == -1,
            m.spec_canvas().spec_width() == image_width * num_images_per_row,
            m.spec_canvas().spec_height() == image_height * initial_rows,
            m.spec_canvas().spec_channels() == channels,
            forall|i: int| 0 <= i < m.spec_canvas().spec_data().len()
                ==> m.spec_canvas().spec_data()[i] == 0u8,
    {
        let canvas_width: u32 = image_width * num_images_per_row;
        let canvas_height: u32 = image_height * initial_rows;
        let canvas = Canvas::new(canvas_width, canvas_height, channels);
        Merger {
            canvas,
            image_width,
            image_height,
            num_images: 0,
            num_images_per_row,
            last_pasted_index: -1,
            total_rows: initial_rows,
        }
    }

    /// Returns the number of images pasted onto the canvas so far.
    pub fn pasted_images_len(&self) -> (r: u32)
        ensures
            r == self.spec_num_images(),
    {
        self.num_images
    }

    /// Adds exactly one more row of slots: the canvas is replaced by one
    /// taller by one image height, with the old contents preserved
    /// element-for-element and the new space zero-filled.
    fn grow_canvas(&mut self)
        requires
            old(self).wf(),
            old(self).spec_num_images_per_row() * (old(self).spec_total_rows() + 1) <= u32::MAX,
            old(self).spec_image_height() * (old(self).spec_total_rows() + 1) <= u32::MAX,
            old(self).spec_canvas().spec_width()
                * (old(self).spec_canvas().spec_height() + old(self).spec_image_height())
                * old(self).spec_canvas().spec_channels() <= usize::MAX,
        ensures
            final(self).wf(),
            final(self).spec_image_width() == old(self).spec_image_width(),
            final(self).spec_image_height() == old(self).spec_image_height(),
            final(self).spec_num_images_per_row() == old(self).spec_num_images_per_row(),
            final(self).spec_num_images() == old(self).spec_num_images(),
            final(self).spec_last_pasted_index() == old(self).spec_last_pasted_index(),
            final(self).spec_total_rows() == old(self).spec_total_rows() + 1,
            final(self).spec_canvas().spec_width() == old(self).spec_canvas().spec_width(),
            final(self).spec_canvas().spec_channels() == old(self).spec_canvas().spec_channels(),
            final(self).spec_canvas().spec_height()
                == old(self).spec_canvas().spec_height() + old(self).spec_image_height(),
            forall|i: int| 0 <= i < old(self).spec_canvas().spec_data().len()
                ==> final(self).spec_canvas().spec_data()[i]
                    == old(self).spec_canvas().spec_data()[i],
            forall|i: int|
                old(self).spec_canvas().spec_data().len() <= i
                    < final(self).spec_canvas().spec_data().len()
                    ==> final(self).spec_canvas().spec_data()[i] == 0u8,
    {
        proof {
            let n = self.spec_num_images_per_row() as int;
            let r = self.spec_total_rows() as int;
            let ih = self.spec_image_height() as int;
            assert(r + 1 <= n * (r + 1)) by (nonlinear_arith)
                requires
                    n >= 1,
                    r >= 0,
            ;
            assert(ih * r + ih == ih * (r + 1)) by (nonlinear_arith);
            assert(n * r + n == n * (r + 1)) by (nonlinear_arith);
            assert(n * r <= n * (r + 1)) by (nonlinear_arith)
                requires
                    n >= 1,
                    r >= 0,
            ;
        }
        self.total_rows = self.total_rows + 1;
        let extra: u32 = self.image_height;
        self.canvas.grow_height(extra);
    }

    /// Computes the pixel coordinate of the slot the next image will occupy,
    /// growing the canvas by one row of slots first when every current slot
    /// is taken. The n-th pushed image always lands at column `n mod
    /// num_images_per_row`, row `n div num_images_per_row`, in image-size
    /// units, no matter when growth happened.
    fn get_next_paste_coordinates(&mut self) -> (xy: (u32, u32))
        requires
            old(self).wf(),
            old(self).spec_can_grow(),
        ensures
            final(self).wf(),
            final(self).spec_image_width() == old(self).spec_image_width(),
            final(self).spec_image_height() == old(self).spec_image_height(),
            final(self).spec_num_images_per_row() == old(self).spec_num_images_per_row(),
            final(self).spec_num_images() == old(self).spec_num_images(),
            final(self).spec_last_pasted_index() == old(self).spec_last_pasted_index(),
            final(self).spec_canvas().spec_width() == old(self).spec_canvas().spec_width(),
            final(self).spec_canvas().spec_channels()
                == old(self).spec_canvas().spec_channels(),
            old(self).spec_is_full() ==> {
                &&& final(self).spec_total_rows() == old(self).spec_total_rows() + 1
                &&& final(self).spec_canvas().spec_height()
                    == old(self).spec_canvas().spec_height() + old(self).spec_image_height()
                &&& forall|i: int| 0 <= i < old(self).spec_canvas().spec_data().len()
                    ==> final(self).spec_canvas().spec_data()[i]
                        == old(self).spec_canvas().spec_data()[i]
                &&& forall|i: int|
                    old(self).spec_canvas().spec_data().len() <= i
                        < final(self).spec_canvas().spec_data().len()
                        ==> final(self).spec_canvas().spec_data()[i] == 0u8
            },
            !old(self).spec_is_full() ==> *final(self) == *old(self),
            xy.0 == old(self).spec_slot_x(old(self).spec_num_images() as int),
            xy.1 == final(self).spec_slot_y(old(self).spec_num_images() as int),
            xy.0 + final(self).spec_image_width() <= final(self).spec_canvas().spec_width(),
            xy.1 + final(self).spec_image_height() <= final(self).spec_canvas().spec_height(),
            final(self).spec_num_images() < final(self).spec_capacity(),
    {
        let available_images: u32 = self.num_images_per_row * self.total_rows - self.num_images;
        if available_images == 0 {
            // Out of space: grow the canvas before computing the coordinate.
            self.grow_canvas();
        }
        proof {
            let n = old(self).spec_num_images_per_row() as int;
            let r0 = old(self).spec_total_rows() as int;
            if old(self).spec_is_full() {
                assert(n * r0 < n * (r0 + 1)) by (nonlinear_arith)
                    requires
                        n >= 1,
                        r0 >= 0,
                ;
            }
            assert(self.spec_num_images() < self.spec_capacity());
        }
        let current_paste_index: u32 = self.num_images;
        let col: u32 = current_paste_index % self.num_images_per_row;
        let row: u32 = current_paste_index / self.num_images_per_row;
        proof {
            lemma_slot_in_bounds(
                current_paste_index as int,
                self.spec_num_images_per_row() as int,
                self.spec_total_rows() as int,
                self.spec_image_width() as int,
                self.spec_image_height() as int,
            );
        }
        let x: u32 = col * self.image_width;
        let y: u32 = row * self.image_height;
        (x, y)
    }

    /// Pastes the next image onto the canvas. The i-th pushed image (0-based)
    /// lands at column `i mod num_images_per_row`, row `i div
    /// num_images_per_row`, in image-size units; the canvas grows by exactly
    /// one row of slots first when every current slot is taken. An image
    /// whose dimensions differ from the fixed image dimensions is rejected
    /// before anything is written, with the compositor state unchanged.
    pub fn push(&mut self, image: &Image) -> (res: Result<(), MergerError>)
        requires
            old(self).wf(),
            image.wf(),
            image.spec_channels() == old(self).spec_canvas().spec_channels(),
            old(self).spec_can_grow(),
        ensures
            final(self).wf(),
            final(self).spec_image_width() == old(self).spec_image_width(),
            final(self).spec_image_height() == old(self).spec_image_height(),
            final(self).spec_num_images_per_row() == old(self).spec_num_images_per_row(),
            final(self).spec_canvas().spec_width() == old(self).spec_canvas().spec_width(),
            final(self).spec_canvas().spec_channels()
                == old(self).spec_canvas().spec_channels(),
            res is Ok <==> {
                &&& image.spec_width() == old(self).spec_image_width()
                &&& image.spec_height() == old(self).spec_image_height()
            },
            res is Err ==> {
                &&& res == Err::<(), MergerError>(MergerError::DimensionMismatch)
                &&& *final(self) == *old(self)
            },
            res is Ok ==> push_places(*old(self), *final(self), *image),
    {
        if image.width() != self.image_width || image.height() != self.image_height {
            return Err(MergerError::DimensionMismatch);
        }
        let (x, y) = self.get_next_paste_coordinates();
        let ghost mid = *self;
        self.canvas.blit(image, x, y);
        self.last_pasted_index = self.last_pasted_index + 1;
        self.num_images = self.num_images + 1;
        proof {
            let idx = old(self).spec_num_images() as int;
            let n = old(self).spec_num_images_per_row() as int;
            let iw = old(self).spec_image_width() as int;
            let ih = old(self).spec_image_height() as int;
            let cc = old(self).spec_canvas().spec_channels() as int;
            let w = old(self).spec_canvas().spec_width() as int;
            let h0 = old(self).spec_canvas().spec_height() as int;
            let sx = old(self).spec_slot_x(idx);
            let sy = old(self).spec_slot_y(idx);

            // Pixels of the old canvas outside the new image's footprint are
            // untouched: they sit in the preserved prefix after growth, and
            // the blit leaves everything outside the footprint alone.
            assert forall|px: int, py: int, ch: int|
                0 <= px < w && 0 <= py < h0 && 0 <= ch < cc
                    && !(sx <= px < sx + iw && sy <= py < sy + ih)
                implies self.spec_canvas().at(px, py, ch)
                    == old(self).spec_canvas().at(px, py, ch) by {
                lemma_buf_idx_bounds(w, h0, cc, px, py, ch);
            }

            // Newly added rows hold the zero fill except where the new image
            // itself was pasted.
            assert forall|px: int, py: int, ch: int|
                0 <= px < w && h0 <= py < self.spec_canvas().spec_height() && 0 <= ch < cc
                    && !(sx <= px < sx + iw && sy <= py < sy + ih)
                implies self.spec_canvas().at(px, py, ch) == 0u8 by {
                lemma_buf_idx_bounds(
                    w,
                    self.spec_canvas().spec_height() as int,
                    cc,
                    px,
                    py,
                    ch,
                );
                lemma_buf_idx_row_split(w, cc, px, py, ch, h0);
            }

            // No previously placed image's region is altered: distinct slots
            // occupy disjoint pixel rectangles.
            assert forall|j: int, c: int, r: int, ch: int|
                0 <= j < idx && 0 <= c < iw && 0 <= r < ih && 0 <= ch < cc
                implies self.spec_slot_pixel(j, c, r, ch)
                    == old(self).spec_slot_pixel(j, c, r, ch) by {
                lemma_slot_in_bounds(j, n, old(self).spec_total_rows() as int, iw, ih);
                let px = old(self).spec_slot_x(j) + c;
                let py = old(self).spec_slot_y(j) + r;
                if sx <= px < sx + iw && sy <= py < sy + ih {
                    lemma_slot_regions_disjoint(
                        n,
                        iw,
                        ih,
                        idx,
                        j,
                        px - sx,
                        py - sy,
                        c,
                        r,
                    );
                }
                lemma_buf_idx_bounds(w, h0, cc, px, py, ch);
            }
        }
        Ok(())
    }

    /// Pastes many images at once. Declared in the public surface but with
    /// no defined behavior: every call is rejected and the compositor is
    /// left unchanged.
    pub fn bulk_push(&mut self, _images: Vec<Image>) -> (res: Result<(), MergerError>)
        ensures
            res == Err::<(), MergerError>(MergerError::Unsupported),
            *final(self) == *old(self),
    {
        Err(MergerError::Unsupported)
    }

    /// Removes the image at a 0-based insertion index. Declared in the
    /// public surface but with no defined behavior: every call is rejected
    /// and the compositor is left unchanged.
    pub fn remove_image(&mut self, _index: u32) -> (res: Result<(), MergerError>)
        ensures
            res == Err::<(), MergerError>(MergerError::Unsupported),
            *final(self) == *old(self),
    {
        Err(MergerError::Unsupported)
    }

    /// The fixed dimensions every pushed image must match, as (width,
    /// height).
    pub fn image_dimensions(&self) -> (r: (u32, u32))
        ensures
            r.0 == self.spec_image_width(),
            r.1 == self.spec_image_height(),
    {
        (self.image_width, self.image_height)
    }

    /// The fixed number of image slots per canvas row.
    pub fn num_images_per_row(&self) -> (r: u32)
        ensures
            r == self.spec_num_images_per_row(),
    {
        self.num_images_per_row
    }

    /// Returns the number of row-slots currently allocated on the canvas.
    pub fn total_rows(&self) -> (r: u32)
        ensures
            r == self.spec_total_rows(),
    {
        self.total_rows
    }

    /// The canvas every image has been composited into; valid and readable
    /// at every point in the push stream.
    pub fn canvas(&self) -> (c: &Canvas)
        ensures
            *c == self.spec_canvas(),
    {
        &self.canvas
    }
}

/// What one successful push does to the compositor: the count and the last
/// index rise by one, the canvas grows by exactly one row of slots when and
/// only when every slot was taken (with the old contents preserved and the
/// new space zero-filled outside the pasted image), and the pushed image's
/// pixels land in slot `pre.spec_num_images()`, every pixel outside that
/// slot's rectangle untouched.
pub open spec fn push_places(pre: Merger, post: Merger, image: Image) -> bool {
    let idx = pre.spec_num_images() as int;
    let sx = pre.spec_slot_x(idx);
    let sy = pre.spec_slot_y(idx);
    let iw = pre.spec_image_width() as int;
    let ih = pre.spec_image_height() as int;
    let cc = pre.spec_canvas().spec_channels() as int;
    let w = pre.spec_canvas().spec_width() as int;
    let h0 = pre.spec_canvas().spec_height() as int;
    &&& post.wf()
    &&& post.spec_image_width() == pre.spec_image_width()
    &&& post.spec_image_height() == pre.spec_image_height()
    &&& post.spec_num_images_per_row() == pre.spec_num_images_per_row()
    &&& post.spec_canvas().spec_width() == pre.spec_canvas().spec_width()
    &&& post.spec_canvas().spec_channels() == pre.spec_canvas().spec_channels()
    &&& image.spec_width() == pre.spec_image_width()
    &&& image.spec_height() == pre.spec_image_height()
    &&& post.spec_num_images() == pre.spec_num_images() + 1
    &&& post.spec_last_pasted_index() == pre.spec_last_pasted_index() + 1
    &&& post.spec_total_rows() == pre.spec_total_rows()
        + (if pre.spec_is_full() { 1int } else { 0int })
    &&& post.spec_canvas().spec_height() == h0 + (if pre.spec_is_full() { ih } else { 0int })
    &&& forall|c: int, r: int, ch: int|
        0 <= c < iw && 0 <= r < ih && 0 <= ch < cc
            ==> post.spec_canvas().at(sx + c, sy + r, ch) == image.at(c, r, ch)
    &&& forall|px: int, py: int, ch: int|
        0 <= px < w && 0 <= py < h0 && 0 <= ch < cc
            && !(sx <= px < sx + iw && sy <= py < sy + ih)
            ==> post.spec_canvas().at(px, py, ch) == pre.spec_canvas().at(px, py, ch)
    &&& forall|px: int, py: int, ch: int|
        0 <= px < w && h0 <= py < post.spec_canvas().spec_height() && 0 <= ch < cc
            && !(sx <= px < sx + iw && sy <= py < sy + ih)
            ==> post.spec_canvas().at(px, py, ch) == 0u8
    &&& forall|j: int, c: int, r: int, ch: int|
        0 <= j < idx && 0 <= c < iw && 0 <= r < ih && 0 <= ch < cc
            ==> post.spec_slot_pixel(j, c, r, ch) == pre.spec_slot_pixel(j, c, r, ch)
}

/// The canvas of `m` holds the images of `imgs` in insertion order: for
/// every `i`, image `i`'s pixels fill slot `i`'s rectangle.
pub open spec fn grid_holds(m: Merger, imgs: Seq<Image>) -> bool {
    &&& imgs.len() == m.spec_num_images()
    &&& forall|i: int, c: int, r: int, ch: int|
        0 <= i < imgs.len() && 0 <= c < m.spec_image_width() && 0 <= r < m.spec_image_height()
            && 0 <= ch < m.spec_canvas().spec_channels()
            ==> m.spec_slot_pixel(i, c, r, ch) == imgs[i].at(c, r, ch)
}

/// Law: coordinate determinism. If the canvas holds the images pushed so
/// far, each in the slot its 0-based insertion index names (column `i mod
/// num_images_per_row`, row `i div num_images_per_row`, in image-size
/// units), then after one more successful push it holds all of them, the
/// new image included — no matter whether that push grew the canvas.
pub proof fn lemma_coordinate_determinism(pre: Merger, post: Merger, imgs: Seq<Image>, image: Image)
    requires
        pre.wf(),
        push_places(pre, post, image),
        grid_holds(pre, imgs),
    ensures
        grid_holds(post, imgs.push(image)),
{
    let idx = pre.spec_num_images() as int;
    let iw = pre.spec_image_width() as int;
    let ih = pre.spec_image_height() as int;
    let cc = pre.spec_canvas().spec_channels() as int;
    assert forall|i: int, c: int, r: int, ch: int|
        0 <= i < imgs.push(image).len() && 0 <= c < iw && 0 <= r < ih && 0 <= ch < cc
        implies post.spec_slot_pixel(i, c, r, ch) == imgs.push(image)[i].at(c, r, ch) by {
        if i < idx {
            assert(imgs.push(image)[i] == imgs[i]);
            assert(pre.spec_slot_pixel(i, c, r, ch) == imgs[i].at(c, r, ch));
        } else {
            assert(imgs.push(image)[i] == image);
        }
    }
}

/// Law: two distinct slots never share a pixel. If a pixel offset within
/// slot `i`'s rectangle coincides with a pixel offset within slot `j`'s
/// rectangle, then the slots, and the offsets, are the same.
pub proof fn lemma_slot_regions_disjoint(
    n: int,
    iw: int,
    ih: int,
    i: int,
    j: int,
    ci: int,
    ri: int,
    cj: int,
    rj: int,
)
    requires
        n >= 1,
        i >= 0,
        j >= 0,
        0 <= ci < iw,
        0 <= ri < ih,
        0 <= cj < iw,
        0 <= rj < ih,
        slot_col(i, n) * iw + ci == slot_col(j, n) * iw + cj,
        slot_row(i, n) * ih + ri == slot_row(j, n) * ih + rj,
    ensures
        i == j,
        ci == cj,
        ri == rj,
{
    lemma_fundamental_div_mod(i, n);
    lemma_fundamental_div_mod(j, n);
    assert(0 <= i % n < n && 0 <= j % n < n) by (nonlinear_arith)
        requires
            n >= 1,
            i >= 0,
            j >= 0,
    ;
    assert(i % n == j % n && ci == cj) by (nonlinear_arith)
        requires
            (i % n) * iw + ci == (j % n) * iw + cj,
            0 <= ci < iw,
            0 <= cj < iw,
    ;
    assert(i / n == j / n && ri == rj) by (nonlinear_arith)
        requires
            (i / n) * ih + ri == (j / n) * ih + rj,
            0 <= ri < ih,
            0 <= rj < ih,
    ;
}

/// For a slot index within capacity, the slot's column and row are within
/// the grid, and the slot's pixel rectangle lies within a canvas of
/// `n * iw` by `rows * ih` pixels.
proof fn lemma_slot_in_bounds(idx: int, n: int, rows: int, iw: int, ih: int)
    requires
        n >= 1,
        rows >= 1,
        0 <= idx < n * rows,
        iw >= 0,
        ih >= 0,
    ensures
        0 <= slot_col(idx, n) < n,
        0 <= slot_row(idx, n) < rows,
        slot_col(idx, n) * iw + iw <= n * iw,
        slot_row(idx, n) * ih + ih <= rows * ih,
{
    lemma_fundamental_div_mod(idx, n);
    assert(0 <= idx % n < n) by (nonlinear_arith)
        requires
            n >= 1,
            idx >= 0,
    ;
    assert(0 <= idx / n < rows) by (nonlinear_arith)
        requires
            idx == n * (idx / n) + idx % n,
            0 <= idx % n < n,
            0 <= idx < n * rows,
            n >= 1,
    ;
    assert((idx % n) * iw + iw <= n * iw) by (nonlinear_arith)
        requires
            0 <= idx % n < n,
            iw >= 0,
    ;
    assert((idx / n) * ih + ih <= rows * ih) by (nonlinear_arith)
        requires
            0 <= idx / n < rows,
            ih >= 0,
    ;
}

} // verus!
