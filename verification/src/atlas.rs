//! Sizing rules: how far an image is shrunk, and how the frames of an
//! animation are laid out in one texture.

use vstd::prelude::*;
use vstd::arithmetic::div_mod::*;
use vstd::arithmetic::mul::*;
use crate::size::Size;

verus! {

pub const MAX_TEXTURE_WIDTH: u32 = 8192;

pub const MAX_TEXTURE_HEIGHT: u32 = 8192;

pub const MAX_USABLE_IMAGE_WIDTH: u32 = 960;

pub const MAX_USABLE_IMAGE_HEIGHT: u32 = 1080;

/// The largest image that is kept as it is, and the largest texture that can
/// be made.
#[derive(Clone, Copy, Debug)]
pub struct Limits {
    max_usable_width: u32,
    max_usable_height: u32,
    max_texture_width: u32,
    max_texture_height: u32,
}

/// What `Limits` holds, as plain numbers.
pub struct LimitsView {
    pub max_usable_width: int,
    pub max_usable_height: int,
    pub max_texture_width: int,
    pub max_texture_height: int,
}

impl LimitsView {
    /// No limit is zero, a usable image fits in a texture, and the bytes of a
    /// full texture can be counted in an `i32`.
    pub open spec fn wf(self) -> bool {
        &&& 0 < self.max_usable_width <= self.max_texture_width
        &&& 0 < self.max_usable_height <= self.max_texture_height
        &&& self.max_texture_width * self.max_texture_height * 4 <= i32::MAX
    }
}

impl View for Limits {
    type V = LimitsView;

    closed spec fn view(&self) -> LimitsView {
        LimitsView {
            max_usable_width: self.max_usable_width as int,
            max_usable_height: self.max_usable_height as int,
            max_texture_width: self.max_texture_width as int,
            max_texture_height: self.max_texture_height as int,
        }
    }
}

impl Limits {
    #[verifier::type_invariant]
    spec fn valid(self) -> bool {
        self@.wf()
    }

    /// The limits of the four numbers, where they are well-formed.
    pub fn new(
        max_usable_width: u32,
        max_usable_height: u32,
        max_texture_width: u32,
        max_texture_height: u32,
    ) -> (r: Option<Limits>)
        ensures
            r is Some <==> (LimitsView {
                max_usable_width: max_usable_width as int,
                max_usable_height: max_usable_height as int,
                max_texture_width: max_texture_width as int,
                max_texture_height: max_texture_height as int,
            }).wf(),
            r matches Some(l) ==> l@ == (LimitsView {
                max_usable_width: max_usable_width as int,
                max_usable_height: max_usable_height as int,
                max_texture_width: max_texture_width as int,
                max_texture_height: max_texture_height as int,
            }),
    {
        if max_usable_width == 0 || max_usable_height == 0 || max_usable_width > max_texture_width
            || max_usable_height > max_texture_height {
            return None;
        }
        proof {
            lemma_mul_upper_bound(
                max_texture_width as int,
                u32::MAX as int,
                max_texture_height as int,
                u32::MAX as int,
            );
        }
        let area: u64 = max_texture_width as u64 * max_texture_height as u64;
        if area > (i32::MAX / 4) as u64 {
            return None;
        }
        Some(Limits { max_usable_width, max_usable_height, max_texture_width, max_texture_height })
    }

    /// Images up to 960 by 1080 are kept; textures go up to 8192 by 8192.
    pub fn standard() -> (r: Limits)
        ensures
            r@ == (LimitsView {
                max_usable_width: MAX_USABLE_IMAGE_WIDTH as int,
                max_usable_height: MAX_USABLE_IMAGE_HEIGHT as int,
                max_texture_width: MAX_TEXTURE_WIDTH as int,
                max_texture_height: MAX_TEXTURE_HEIGHT as int,
            }),
    {
        Limits {
            max_usable_width: MAX_USABLE_IMAGE_WIDTH,
            max_usable_height: MAX_USABLE_IMAGE_HEIGHT,
            max_texture_width: MAX_TEXTURE_WIDTH,
            max_texture_height: MAX_TEXTURE_HEIGHT,
        }
    }

    pub fn max_usable_width(&self) -> (r: u32)
        ensures
            r == self@.max_usable_width,
            self@.wf(),
    {
        proof {
            use_type_invariant(self);
        }
        self.max_usable_width
    }

    pub fn max_usable_height(&self) -> (r: u32)
        ensures
            r == self@.max_usable_height,
            self@.wf(),
    {
        proof {
            use_type_invariant(self);
        }
        self.max_usable_height
    }

    pub fn max_texture_width(&self) -> (r: u32)
        ensures
            r == self@.max_texture_width,
            self@.wf(),
    {
        proof {
            use_type_invariant(self);
        }
        self.max_texture_width
    }

    pub fn max_texture_height(&self) -> (r: u32)
        ensures
            r == self@.max_texture_height,
            self@.wf(),
    {
        proof {
            use_type_invariant(self);
        }
        self.max_texture_height
    }
}

pub open spec fn spec_min(a: int, b: int) -> int {
    if a <= b {
        a
    } else {
        b
    }
}

/// Each side capped on its own: the size that a still image is shrunk to.
pub open spec fn spec_cap_size(size: Size, limits: LimitsView) -> (int, int) {
    (
        spec_min(size.width as int, limits.max_usable_width),
        spec_min(size.height as int, limits.max_usable_height),
    )
}

/// `len * num / den`, rounded to the nearest whole number (a half goes up),
/// and never less than 1.
pub open spec fn spec_scale(len: int, num: int, den: int) -> int {
    let rounded = (len * num + den / 2) / den;
    if rounded < 1 {
        1
    } else {
        rounded
    }
}

/// The size that an animation's frames are shrunk to: both sides scaled by
/// the smaller of the two ratios that bring a side under its limit. An empty
/// size stays as it is.
pub open spec fn spec_fit_frame_size(size: Size, limits: LimitsView) -> (int, int) {
    let w = size.width as int;
    let h = size.height as int;
    let cw = spec_min(w, limits.max_usable_width);
    let ch = spec_min(h, limits.max_usable_height);
    if w == 0 || h == 0 {
        (w, h)
    } else if cw * h <= ch * w {
        (spec_scale(w, cw, w), spec_scale(h, cw, w))
    } else {
        (spec_scale(w, ch, h), spec_scale(h, ch, h))
    }
}

/// Scaling by a ratio of at most one gives at most the length, and at most
/// any whole number that the exact quotient does not pass.
pub proof fn lemma_scale_bounds(len: int, num: int, den: int, cap: int)
    requires
        0 < len,
        0 < num <= den,
        1 <= cap,
        len * num <= cap * den,
    ensures
        1 <= spec_scale(len, num, den) <= cap,
{
    let rounded = (len * num + den / 2) / den;
    assert(len * num + den / 2 < cap * den + den) by (nonlinear_arith)
        requires
            len * num <= cap * den,
            0 < den,
    ;
    assert(cap * den + den == (cap + 1) * den) by (nonlinear_arith);
    lemma_div_by_multiple_is_strongly_ordered(
        len * num + den / 2,
        (cap + 1) * den,
        cap + 1,
        den,
    );
    lemma_div_by_multiple(cap + 1, den);
}

/// Scaling a length by itself over itself keeps it.
pub proof fn lemma_scale_whole(len: int, num: int)
    requires
        0 < len,
        0 < num,
    ensures
        spec_scale(len, num, len) == num,
{
    assert(len * num == num * len) by (nonlinear_arith);
    lemma_fundamental_div_mod_converse(len * num + len / 2, len, num, len / 2);
}

/// A fitted frame is at least one pixel a side and within the usable limits,
/// and never larger than it was.
pub proof fn lemma_fit_within(size: Size, limits: LimitsView)
    requires
        limits.wf(),
        size.spec_is_solid(),
    ensures
        1 <= spec_fit_frame_size(size, limits).0 <= limits.max_usable_width,
        1 <= spec_fit_frame_size(size, limits).1 <= limits.max_usable_height,
        spec_fit_frame_size(size, limits).0 <= size.width,
        spec_fit_frame_size(size, limits).1 <= size.height,
{
    let w = size.width as int;
    let h = size.height as int;
    let cw = spec_min(w, limits.max_usable_width);
    let ch = spec_min(h, limits.max_usable_height);
    if cw * h <= ch * w {
        lemma_scale_whole(w, cw);
        assert(h * cw == cw * h) by (nonlinear_arith);
        lemma_scale_bounds(h, cw, w, ch);
    } else {
        lemma_scale_whole(h, ch);
        assert(w * ch <= cw * h) by (nonlinear_arith)
            requires
                cw * h > ch * w,
        ;
        lemma_scale_bounds(w, ch, h, cw);
    }
}

/// A frame within the usable limits is not changed.
pub proof fn lemma_fit_keeps_small(size: Size, limits: LimitsView)
    requires
        limits.wf(),
        size.width <= limits.max_usable_width,
        size.height <= limits.max_usable_height,
    ensures
        spec_fit_frame_size(size, limits) == (size.width as int, size.height as int),
{
    let w = size.width as int;
    let h = size.height as int;
    if w > 0 && h > 0 {
        lemma_scale_whole(w, w);
        if w * h <= h * w {
            lemma_scale_whole(w, h);
            assert(h * w == w * h) by (nonlinear_arith);
        } else {
            assert(false) by (nonlinear_arith)
                requires
                    w * h > h * w,
            ;
        }
    }
}

/// Whether a still image of this size is shrunk.
pub fn exceeds_usable(size: Size, limits: &Limits) -> (b: bool)
    ensures
        b == (size.width > limits@.max_usable_width || size.height > limits@.max_usable_height),
{
    size.width > limits.max_usable_width() || size.height > limits.max_usable_height()
}

/// The size that a still image is shrunk to: each side capped on its own.
pub fn cap_size(size: Size, limits: &Limits) -> (r: Size)
    ensures
        (r.width as int, r.height as int) == spec_cap_size(size, limits@),
        r.width <= limits@.max_usable_width,
        r.height <= limits@.max_usable_height,
{
    let max_w = limits.max_usable_width();
    let max_h = limits.max_usable_height();
    Size {
        width: if size.width <= max_w {
            size.width
        } else {
            max_w
        },
        height: if size.height <= max_h {
            size.height
        } else {
            max_h
        },
    }
}

fn scale(len: u32, num: u32, den: u32) -> (r: u32)
    requires
        0 < len,
        0 < num <= den,
    ensures
        r == spec_scale(len as int, num as int, den as int),
        1 <= r <= len,
{
    proof {
        assert(len * num <= len * den) by (nonlinear_arith)
            requires
                num <= den,
                0 < len,
        ;
        lemma_scale_bounds(len as int, num as int, den as int, len as int);
        lemma_mul_upper_bound(len as int, u32::MAX as int, num as int, u32::MAX as int);
        assert((len * num + den / 2) / (den as int) >= 0) by (nonlinear_arith)
            requires
                len * num >= 0,
                den > 0,
        ;
    }
    let rounded: u64 = (len as u64 * num as u64 + den as u64 / 2) / den as u64;
    if rounded < 1 {
        1
    } else {
        rounded as u32
    }
}

/// The size that an animation's frames are shrunk to, keeping their shape.
pub fn fit_frame_size(size: Size, limits: &Limits) -> (r: Size)
    ensures
        (r.width as int, r.height as int) == spec_fit_frame_size(size, limits@),
        size.spec_is_solid() ==> r.spec_is_solid() && r.width <= limits@.max_usable_width
            && r.height <= limits@.max_usable_height,
{
    if size.width == 0 || size.height == 0 {
        return size;
    }
    let capped = cap_size(size, limits);
    proof {
        use_type_invariant(limits);
        lemma_fit_within(size, limits@);
        lemma_mul_upper_bound(
            capped.width as int,
            u32::MAX as int,
            size.height as int,
            u32::MAX as int,
        );
        lemma_mul_upper_bound(
            capped.height as int,
            u32::MAX as int,
            size.width as int,
            u32::MAX as int,
        );
    }
    if capped.width as u64 * size.height as u64 <= capped.height as u64 * size.width as u64 {
        Size {
            width: scale(size.width, capped.width, size.width),
            height: scale(size.height, capped.width, size.width),
        }
    } else {
        Size {
            width: scale(size.width, capped.height, size.height),
            height: scale(size.height, capped.height, size.height),
        }
    }
}

/// Why no grid of frames was laid out.
#[derive(Clone, Copy, Debug, PartialEq, Eq, Structural)]
pub enum AtlasError {
    /// There is no frame to lay out.
    NoFrames,
    /// A frame has no pixels.
    EmptyFrame,
    /// One frame alone is larger than a texture.
    FrameTooLarge,
    /// The rows of frames are together higher than a texture.
    AtlasTooLarge,
}

/// A grid of equal cells, one for each frame of an animation, filled row by
/// row.
#[derive(Clone, Copy, Debug)]
pub struct AtlasLayout {
    total_frames: u32,
    frames_per_row: u32,
    total_rows: u32,
    frame_size: Size,
}

/// What `AtlasLayout` holds, as plain numbers.
pub struct LayoutView {
    pub total_frames: int,
    pub frames_per_row: int,
    pub total_rows: int,
    pub frame_width: int,
    pub frame_height: int,
}

impl LayoutView {
    pub open spec fn atlas_width(self) -> int {
        self.frame_width * self.frames_per_row
    }

    pub open spec fn atlas_height(self) -> int {
        self.frame_height * self.total_rows
    }

    /// The left edge of the cell of frame `index`.
    pub open spec fn cell_x(self, index: int) -> int {
        (index % self.frames_per_row) * self.frame_width
    }

    /// The top edge of the cell of frame `index`.
    pub open spec fn cell_y(self, index: int) -> int {
        (index / self.frames_per_row) * self.frame_height
    }

    /// There is a frame, it has pixels, every frame has a cell, no row is
    /// empty, and the bytes of the whole texture can be counted in an `i32`.
    pub open spec fn wf(self) -> bool {
        &&& self.total_frames >= 1
        &&& self.frames_per_row >= 1
        &&& self.total_rows >= 1
        &&& self.frame_width >= 1
        &&& self.frame_height >= 1
        &&& (self.total_rows - 1) * self.frames_per_row < self.total_frames
        &&& self.total_frames <= self.total_rows * self.frames_per_row
        &&& self.atlas_width() * self.atlas_height() * 4 <= i32::MAX
    }

    /// The layout of one frame alone.
    pub open spec fn single(frame: Size) -> LayoutView {
        LayoutView {
            total_frames: 1,
            frames_per_row: 1,
            total_rows: 1,
            frame_width: frame.width as int,
            frame_height: frame.height as int,
        }
    }
}

/// The rows that `count` frames take at `per_row` frames a row.
pub open spec fn spec_rows(count: int, per_row: int) -> int {
    (count + per_row - 1) / per_row
}

/// The grid for `count` frames of size `frame`: as many frames a row as fit
/// in the width of a texture, and the rows that this takes, where those fit
/// in its height.
pub open spec fn spec_plan_atlas(count: int, frame: Size, limits: LimitsView) -> Result<
    LayoutView,
    AtlasError,
> {
    let per_row = limits.max_texture_width / (frame.width as int);
    let rows = spec_rows(count, per_row);
    if count == 0 {
        Err(AtlasError::NoFrames)
    } else if frame.width == 0 || frame.height == 0 {
        Err(AtlasError::EmptyFrame)
    } else if frame.width > limits.max_texture_width || frame.height > limits.max_texture_height {
        Err(AtlasError::FrameTooLarge)
    } else if frame.height * rows > limits.max_texture_height {
        Err(AtlasError::AtlasTooLarge)
    } else {
        Ok(
            LayoutView {
                total_frames: count,
                frames_per_row: per_row,
                total_rows: rows,
                frame_width: frame.width as int,
                frame_height: frame.height as int,
            },
        )
    }
}

/// `spec_rows` is the least number of rows that holds all frames.
pub proof fn lemma_rows(count: int, per_row: int)
    requires
        count >= 1,
        per_row >= 1,
    ensures
        1 <= spec_rows(count, per_row) <= count,
        (spec_rows(count, per_row) - 1) * per_row < count,
        count <= spec_rows(count, per_row) * per_row,
{
    let rows = spec_rows(count, per_row);
    let top = count + per_row - 1;
    lemma_fundamental_div_mod(top, per_row);
    lemma_mod_bound(top, per_row);
    assert(top == per_row * rows + top % per_row);
    assert(per_row * rows == rows * per_row) by (nonlinear_arith);
    assert((rows - 1) * per_row == rows * per_row - per_row) by (nonlinear_arith);
    assert(rows >= 1) by (nonlinear_arith)
        requires
            rows * per_row > count - 1,
            count >= 1,
            per_row >= 1,
    ;
    assert(rows <= count) by (nonlinear_arith)
        requires
            (rows - 1) * per_row < count,
            per_row >= 1,
            rows >= 1,
    ;
}

/// A grid that was laid out keeps to the limits of a texture in both
/// directions, has a cell for every frame, and is well-formed.
pub proof fn lemma_plan_within_limits(count: int, frame: Size, limits: LimitsView)
    requires
        limits.wf(),
        0 <= count,
        spec_plan_atlas(count, frame, limits) is Ok,
    ensures
        ({
            let layout = spec_plan_atlas(count, frame, limits)->Ok_0;
            &&& layout.wf()
            &&& layout.frames_per_row * layout.frame_width <= limits.max_texture_width
            &&& layout.total_rows * layout.frame_height <= limits.max_texture_height
            &&& layout.atlas_width() <= limits.max_texture_width
            &&& layout.atlas_height() <= limits.max_texture_height
        }),
{
    let layout = spec_plan_atlas(count, frame, limits)->Ok_0;
    let fw = frame.width as int;
    let fh = frame.height as int;
    let per_row = layout.frames_per_row;
    let rows = layout.total_rows;
    lemma_fundamental_div_mod(limits.max_texture_width, fw);
    lemma_mod_bound(limits.max_texture_width, fw);
    assert(per_row >= 1) by {
        lemma_div_non_zero(limits.max_texture_width, fw);
    }
    lemma_rows(count, per_row);
    assert(per_row * fw == fw * per_row) by (nonlinear_arith);
    assert(rows * fh == fh * rows) by (nonlinear_arith);
    assert(layout.atlas_width() * layout.atlas_height() <= limits.max_texture_width
        * limits.max_texture_height) by (nonlinear_arith)
        requires
            0 <= layout.atlas_width() <= limits.max_texture_width,
            0 <= layout.atlas_height() <= limits.max_texture_height,
    ;
}

/// The cell of a frame lies inside the texture.
pub proof fn lemma_cell_inside(layout: LayoutView, index: int)
    requires
        layout.wf(),
        0 <= index < layout.total_frames,
    ensures
        0 <= layout.cell_x(index),
        layout.cell_x(index) + layout.frame_width <= layout.atlas_width(),
        0 <= layout.cell_y(index),
        layout.cell_y(index) + layout.frame_height <= layout.atlas_height(),
        0 <= index % layout.frames_per_row < layout.frames_per_row,
        0 <= index / layout.frames_per_row < layout.total_rows,
{
    let per_row = layout.frames_per_row;
    let col = index % per_row;
    let row = index / per_row;
    lemma_fundamental_div_mod(index, per_row);
    lemma_mod_bound(index, per_row);
    assert(0 <= row) by {
        lemma_div_pos_is_pos(index, per_row);
    }
    assert(row < layout.total_rows) by (nonlinear_arith)
        requires
            index == per_row * row + col,
            0 <= col,
            index < layout.total_rows * per_row,
            per_row >= 1,
    ;
    assert(col * layout.frame_width + layout.frame_width <= layout.frame_width * per_row)
        by (nonlinear_arith)
        requires
            0 <= col < per_row,
            layout.frame_width >= 1,
    ;
    assert(row * layout.frame_height + layout.frame_height <= layout.frame_height
        * layout.total_rows) by (nonlinear_arith)
        requires
            0 <= row < layout.total_rows,
            layout.frame_height >= 1,
    ;
    assert(0 <= col * layout.frame_width) by (nonlinear_arith)
        requires
            0 <= col,
            layout.frame_width >= 1,
    ;
    assert(0 <= row * layout.frame_height) by (nonlinear_arith)
        requires
            0 <= row,
            layout.frame_height >= 1,
    ;
}

impl View for AtlasLayout {
    type V = LayoutView;

    closed spec fn view(&self) -> LayoutView {
        LayoutView {
            total_frames: self.total_frames as int,
            frames_per_row: self.frames_per_row as int,
            total_rows: self.total_rows as int,
            frame_width: self.frame_size.width as int,
            frame_height: self.frame_size.height as int,
        }
    }
}

impl AtlasLayout {
    #[verifier::type_invariant]
    spec fn valid(self) -> bool {
        self@.wf()
    }

    /// The layout of the four values, where it is well-formed.
    pub fn new(total_frames: u32, frames_per_row: u32, total_rows: u32, frame_size: Size) -> (r:
        Option<AtlasLayout>)
        ensures
            r is Some <==> (LayoutView {
                total_frames: total_frames as int,
                frames_per_row: frames_per_row as int,
                total_rows: total_rows as int,
                frame_width: frame_size.width as int,
                frame_height: frame_size.height as int,
            }).wf(),
            r matches Some(l) ==> l@ == (LayoutView {
                total_frames: total_frames as int,
                frames_per_row: frames_per_row as int,
                total_rows: total_rows as int,
                frame_width: frame_size.width as int,
                frame_height: frame_size.height as int,
            }),
    {
        if total_frames == 0 || frames_per_row == 0 || total_rows == 0 || frame_size.width == 0
            || frame_size.height == 0 {
            return None;
        }
        proof {
            lemma_mul_upper_bound(
                total_rows as int,
                u32::MAX as int,
                frames_per_row as int,
                u32::MAX as int,
            );
            lemma_mul_upper_bound(
                total_rows as int - 1,
                u32::MAX as int,
                frames_per_row as int,
                u32::MAX as int,
            );
            lemma_mul_upper_bound(
                frame_size.width as int,
                u32::MAX as int,
                frames_per_row as int,
                u32::MAX as int,
            );
            lemma_mul_upper_bound(
                frame_size.height as int,
                u32::MAX as int,
                total_rows as int,
                u32::MAX as int,
            );
        }
        let cells: u64 = total_rows as u64 * frames_per_row as u64;
        let before_last: u64 = (total_rows as u64 - 1) * frames_per_row as u64;
        if before_last >= total_frames as u64 || total_frames as u64 > cells {
            return None;
        }
        let width: u64 = frame_size.width as u64 * frames_per_row as u64;
        let height: u64 = frame_size.height as u64 * total_rows as u64;
        let quarter: u64 = (i32::MAX / 4) as u64;
        proof {
            assert(width >= 1 && height >= 1) by (nonlinear_arith)
                requires
                    width == frame_size.width * frames_per_row,
                    height == frame_size.height * total_rows,
                    frame_size.width >= 1,
                    frames_per_row >= 1,
                    frame_size.height >= 1,
                    total_rows >= 1,
            ;
        }
        if width > quarter || height > quarter {
            proof {
                assert(width * height * 4 > i32::MAX) by (nonlinear_arith)
                    requires
                        width > quarter || height > quarter,
                        width >= 1,
                        height >= 1,
                        quarter == i32::MAX / 4,
                ;
            }
            return None;
        }
        proof {
            lemma_mul_upper_bound(width as int, quarter as int, height as int, quarter as int);
        }
        if width * height > quarter {
            return None;
        }
        Some(AtlasLayout { total_frames, frames_per_row, total_rows, frame_size })
    }

    /// The layout of one frame alone, where the frame has pixels and its
    /// bytes can be counted in an `i32`.
    pub fn single(frame_size: Size) -> (r: Option<AtlasLayout>)
        ensures
            r is Some <==> LayoutView::single(frame_size).wf(),
            r matches Some(l) ==> l@ == LayoutView::single(frame_size),
    {
        AtlasLayout::new(1, 1, 1, frame_size)
    }

    pub fn total_frames(&self) -> (r: u32)
        ensures
            r == self@.total_frames,
            self@.wf(),
    {
        proof {
            use_type_invariant(self);
        }
        self.total_frames
    }

    pub fn frames_per_row(&self) -> (r: u32)
        ensures
            r == self@.frames_per_row,
            self@.wf(),
    {
        proof {
            use_type_invariant(self);
        }
        self.frames_per_row
    }

    pub fn total_rows(&self) -> (r: u32)
        ensures
            r == self@.total_rows,
            self@.wf(),
    {
        proof {
            use_type_invariant(self);
        }
        self.total_rows
    }

    pub fn frame_size(&self) -> (r: Size)
        ensures
            r.width == self@.frame_width,
            r.height == self@.frame_height,
            self@.wf(),
    {
        proof {
            use_type_invariant(self);
        }
        self.frame_size
    }

    /// The size of the whole texture.
    pub fn atlas_size(&self) -> (r: Size)
        ensures
            r.width == self@.atlas_width(),
            r.height == self@.atlas_height(),
            self@.wf(),
    {
        proof {
            use_type_invariant(self);
            assert(self@.atlas_width() >= 1 && self@.atlas_height() >= 1) by (nonlinear_arith)
                requires
                    self@.wf(),
            ;
            assert(self@.atlas_width() <= i32::MAX && self@.atlas_height() <= i32::MAX)
                by (nonlinear_arith)
                requires
                    self@.atlas_width() >= 1,
                    self@.atlas_height() >= 1,
                    self@.atlas_width() * self@.atlas_height() * 4 <= i32::MAX,
            ;
        }
        Size {
            width: self.frame_size.width * self.frames_per_row,
            height: self.frame_size.height * self.total_rows,
        }
    }

    /// The top left corner of the cell of frame `index`: column
    /// `index % frames_per_row`, row `index / frames_per_row`. No frame, no
    /// cell.
    pub fn cell_origin(&self, index: u32) -> (r: Option<(u32, u32)>)
        ensures
            r is Some <==> index < self@.total_frames,
            r matches Some((x, y)) ==> {
                &&& x == self@.cell_x(index as int)
                &&& y == self@.cell_y(index as int)
                &&& x + self@.frame_width <= self@.atlas_width()
                &&& y + self@.frame_height <= self@.atlas_height()
            },
    {
        if index >= self.total_frames {
            return None;
        }
        let size = self.atlas_size();
        proof {
            lemma_cell_inside(self@, index as int);
        }
        let x = index % self.frames_per_row * self.frame_size.width;
        let y = index / self.frames_per_row * self.frame_size.height;
        Some((x, y))
    }
}

/// Lays out `frame_count` frames of size `frame_size` in a grid, as many a
/// row as fit in the width of a texture.
pub fn plan_atlas(frame_count: u32, frame_size: Size, limits: &Limits) -> (r: Result<
    AtlasLayout,
    AtlasError,
>)
    ensures
        r is Ok <==> spec_plan_atlas(frame_count as int, frame_size, limits@) is Ok,
        r matches Ok(layout) ==> {
            &&& Ok::<LayoutView, AtlasError>(layout@) == spec_plan_atlas(
                frame_count as int,
                frame_size,
                limits@,
            )
            &&& layout@.frames_per_row * layout@.frame_width <= limits@.max_texture_width
            &&& layout@.total_rows * layout@.frame_height <= limits@.max_texture_height
        },
        r matches Err(e) ==> Err::<LayoutView, AtlasError>(e) == spec_plan_atlas(
            frame_count as int,
            frame_size,
            limits@,
        ),
{
    let max_w = limits.max_texture_width();
    let max_h = limits.max_texture_height();
    if frame_count == 0 {
        return Err(AtlasError::NoFrames);
    }
    if frame_size.width == 0 || frame_size.height == 0 {
        return Err(AtlasError::EmptyFrame);
    }
    if frame_size.width > max_w || frame_size.height > max_h {
        return Err(AtlasError::FrameTooLarge);
    }
    let per_row: u32 = max_w / frame_size.width;
    proof {
        lemma_div_non_zero(max_w as int, frame_size.width as int);
        lemma_rows(frame_count as int, per_row as int);
    }
    let rows: u32 = ((frame_count as u64 + per_row as u64 - 1) / per_row as u64) as u32;
    proof {
        lemma_mul_upper_bound(
            frame_size.height as int,
            u32::MAX as int,
            rows as int,
            u32::MAX as int,
        );
    }
    if frame_size.height as u64 * rows as u64 > max_h as u64 {
        return Err(AtlasError::AtlasTooLarge);
    }
    proof {
        lemma_plan_within_limits(frame_count as int, frame_size, limits@);
    }
    Ok(
        AtlasLayout {
            total_frames: frame_count,
            frames_per_row: per_row,
            total_rows: rows,
            frame_size,
        },
    )
}

} // verus!
