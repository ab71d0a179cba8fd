//! Packing the frames of an animation into one texture.

use vstd::prelude::*;
use vstd::arithmetic::div_mod::*;
use crate::atlas::{lemma_cell_inside, AtlasLayout, LayoutView};
use crate::picture::{spec_blit, Picture, PictureView};

verus! {

/// The pictures as plain values.
pub open spec fn views(frames: Seq<Picture>) -> Seq<PictureView> {
    frames.map_values(|p: Picture| p@)
}

/// There is one frame for each cell that the layout counts, each of the
/// size of a cell.
pub open spec fn frames_match(frames: Seq<PictureView>, layout: LayoutView) -> bool {
    &&& frames.len() == layout.total_frames
    &&& forall|j: int|
        0 <= j < frames.len() ==> (#[trigger] frames[j]).width == layout.frame_width
            && frames[j].height == layout.frame_height
}

/// The frame whose cell holds the pixel in column `px` of row `py`.
pub open spec fn frame_index_at(layout: LayoutView, px: int, py: int) -> int {
    (py / layout.frame_height) * layout.frames_per_row + px / layout.frame_width
}

/// Byte `i` of the texture once the first `filled` frames are in their
/// cells: a byte of the frame whose cell it lies in, zero in a cell that is
/// still empty.
pub open spec fn atlas_byte(frames: Seq<PictureView>, layout: LayoutView, filled: int, i: int) -> u8 {
    let px = (i / 4) % layout.atlas_width();
    let py = (i / 4) / layout.atlas_width();
    let index = frame_index_at(layout, px, py);
    if index < filled {
        frames[index].channel(px % layout.frame_width, py % layout.frame_height, i % 4)
    } else {
        0u8
    }
}

/// The texture with the first `filled` frames in their cells.
pub open spec fn spec_pack_prefix(frames: Seq<PictureView>, layout: LayoutView, filled: int) -> PictureView {
    PictureView {
        width: layout.atlas_width(),
        height: layout.atlas_height(),
        data: Seq::new(
            (layout.atlas_width() * layout.atlas_height() * 4) as nat,
            |i: int| atlas_byte(frames, layout, filled, i),
        ),
    }
}

/// The texture with every frame in its cell.
pub open spec fn spec_pack(frames: Seq<PictureView>, layout: LayoutView) -> PictureView {
    spec_pack_prefix(frames, layout, frames.len() as int)
}

/// Byte `i` of a picture belongs to a pixel inside it.
pub proof fn lemma_pixel_of_byte(width: int, height: int, i: int)
    requires
        0 < width,
        0 <= i < width * height * 4,
    ensures
        0 <= (i / 4) % width < width,
        0 <= (i / 4) / width < height,
        0 <= i % 4 < 4,
        i == (((i / 4) / width) * width + (i / 4) % width) * 4 + i % 4,
{
    let p = i / 4;
    lemma_fundamental_div_mod(i, 4);
    lemma_fundamental_div_mod(p, width);
    lemma_mod_bound(p, width);
    assert(p < width * height) by (nonlinear_arith)
        requires
            i == 4 * p + i % 4,
            0 <= i % 4,
            i < width * height * 4,
    ;
    assert(0 <= p / width) by {
        lemma_div_pos_is_pos(p, width);
    }
    assert(p / width < height) by (nonlinear_arith)
        requires
            p == width * (p / width) + p % width,
            0 <= p % width,
            p < width * height,
            0 < width,
    ;
    assert((p / width) * width == width * (p / width)) by (nonlinear_arith);
}

/// A pixel of the texture lies in the cell of frame `k` exactly if `k` is
/// the frame that `frame_index_at` gives for it, and then its place in the
/// cell is the remainder of its column and row by the size of a frame.
pub proof fn lemma_cell_membership(layout: LayoutView, k: int, px: int, py: int)
    requires
        layout.wf(),
        0 <= k < layout.total_frames,
        0 <= px < layout.atlas_width(),
        0 <= py < layout.atlas_height(),
    ensures
        (layout.cell_x(k) <= px < layout.cell_x(k) + layout.frame_width && layout.cell_y(k) <= py
            < layout.cell_y(k) + layout.frame_height) <==> frame_index_at(layout, px, py) == k,
        frame_index_at(layout, px, py) == k ==> px - layout.cell_x(k) == px % layout.frame_width
            && py - layout.cell_y(k) == py % layout.frame_height,
        0 <= frame_index_at(layout, px, py),
{
    let fw = layout.frame_width;
    let fh = layout.frame_height;
    let per_row = layout.frames_per_row;
    let col = px / fw;
    let row = py / fh;
    let kc = k % per_row;
    let kr = k / per_row;
    lemma_cell_inside(layout, k);
    lemma_fundamental_div_mod(px, fw);
    lemma_fundamental_div_mod(py, fh);
    lemma_fundamental_div_mod(k, per_row);
    lemma_mod_bound(px, fw);
    lemma_mod_bound(py, fh);
    lemma_div_pos_is_pos(px, fw);
    lemma_div_pos_is_pos(py, fh);
    assert(fw * col == col * fw) by (nonlinear_arith);
    assert(fh * row == row * fh) by (nonlinear_arith);
    assert(col < per_row) by (nonlinear_arith)
        requires
            px == fw * col + px % fw,
            0 <= px % fw,
            px < fw * per_row,
            0 < fw,
    ;
    assert(0 <= row * per_row) by (nonlinear_arith)
        requires
            0 <= row,
            0 < per_row,
    ;
    if layout.cell_x(k) <= px < layout.cell_x(k) + fw && layout.cell_y(k) <= py < layout.cell_y(k)
        + fh {
        assert(kc * fw == fw * kc) by (nonlinear_arith);
        assert(kr * fh == fh * kr) by (nonlinear_arith);
        lemma_fundamental_div_mod_converse(px, fw, kc, px - kc * fw);
        lemma_fundamental_div_mod_converse(py, fh, kr, py - kr * fh);
        assert(kr * per_row == per_row * kr) by (nonlinear_arith);
    }
    if frame_index_at(layout, px, py) == k {
        assert(row * per_row == per_row * row) by (nonlinear_arith);
        lemma_fundamental_div_mod_converse(k, per_row, row, col);
    }
}

/// The texture of no frames is blank.
pub proof fn lemma_pack_start(frames: Seq<PictureView>, layout: LayoutView)
    requires
        layout.wf(),
    ensures
        spec_pack_prefix(frames, layout, 0) == PictureView::blank(
            layout.atlas_width(),
            layout.atlas_height(),
        ),
{
    let w = layout.atlas_width();
    let h = layout.atlas_height();
    assert(w >= 1 && h >= 1) by (nonlinear_arith)
        requires
            layout.wf(),
            w == layout.frame_width * layout.frames_per_row,
            h == layout.frame_height * layout.total_rows,
    ;
    let start = spec_pack_prefix(frames, layout, 0);
    let blank = PictureView::blank(w, h);
    assert forall|i: int| 0 <= i < start.data.len() implies start.data[i] == blank.data[i] by {
        lemma_pixel_of_byte(w, h, i);
        lemma_cell_membership(layout, 0, (i / 4) % w, (i / 4) / w);
    }
    assert(start.data =~= blank.data);
}

/// Copies each frame into its cell of a new texture, which is transparent
/// black in the cells that are left over. Nothing is packed where the
/// frames are not those that the layout was made for.
pub fn pack_frames(frames: &Vec<Picture>, layout: &AtlasLayout) -> (r: Option<Picture>)
    ensures
        r is Some <==> frames_match(views(frames@), layout@),
        r matches Some(atlas) ==> atlas@ == spec_pack(views(frames@), layout@),
{
    let size = layout.atlas_size();
    let frame_size = layout.frame_size();
    let ghost all = views(frames@);
    if frames.len() != layout.total_frames() as usize {
        return None;
    }
    let mut atlas = Picture::blank(size);
    proof {
        lemma_pack_start(all, layout@);
    }
    let mut k: usize = 0;
    while k < frames.len()
        invariant
            k <= frames.len(),
            frames.len() == layout@.total_frames,
            frames.len() <= u32::MAX,
            layout@.wf(),
            all == views(frames@),
            frame_size.width == layout@.frame_width,
            frame_size.height == layout@.frame_height,
            atlas@ == spec_pack_prefix(all, layout@, k as int),
            forall|j: int|
                0 <= j < k ==> (#[trigger] all[j]).width == layout@.frame_width && all[j].height
                    == layout@.frame_height && all[j].wf(),
        decreases frames.len() - k,
    {
        let frame = &frames[k];
        assert(all[k as int] == frame@);
        if frame.width() != frame_size.width || frame.height() != frame_size.height {
            return None;
        }
        match layout.cell_origin(k as u32) {
            Some((x, y)) => {
                atlas.blit(frame, x, y);
            },
            None => {
                return None;
            },
        }
        proof {
            lemma_pack_prefix_step(all, layout@, k as int);
            assert(atlas@.data =~= spec_pack_prefix(all, layout@, k + 1).data);
        }
        k += 1;
    }
    Some(atlas)
}

/// Copying frame `k` into its cell turns the texture of the first `k`
/// frames into that of the first `k + 1`, where the frames up to `k` have
/// the size of a cell.
pub proof fn lemma_pack_prefix_step(frames: Seq<PictureView>, layout: LayoutView, k: int)
    requires
        layout.wf(),
        frames.len() == layout.total_frames,
        0 <= k < frames.len(),
        forall|j: int|
            0 <= j <= k ==> (#[trigger] frames[j]).width == layout.frame_width && frames[j].height
                == layout.frame_height && frames[j].wf(),
    ensures
        spec_blit(
            spec_pack_prefix(frames, layout, k),
            frames[k],
            layout.cell_x(k),
            layout.cell_y(k),
        ) =~= spec_pack_prefix(frames, layout, k + 1).data,
{
    let before = spec_pack_prefix(frames, layout, k);
    let after = spec_pack_prefix(frames, layout, k + 1);
    let blitted = spec_blit(before, frames[k], layout.cell_x(k), layout.cell_y(k));
    let w = layout.atlas_width();
    let h = layout.atlas_height();
    assert(w >= 1 && h >= 1) by (nonlinear_arith)
        requires
            layout.wf(),
            w == layout.frame_width * layout.frames_per_row,
            h == layout.frame_height * layout.total_rows,
    ;
    assert forall|i: int| 0 <= i < blitted.len() implies blitted[i] == after.data[i] by {
        lemma_pixel_of_byte(w, h, i);
        lemma_cell_membership(layout, k, (i / 4) % w, (i / 4) / w);
    }
}

} // verus!
