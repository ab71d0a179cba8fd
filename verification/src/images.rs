//! What an image on screen is made of.

use vstd::prelude::*;
use crate::delay::{GifFrameDelay, Millis};
use crate::size::Size;
use crate::storage::{Gif, TextureHandle, TextureID};

verus! {

/// Marks an entity as an image.
#[derive(Clone, Copy, Debug, PartialEq, Eq, Structural)]
pub struct Image;

/// A still image and the texture it is drawn from.
#[derive(Clone, Copy, Debug, PartialEq, Eq, Structural)]
pub struct StandardImage {
    pub id: TextureID,
    pub texture: TextureHandle,
}

/// An animation, and the frame that it shows.
#[derive(Clone, Copy, Debug, PartialEq, Eq, Structural)]
pub struct GifImage {
    pub id: TextureID,
    pub frame: u32,
    pub total_frames: u32,
    pub frames_per_row: u32,
    pub gif: Gif,
}

/// How long the frame of an animation has been shown, and how long each
/// frame is to be shown.
#[derive(Debug)]
pub struct GifTimer {
    pub acc: Millis,
    pub delay: GifFrameDelay,
}

/// The size of the texture that an image is drawn from.
#[derive(Clone, Copy, Debug, PartialEq, Eq, Structural)]
pub struct ImageMeta {
    pub texture_resolution: Size,
}

/// The place of an image in the grid, counted from zero.
#[derive(Clone, Copy, Debug, PartialEq, Eq, Structural)]
pub struct ImageIndex {
    pub index: u32,
}

/// Marks an image that has to be drawn anew.
#[derive(Clone, Copy, Debug, PartialEq, Eq, Structural)]
pub struct ImageDirty;

/// Marks the image under the pointer.
#[derive(Clone, Copy, Debug, PartialEq, Eq, Structural)]
pub struct ImageHovered;

/// Marks the image that was picked.
#[derive(Clone, Copy, Debug, PartialEq, Eq, Structural)]
pub struct ImageSelected;

/// Marks the large copy of the image that was picked.
#[derive(Clone, Copy, Debug, PartialEq, Eq, Structural)]
pub struct ImageShown;

/// Marks an entity that is taken away at the end of the tick.
#[derive(Clone, Copy, Debug, PartialEq, Eq, Structural)]
pub struct ToRemove;

/// The frame after `frame` in an animation of `total_frames` frames: the
/// next one, or the first after the last.
pub open spec fn spec_next_frame(frame: u32, total_frames: u32) -> u32 {
    if frame + 1 >= total_frames {
        0
    } else {
        (frame + 1) as u32
    }
}

/// The time that has passed after `delta` more, held at the most that a
/// `u64` counts.
pub open spec fn spec_elapsed(acc: Millis, delta: Millis) -> Millis {
    if acc.0 + delta.0 > u64::MAX {
        Millis(u64::MAX)
    } else {
        Millis((acc.0 + delta.0) as u64)
    }
}

impl GifImage {
    /// The column and the row of the cell that the frame on show has in
    /// the texture; nothing where the animation has no frame in a row.
    pub fn frame_cell(&self) -> (r: Option<(u32, u32)>)
        ensures
            self.frames_per_row == 0 ==> r is None,
            self.frames_per_row > 0 ==> r == Some(
                (self.frame % self.frames_per_row, self.frame / self.frames_per_row),
            ),
    {
        if self.frames_per_row == 0 {
            None
        } else {
            Some((self.frame % self.frames_per_row, self.frame / self.frames_per_row))
        }
    }

    /// Lets `delta` pass. Once the frame on show has been shown for longer
    /// than its delay, the next frame is shown, the first one after the
    /// last, and the time starts at zero again. Says whether the frame
    /// changed, so that the image is drawn anew.
    pub fn tick(&mut self, timer: &mut GifTimer, delta: Millis) -> (changed: bool)
        ensures
            changed == (spec_elapsed(old(timer).acc, delta).0 > old(timer).delay.spec_delay(
                old(self).frame as int,
            ).0),
            final(timer).delay == old(timer).delay,
            changed ==> final(timer).acc == Millis(0) && *final(self) == (GifImage {
                frame: spec_next_frame(old(self).frame, old(self).total_frames),
                ..*old(self)
            }),
            !changed ==> final(timer).acc == spec_elapsed(old(timer).acc, delta) && *final(self)
                == *old(self),
    {
        let elapsed = if timer.acc.0 > u64::MAX - delta.0 {
            Millis(u64::MAX)
        } else {
            Millis(timer.acc.0 + delta.0)
        };
        let delay = timer.delay.get_delay(&self.frame);
        if elapsed.0 > delay.0 {
            timer.acc = Millis(0);
            self.frame = if self.frame >= u32::MAX || self.frame + 1 >= self.total_frames {
                0
            } else {
                self.frame + 1
            };
            true
        } else {
            timer.acc = elapsed;
            false
        }
    }
}

} // verus!
