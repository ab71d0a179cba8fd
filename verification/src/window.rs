//! The size of the window.

use vstd::prelude::*;
use crate::schedule::Event;
use crate::size::Size;

verus! {

/// The size of the window's drawing area.
#[derive(Debug)]
pub struct WindowSize(pub Size);

/// Raised when the window got another size.
#[derive(Clone, Copy, Debug, PartialEq, Eq, Structural)]
pub struct ResizeEvent;

impl Event for ResizeEvent {

}

impl WindowSize {
    #[inline]
    pub fn inner(&self) -> (r: Size)
        ensures
            r == self.0,
    {
        self.0
    }

    #[inline]
    pub fn width(&self) -> (r: u32)
        ensures
            r == self.0.width,
    {
        self.0.width
    }

    #[inline]
    pub fn height(&self) -> (r: u32)
        ensures
            r == self.0.height,
    {
        self.0.height
    }

    /// Takes the window's new size. A size with a side of zero, as a
    /// minimised window reports it, is ignored; any other is kept, and the
    /// event says so.
    pub fn resize(&mut self, new_size: Size) -> (r: Option<ResizeEvent>)
        ensures
            new_size.spec_is_solid() ==> final(self).0 == new_size && r == Some(ResizeEvent),
            !new_size.spec_is_solid() ==> final(self).0 == old(self).0 && r is None,
    {
        if new_size.width == 0 || new_size.height == 0 {
            return None;
        }
        self.0 = new_size;
        Some(ResizeEvent)
    }
}

} // verus!
