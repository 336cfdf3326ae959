//! Sizes in pixels.

use vstd::prelude::*;

verus! {

/// The width that the window opens with.
pub const INITIAL_WINDOW_WIDTH: u32 = 960;

/// The height that the window opens with.
pub const INITIAL_WINDOW_HEIGHT: u32 = 960;

/// A size in pixels.
#[derive(Debug, Clone, Copy, PartialEq, Eq, Structural)]
pub struct Extent {
    pub width: u32,
    pub height: u32,
}

impl Extent {
    /// Whether there is no pixel, as in a window that is minimized.
    pub open spec fn is_blank(self) -> bool {
        self.width == 0 || self.height == 0
    }

    /// Whether there is no pixel, as in a window that is minimized.
    pub fn is_empty(&self) -> (r: bool)
        ensures
            r == self.is_blank(),
    {
        self.width == 0 || self.height == 0
    }
}

/// A size has no pixel exactly if its area is zero.
pub proof fn law_blank_sizes_have_no_area(extent: Extent, r: bool)
    requires
        call_ensures(Extent::is_empty, (&extent,), r),
    ensures
        r <==> extent.width * extent.height == 0,
        extent.is_blank() <==> extent.width * extent.height == 0,
{
    assert(extent.width * extent.height == 0 <==> extent.width == 0 || extent.height == 0)
        by (nonlinear_arith);
}

} // verus!
