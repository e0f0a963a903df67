//! Where the visible window lies in the controller's memory.
//!
//! The controller addresses 320 lines. A panel that shows fewer leaves a gap,
//! and in the two swapped orientations the gap lies before the visible
//! window, so every coordinate on one axis has to be shifted past it.

use vstd::prelude::*;

use crate::enums::Orientation;

verus! {

/// The number of lines the controller addresses.
pub const NATIVE_LINES: u16 = 320;

/// An orientation together with the shift of the visible window that goes
/// with it.
#[derive(Clone, Copy, Debug, PartialEq, Eq, Structural)]
pub struct Addressing {
    pub orientation: Orientation,
    pub x_start: u16,
    pub y_start: u16,
}

/// The shift of the visible window along x for a panel of `size_y` lines.
pub open spec fn x_offset(orientation: Orientation, size_y: u16) -> int {
    match orientation {
        Orientation::LandscapeSwapped => NATIVE_LINES - size_y,
        _ => 0,
    }
}

/// The shift of the visible window along y for a panel of `size_y` lines.
pub open spec fn y_offset(orientation: Orientation, size_y: u16) -> int {
    match orientation {
        Orientation::PortraitSwapped => NATIVE_LINES - size_y,
        _ => 0,
    }
}

/// Whether a panel of `size_y` lines can be shown in `orientation`: in the
/// swapped orientations it must not have more lines than the controller
/// addresses.
pub open spec fn fits(orientation: Orientation, size_y: u16) -> bool {
    (orientation == Orientation::PortraitSwapped || orientation == Orientation::LandscapeSwapped)
        ==> size_y <= NATIVE_LINES
}

/// The addressing that goes with `orientation` on a panel of `size_y` lines.
pub fn addressing(orientation: Orientation, size_y: u16) -> (a: Addressing)
    requires
        fits(orientation, size_y),
    ensures
        a.orientation == orientation,
        a.x_start == x_offset(orientation, size_y),
        a.y_start == y_offset(orientation, size_y),
{
    let (x_start, y_start): (u16, u16) = match orientation {
        Orientation::Portrait => (0, 0),
        Orientation::Landscape => (0, 0),
        Orientation::PortraitSwapped => (0, NATIVE_LINES - size_y),
        Orientation::LandscapeSwapped => (NATIVE_LINES - size_y, 0),
    };
    Addressing { orientation, x_start, y_start }
}

/// The two unrotated orientations leave the window where it is; the two
/// swapped ones shift it by the lines the panel lacks, along y in portrait
/// and along x in landscape, and never along both.
pub proof fn lemma_offset_table(size_y: u16)
    requires
        size_y <= NATIVE_LINES,
    ensures
        x_offset(Orientation::Portrait, size_y) == 0,
        y_offset(Orientation::Portrait, size_y) == 0,
        x_offset(Orientation::Landscape, size_y) == 0,
        y_offset(Orientation::Landscape, size_y) == 0,
        x_offset(Orientation::PortraitSwapped, size_y) == 0,
        y_offset(Orientation::PortraitSwapped, size_y) == 320 - size_y,
        x_offset(Orientation::LandscapeSwapped, size_y) == 320 - size_y,
        y_offset(Orientation::LandscapeSwapped, size_y) == 0,
{
}

} // verus!
