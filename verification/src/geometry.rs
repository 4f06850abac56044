//! Plain integer geometry: points, sizes and rectangles in the logical
//! coordinate space, plus the small computations the window lifecycle
//! needs (centering a new window on an output, applying a client's
//! configure request).

use vstd::prelude::*;

verus! {

/// Coordinates and sizes stay within this bound, which keeps every
/// centering computation far away from `i32` overflow.
pub const COORD_LIMIT: i32 = 0x100_0000;

/// A location in the global logical coordinate space.
#[derive(Clone, Copy, Debug, PartialEq, Eq, Structural)]
pub struct Point {
    pub x: i32,
    pub y: i32,
}

/// A width/height pair.
#[derive(Clone, Copy, Debug, PartialEq, Eq, Structural)]
pub struct Size {
    pub w: i32,
    pub h: i32,
}

/// A rectangle: a location and a size.
#[derive(Clone, Copy, Debug, PartialEq, Eq, Structural)]
pub struct Rect {
    pub loc: Point,
    pub size: Size,
}

impl Point {
    /// The point lies within the coordinate bound.
    pub open spec fn bounded(self) -> bool {
        -COORD_LIMIT <= self.x <= COORD_LIMIT && -COORD_LIMIT <= self.y <= COORD_LIMIT
    }
}

impl Size {
    /// The size is non-negative and within the coordinate bound.
    pub open spec fn bounded(self) -> bool {
        0 <= self.w <= COORD_LIMIT && 0 <= self.h <= COORD_LIMIT
    }
}

impl Rect {
    /// Both the location and the size are within bounds.
    pub open spec fn bounded(self) -> bool {
        self.loc.bounded() && self.size.bounded()
    }
}

/// Where a newly mapped window of size `win` goes so that it sits in the
/// middle of the output that starts at `output_loc` and has size
/// `output_size`.
pub open spec fn spec_center_on_output(output_loc: Point, output_size: Size, win: Size) -> Point {
    Point {
        x: (output_loc.x + output_size.w / 2 - win.w / 2) as i32,
        y: (output_loc.y + output_size.h / 2 - win.h / 2) as i32,
    }
}

/// Center a window of size `win` on the output with location `output_loc`
/// and size `output_size`.
pub fn center_on_output(output_loc: Point, output_size: Size, win: Size) -> (loc: Point)
    requires
        output_loc.bounded(),
        output_size.bounded(),
        win.bounded(),
    ensures
        loc == spec_center_on_output(output_loc, output_size, win),
{
    Point { x: output_loc.x + output_size.w / 2 - win.w / 2, y: output_loc.y + output_size.h / 2 - win.h / 2 }
}

/// The geometry after a client's configure request: the client may change
/// the width and the height, the position is compositor-controlled and
/// stays as it was.
pub open spec fn spec_apply_configure_request(geo: Rect, w: Option<i32>, h: Option<i32>) -> Rect {
    Rect {
        loc: geo.loc,
        size: Size {
            w: if w is Some { w->0 } else { geo.size.w },
            h: if h is Some { h->0 } else { geo.size.h },
        },
    }
}

/// Apply the width/height part of a configure request to a window's
/// current geometry, leaving its location alone.
pub fn apply_configure_request(geo: Rect, w: Option<i32>, h: Option<i32>) -> (r: Rect)
    ensures
        r == spec_apply_configure_request(geo, w, h),
{
    let mut out = geo;
    if let Some(w) = w {
        out.size.w = w;
    }
    if let Some(h) = h {
        out.size.h = h;
    }
    out
}

} // verus!
