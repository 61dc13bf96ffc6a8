//! Clipping a region of interest, in whole pixels, to the frame it is cut from.
use vstd::prelude::*;

verus! {

/// A crop rectangle: top-left corner and size, in pixels.
#[derive(Clone, Copy, Debug, PartialEq, Eq, Structural)]
pub struct CropWindow {
    pub x: i32,
    pub y: i32,
    pub width: i64,
    pub height: i64,
}

pub open spec fn max0(v: i32) -> i32 {
    if v < 0 {
        0
    } else {
        v
    }
}

pub open spec fn min_to(v: i32, bound: i32) -> i32 {
    if v > bound {
        bound
    } else {
        v
    }
}

/// The part of the box from (`sx`, `sy`) to (`ex`, `ey`) that lies inside a
/// `frame_width` x `frame_height` frame: the start corner is raised to 0 and
/// the end corner lowered to the frame size. A box wholly outside the frame
/// gives a window with a negative width or height.
pub fn crop_window(sx: i32, sy: i32, ex: i32, ey: i32, frame_width: i32, frame_height: i32) -> (r: CropWindow)
    ensures
        r.x == max0(sx),
        r.y == max0(sy),
        r.width == min_to(ex, frame_width) - max0(sx),
        r.height == min_to(ey, frame_height) - max0(sy),
{
    let x = if sx < 0 { 0 } else { sx };
    let y = if sy < 0 { 0 } else { sy };
    let right = if ex > frame_width { frame_width } else { ex };
    let bottom = if ey > frame_height { frame_height } else { ey };
    CropWindow { x, y, width: right as i64 - x as i64, height: bottom as i64 - y as i64 }
}

} // verus!
