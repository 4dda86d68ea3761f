//! The scissor box of a clip rectangle.
//!
//! egui measures clip rectangles from the top-left corner of the window, OpenGL
//! measures the scissor box from the bottom-left corner.
use vstd::prelude::*;

verus! {

/// An OpenGL scissor box: lower-left corner and extent, in physical pixels.
#[derive(Clone, Copy, Debug, PartialEq, Eq, Structural)]
pub struct ScissorBox {
    pub x: i32,
    pub y: i32,
    pub width: i32,
    pub height: i32,
}

/// The scissor box of a clip rectangle whose corners are already rounded to
/// whole physical pixels, measured from the top-left of a framebuffer
/// `height_in_pixels` high (taken as an `i32`, as OpenGL takes it).
///
/// The differences wrap around on overflow, as `i32` arithmetic does in a
/// release build. A clip rectangle inside the framebuffer gives a box inside
/// it, of the same size, with no wrapping: its right edge is the rectangle's
/// and its top edge is the framebuffer's height less the rectangle's top.
pub fn scissor_box(
    clip_min_x: i32,
    clip_min_y: i32,
    clip_max_x: i32,
    clip_max_y: i32,
    height_in_pixels: u32,
) -> (b: ScissorBox)
    ensures
        b.x == clip_min_x,
        b.y == (height_in_pixels as i32).wrapping_sub(clip_max_y),
        b.width == clip_max_x.wrapping_sub(clip_min_x),
        b.height == clip_max_y.wrapping_sub(clip_min_y),
        height_in_pixels <= i32::MAX && 0 <= clip_min_y <= clip_max_y <= height_in_pixels
            && 0 <= clip_min_x <= clip_max_x ==> {
            &&& b.y == height_in_pixels - clip_max_y
            &&& b.width == clip_max_x - clip_min_x
            &&& 0 <= b.x
            &&& 0 <= b.width
            &&& b.x + b.width == clip_max_x
            &&& b.height == clip_max_y - clip_min_y
            &&& 0 <= b.y
            &&& 0 <= b.height
            &&& b.y + b.height == height_in_pixels - clip_min_y
            &&& b.y + b.height <= height_in_pixels
        },
{
    let height = height_in_pixels as i32;
    ScissorBox {
        x: clip_min_x,
        y: height.wrapping_sub(clip_max_y),
        width: clip_max_x.wrapping_sub(clip_min_x),
        height: clip_max_y.wrapping_sub(clip_min_y),
    }
}

} // verus!
