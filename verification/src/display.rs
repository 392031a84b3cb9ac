//! Geometry of a small monochrome display: a draw target turned a quarter
//! turn, and two images centred side by side.
use vstd::prelude::*;

verus! {

/// Width of the display, in pixels.
pub const DISPLAY_WIDTH: u32 = 32;

/// Height of the display, in pixels.
pub const DISPLAY_HEIGHT: u32 = 128;

/// A point in display coordinates.
#[derive(Clone, Copy, Debug, PartialEq, Eq, Structural)]
pub struct Point {
    pub x: i32,
    pub y: i32,
}

/// A size in pixels.
#[derive(Clone, Copy, Debug, PartialEq, Eq, Structural)]
pub struct Size {
    pub width: u32,
    pub height: u32,
}

/// An axis-aligned rectangle: its top left corner and its size.
#[derive(Clone, Copy, Debug, PartialEq, Eq, Structural)]
pub struct Rectangle {
    pub top_left: Point,
    pub size: Size,
}

/// The value of `h as i32`: `h` read as a two's complement 32-bit number.
pub open spec fn as_i32(h: u32) -> int {
    if h <= i32::MAX {
        h as int
    } else {
        h - 0x1_0000_0000
    }
}

/// `h as i32`, computed without a truncating cast.
pub fn wrap_to_i32(h: u32) -> (r: i32)
    ensures
        r == as_i32(h),
{
    if h <= 0x7fff_ffff {
        h as i32
    } else {
        (h - 0x8000_0000) as i32 + i32::MIN
    }
}

/// Where a pixel drawn at `p` on the rotated target lands on a parent of
/// height `parent_height`: its column becomes the parent's row counted from
/// the parent's height.
pub open spec fn rotated(p: Point, parent_height: u32) -> Point {
    Point { x: p.y, y: (as_i32(parent_height) - p.x) as i32 }
}

/// Whether the subtraction that rotates `p` stays within `i32`.
pub open spec fn rotation_fits(p: Point, parent_height: u32) -> bool {
    i32::MIN <= as_i32(parent_height) - p.x <= i32::MAX
}

/// Maps a pixel of the rotated target onto its parent.
pub fn rotate_point(p: Point, parent_height: u32) -> (q: Point)
    requires
        rotation_fits(p, parent_height),
    ensures
        q == rotated(p, parent_height),
{
    let h = wrap_to_i32(parent_height);
    Point { x: p.y, y: h - p.x }
}

/// The bounding box of the rotated target: the parent's, with width and
/// height exchanged.
pub open spec fn rotated_box(parent: Rectangle) -> Rectangle {
    Rectangle {
        top_left: parent.top_left,
        size: Size { width: parent.size.height, height: parent.size.width },
    }
}

/// The bounding box of a target rotated from a parent with bounding box
/// `parent`.
pub fn rotated_bounding_box(parent: Rectangle) -> (r: Rectangle)
    ensures
        r == rotated_box(parent),
{
    Rectangle {
        top_left: parent.top_left,
        size: Size { width: parent.size.height, height: parent.size.width },
    }
}

/// Rotating a bounding box twice gives it back.
pub proof fn rotating_box_twice_is_identity(r: Rectangle)
    ensures
        rotated_box(rotated_box(r)) == r,
{
}

/// Two distinct pixels of the rotated target land on distinct pixels of the
/// parent.
pub proof fn rotation_is_injective(p: Point, q: Point, parent_height: u32)
    requires
        rotation_fits(p, parent_height),
        rotation_fits(q, parent_height),
        p != q,
    ensures
        rotated(p, parent_height) != rotated(q, parent_height),
{
}

/// A pixel inside the rotated bounding box of a parent at the origin with
/// width `w` and height `h` lands in the parent's columns, and in rows 1
/// to `h`: one row below the parent's own rows.
pub proof fn rotated_pixels_land_one_row_down(p: Point, w: u32, h: u32)
    requires
        h <= i32::MAX,
        0 <= p.x < h,
        0 <= p.y < w,
    ensures
        0 <= rotated(p, h).x < w,
        1 <= rotated(p, h).y <= h,
{
}

/// `n / 2` as Rust computes it on integers: rounded toward zero.
pub open spec fn half_toward_zero(n: int) -> int {
    if n >= 0 {
        n / 2
    } else {
        -((-n) / 2)
    }
}

/// The left edges of two images of widths `a_width` and `b_width` placed
/// side by side and centred on the display.
pub open spec fn centred_pair(a_width: u32, b_width: u32) -> (int, int) {
    let a_x = half_toward_zero(DISPLAY_WIDTH - (as_i32(a_width) + as_i32(b_width)));
    (a_x, a_x + as_i32(a_width))
}

/// Whether the arithmetic of [`centre_pair`] stays within `i32`.
pub open spec fn centring_fits(a_width: u32, b_width: u32) -> bool {
    let sum = as_i32(a_width) + as_i32(b_width);
    &&& i32::MIN <= sum <= i32::MAX
    &&& i32::MIN <= DISPLAY_WIDTH - sum <= i32::MAX
    &&& i32::MIN <= centred_pair(a_width, b_width).1 <= i32::MAX
}

/// The horizontal offsets at which two images are drawn so that, side by
/// side, they are centred on the display.
pub fn centre_pair(a_width: u32, b_width: u32) -> (r: (i32, i32))
    requires
        centring_fits(a_width, b_width),
    ensures
        r.0 == centred_pair(a_width, b_width).0,
        r.1 == centred_pair(a_width, b_width).1,
{
    let a = wrap_to_i32(a_width);
    let b = wrap_to_i32(b_width);
    let n: i32 = DISPLAY_WIDTH as i32 - (a + b);
    let a_x: i32 = if n >= 0 {
        n / 2
    } else {
        -((-(n as i64)) / 2) as i32
    };
    (a_x, a_x + a)
}

/// Two images whose widths add up to at most the display's are placed
/// within it, the second right after the first.
pub proof fn centred_pair_fits_the_display(a_width: u32, b_width: u32)
    requires
        a_width + b_width <= DISPLAY_WIDTH,
    ensures
        0 <= centred_pair(a_width, b_width).0,
        centred_pair(a_width, b_width).1 == centred_pair(a_width, b_width).0 + a_width,
        centred_pair(a_width, b_width).1 + b_width <= DISPLAY_WIDTH,
{
}

/// The left edge halves the free width, rounded toward zero: twice the
/// left edge is the free width, or one less (one more when the images are
/// wider than the display); the second image starts right after the first.
pub proof fn left_edge_halves_the_free_width(a_width: u32, b_width: u32)
    ensures
        ({
            let free = DISPLAY_WIDTH - (as_i32(a_width) + as_i32(b_width));
            let left = centred_pair(a_width, b_width).0;
            &&& free >= 0 ==> (2 * left == free || 2 * left == free - 1)
            &&& free < 0 ==> (2 * left == free || 2 * left == free + 1)
            &&& centred_pair(a_width, b_width).1 == left + as_i32(a_width)
        }),
{
}

/// Two images that fit on the display get margins that differ by at most
/// one pixel, the left one never the larger.
pub proof fn margins_differ_by_at_most_one(a_width: u32, b_width: u32)
    requires
        a_width + b_width <= DISPLAY_WIDTH,
    ensures
        ({
            let left = centred_pair(a_width, b_width).0;
            let right = DISPLAY_WIDTH - (centred_pair(a_width, b_width).1 + b_width);
            0 <= left && 0 <= right && left <= right <= left + 1
        }),
{
}

} // verus!
