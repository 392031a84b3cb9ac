use embedded_trials::display::{
    centre_pair, rotate_point, rotated_bounding_box, wrap_to_i32, Point, Rectangle, Size,
    DISPLAY_HEIGHT, DISPLAY_WIDTH,
};

#[test]
fn display_is_32_by_128() {
    assert_eq!((DISPLAY_WIDTH, DISPLAY_HEIGHT), (32, 128));
}

#[test]
fn wrap_to_i32_matches_as_cast() {
    for h in [0u32, 1, 128, 0x7fff_ffff, 0x8000_0000, 0xffff_ffff, 0x9abc_def0] {
        assert_eq!(wrap_to_i32(h), h as i32);
    }
}

#[test]
fn rotate_point_swaps_and_flips() {
    assert_eq!(rotate_point(Point { x: 0, y: 0 }, 128), Point { x: 0, y: 128 });
    assert_eq!(rotate_point(Point { x: 10, y: 3 }, 128), Point { x: 3, y: 118 });
    assert_eq!(rotate_point(Point { x: 127, y: 31 }, 128), Point { x: 31, y: 1 });
    assert_eq!(rotate_point(Point { x: -5, y: 7 }, 20), Point { x: 7, y: 25 });
}

#[test]
fn rotate_point_with_height_beyond_i32() {
    // The height is read as `as i32` reads it.
    assert_eq!(rotate_point(Point { x: 1, y: 2 }, 0xffff_ffff), Point { x: 2, y: -2 });
}

#[test]
fn rotated_bounding_box_exchanges_sides() {
    let parent = Rectangle { top_left: Point { x: 4, y: 5 }, size: Size { width: 32, height: 128 } };
    let r = rotated_bounding_box(parent);
    assert_eq!(r, Rectangle { top_left: Point { x: 4, y: 5 }, size: Size { width: 128, height: 32 } });
    assert_eq!(rotated_bounding_box(r), parent);
}

#[test]
fn centre_pair_centres_two_images() {
    assert_eq!(centre_pair(16, 8), (4, 20));
    assert_eq!(centre_pair(16, 16), (0, 16));
    assert_eq!(centre_pair(0, 0), (16, 16));
    assert_eq!(centre_pair(15, 0), (8, 23));
}

#[test]
fn centre_pair_rounds_toward_zero_when_too_wide() {
    // (32 - 35) / 2 is -1 in Rust, not -2.
    assert_eq!(centre_pair(20, 15), (-1, 19));
    assert_eq!(centre_pair(40, 0), (-4, 36));
}
