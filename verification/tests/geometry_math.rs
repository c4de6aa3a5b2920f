use lib::geometry::{
    add_wrapping, beside_placement, center, centered_placement, placement_extent, resized_extent, spawn_offset,
    sub_wrapping, wrap_to_i32, MIN_WINDOW_HEIGHT, MIN_WINDOW_WIDTH,
};
use lib::swc::swc_rectangle;

fn rect(x: i32, y: i32, width: u32, height: u32) -> swc_rectangle {
    swc_rectangle { x, y, width, height }
}

#[test]
fn wrapping_matches_i32() {
    assert_eq!(wrap_to_i32(2147483648), i32::MIN);
    assert_eq!(wrap_to_i32(-2147483649), i32::MAX);
    assert_eq!(wrap_to_i32(-5), -5);
    assert_eq!(add_wrapping(i32::MAX, 1), i32::MIN);
    assert_eq!(sub_wrapping(i32::MIN, 1), i32::MAX);
    assert_eq!(add_wrapping(100, -30), 70);
}

#[test]
fn center_of_a_span() {
    assert_eq!(center(0, 1920), 960);
    assert_eq!(center(-100, 7), -97);
    assert_eq!(center(i32::MAX, 4), i32::MIN + 1);
}

#[test]
fn placement_is_three_quarters_within_bounds() {
    assert_eq!(placement_extent(1920, 480), 1440);
    assert_eq!(placement_extent(1080, 320), 810);
    assert_eq!(placement_extent(600, 480), 480);
    assert_eq!(placement_extent(400, 480), 400);
    assert_eq!(placement_extent(u32::MAX, 480), u32::MAX / 4);
    assert_eq!(placement_extent(0, 480), 0);
}

#[test]
fn spawn_offsets_cycle() {
    assert_eq!(spawn_offset(0), 0);
    assert_eq!(spawn_offset(1), 28);
    assert_eq!(spawn_offset(7), 196);
    assert_eq!(spawn_offset(8), 0);
    assert_eq!(spawn_offset(9), 28);
}

#[test]
fn centered_and_beside_placements() {
    assert_eq!(centered_placement(rect(0, 0, 1920, 1080), 1440, 810, 28), rect(268, 163, 1440, 810));
    assert_eq!(centered_placement(rect(10, 20, 400, 300), 400, 300, 0), rect(10, 20, 400, 300));
    assert_eq!(beside_placement(rect(100, 50, 800, 600), 1440, 810, 56), rect(992, 78, 1440, 810));
}

#[test]
fn resizing_keeps_the_minimum() {
    assert_eq!(resized_extent(800, -48, MIN_WINDOW_WIDTH), 752);
    assert_eq!(resized_extent(130, -48, MIN_WINDOW_WIDTH), 120);
    assert_eq!(resized_extent(100, 48, MIN_WINDOW_HEIGHT), 148);
    assert_eq!(resized_extent(3_000_000_000, 0, MIN_WINDOW_WIDTH), 120);
}
