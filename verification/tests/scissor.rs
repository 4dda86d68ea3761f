use glow_painter::scissor::{scissor_box, ScissorBox};

#[test]
fn scissor_box_flips_the_y_axis() {
    let b = scissor_box(10, 20, 110, 70, 600);
    assert_eq!(b, ScissorBox { x: 10, y: 530, width: 100, height: 50 });
}

#[test]
fn full_window_clip() {
    let b = scissor_box(0, 0, 800, 600, 600);
    assert_eq!(b, ScissorBox { x: 0, y: 0, width: 800, height: 600 });
}

#[test]
fn empty_clip() {
    let b = scissor_box(30, 40, 30, 40, 100);
    assert_eq!(b, ScissorBox { x: 30, y: 60, width: 0, height: 0 });
}

#[test]
fn overflowing_differences_wrap() {
    let b = scissor_box(i32::MIN, 0, i32::MAX, 0, 0);
    assert_eq!(b.width, -1);
    let b = scissor_box(0, 0, 0, i32::MIN, 5);
    assert_eq!(b.y, i32::MIN + 5);
    assert_eq!(b.height, i32::MIN);
}

#[test]
fn clamped_box_ends_at_the_clip_edges() {
    let b = scissor_box(5, 0, 640, 480, 480);
    assert_eq!(b.x + b.width, 640);
    assert_eq!(b.y, 0);
    assert_eq!(b.y + b.height, 480);
}
