use compositor_core::scene_types::{
    Alignment, SceneItem, ALIGN_BOTTOM, ALIGN_CENTER, ALIGN_LEFT, ALIGN_RIGHT, ALIGN_TOP,
};
use compositor_core::transform::{
    align_offset_x, align_offset_y, calc_cx, calc_cy, needs_transform_update,
};

#[test]
fn test_add_alignment_center() {
    let align = Alignment::new(ALIGN_CENTER);
    assert_eq!((align_offset_x(align, 100), align_offset_y(align, 50)), (50, 25));
}

#[test]
fn test_add_alignment_top_left() {
    let align = Alignment::new(ALIGN_LEFT | ALIGN_TOP);
    assert_eq!((align_offset_x(align, 100), align_offset_y(align, 50)), (0, 0));
}

#[test]
fn test_add_alignment_bottom_right() {
    let align = Alignment::new(ALIGN_RIGHT | ALIGN_BOTTOM);
    assert_eq!((align_offset_x(align, 100), align_offset_y(align, 50)), (100, 50));
}

#[test]
fn test_calc_cx_cy() {
    let mut item = SceneItem::new(1, 42);
    item.crop.left = 10;
    item.crop.right = 20;
    item.crop.top = 5;
    item.crop.bottom = 15;

    assert_eq!(calc_cx(&item, 100), 70); // 100 - 10 - 20
    assert_eq!(calc_cy(&item, 100), 80); // 100 - 5 - 15
}

#[test]
fn test_calc_cx_includes_bounds_crop() {
    let mut item = SceneItem::new(1, 42);
    item.crop.left = 10;
    item.bounds_crop.right = 15;
    assert_eq!(calc_cx(&item, 100), 75);
    // A crop beyond the source floors at the minimum size of 2.
    item.crop.left = 200;
    assert_eq!(calc_cx(&item, 100), 2);
}

#[test]
fn test_needs_transform_update() {
    let mut item = SceneItem::new(1, 42);
    assert!(needs_transform_update(&item, 1920, 1080)); // dirty after creation
    item.transform_dirty = false;
    item.last_width = 1920;
    item.last_height = 1080;
    assert!(!needs_transform_update(&item, 1920, 1080)); // clean, same size
    assert!(needs_transform_update(&item, 1280, 720)); // clean, size changed
}
