use compositor_core::scene_types::{
    Alignment, BlendMode, Mat4Bits, SceneItem, SceneItemCrop, Vec2Bits, ALIGN_LEFT, ALIGN_RIGHT,
    ALIGN_TOP,
};

#[test]
fn test_crop_calculations() {
    let crop = SceneItemCrop { left: 10, right: 20, top: 5, bottom: 15 };

    assert!(crop.is_enabled());
    assert_eq!(crop.calc_width(100), 70); // 100 - 10 - 20
    assert_eq!(crop.calc_height(100), 80); // 100 - 5 - 15
}

#[test]
fn test_crop_minimum_size() {
    let crop = SceneItemCrop { left: 50, right: 60, top: 0, bottom: 0 };

    assert_eq!(crop.calc_width(100), 2); // Exceeds original, return minimum
    assert_eq!(crop.calc_height(100), 100); // No vertical crop
}

#[test]
fn test_alignment_flags() {
    let align = Alignment::new(ALIGN_LEFT | ALIGN_TOP);
    assert!(align.has_left());
    assert!(align.has_top());
    assert!(!align.has_right());
    assert!(!align.has_bottom());
}

#[test]
fn test_scene_item_creation() {
    let item = SceneItem::new(1, 42);
    assert_eq!(item.id, 1);
    assert_eq!(item.source_id, 42);
    assert!(item.visible);
    assert!(!item.locked);
    assert!(item.transform_dirty);
    assert_eq!(item.scale, Vec2Bits::one());
}

#[test]
fn test_transform_dirty_flag() {
    let mut item = SceneItem::new(1, 42);
    item.transform_dirty = false;

    item.mark_transform_dirty();
    assert!(item.transform_dirty);
}

#[test]
fn test_source_size_change_detection() {
    let mut item = SceneItem::new(1, 42);
    item.last_width = 1920;
    item.last_height = 1080;

    assert!(!item.source_size_changed(1920, 1080));
    assert!(item.source_size_changed(1280, 720));
}

#[test]
fn test_scene_item_defaults() {
    let item = SceneItem::new(7, 9);
    assert_eq!(item.pos, Vec2Bits::zero());
    assert_eq!(item.pos.x, 0.0f32.to_bits());
    assert_eq!(item.scale.x, 1.0f32.to_bits());
    assert_eq!(item.rotation, 0.0f32.to_bits());
    assert_eq!(item.draw_transform, Mat4Bits::identity());
    assert_eq!(item.blend_mode, BlendMode::Normal);
    assert!(!item.alignment.has_left());
    assert!(!item.alignment.has_right());
    assert_eq!(Alignment::new(ALIGN_RIGHT).0, 2);
}

#[test]
fn test_blend_mode_wire_codes() {
    assert_eq!(BlendMode::Normal.wire_code(), 0);
    assert_eq!(BlendMode::Additive.wire_code(), 1);
    assert_eq!(BlendMode::Darken.wire_code(), 6);
}
