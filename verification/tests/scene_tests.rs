use compositor_core::scene::Scene;
use compositor_core::transform::needs_transform_update;
use compositor_core::scene_types::{ItemTransform, Mat4Bits, SceneItem, SceneItemCrop, Vec2Bits};

#[test]
fn test_scene_creation() {
    let scene = Scene::new(1920, 1080);
    assert_eq!(scene.dimensions(), (1920, 1080));
    assert!(!scene.is_group());
    assert_eq!(scene.item_count(), 0);
}

#[test]
fn test_group_creation() {
    let scene = Scene::new_group();
    assert!(scene.is_group());
}

#[test]
fn test_add_remove_items() {
    let mut scene = Scene::new(1920, 1080);

    let item1 = SceneItem::new(0, 100);
    let item2 = SceneItem::new(0, 200);

    let id1 = scene.add_item(item1);
    let id2 = scene.add_item(item2);

    assert_eq!(scene.item_count(), 2);

    assert!(scene.remove_item(id1));
    assert_eq!(scene.item_count(), 1);

    assert!(!scene.remove_item(id1)); // Already removed
    assert!(scene.remove_item(id2));
    assert_eq!(scene.item_count(), 0);
}

#[test]
fn test_move_item() {
    let mut scene = Scene::new(1920, 1080);

    let id1 = scene.add_item(SceneItem::new(0, 100));
    let id2 = scene.add_item(SceneItem::new(0, 200));
    let id3 = scene.add_item(SceneItem::new(0, 300));

    // Move item 1 to position 2
    assert!(scene.move_item(id1, 2));

    let items = scene.get_items_snapshot();
    assert_eq!(items[0].id, id2);
    assert_eq!(items[1].id, id3);
    assert_eq!(items[2].id, id1);
}

#[test]
fn test_update_item() {
    let mut scene = Scene::new(1920, 1080);
    let id = scene.add_item(SceneItem::new(0, 100));

    let mut updated = scene.find_item(id).unwrap();
    updated.visible = false;
    updated.locked = true;
    assert!(scene.update_item(id, &updated));

    let item = scene.find_item(id).unwrap();
    assert!(!item.visible);
    assert!(item.locked);
}

#[test]
fn test_render_items() {
    let mut scene = Scene::new(1920, 1080);

    let id1 = scene.add_item(SceneItem::new(0, 100));
    let id2 = scene.add_item(SceneItem::new(0, 200));

    // Hide one item
    let mut hidden = scene.find_item(id2).unwrap();
    hidden.visible = false;
    scene.update_item(id2, &hidden);

    let mut rendered_ids = Vec::new();
    for item in scene.render_items() {
        rendered_ids.push(item.id);
    }

    assert_eq!(rendered_ids.len(), 1);
    assert_eq!(rendered_ids[0], id1);
}

#[test]
fn test_scene_id_uniqueness() {
    let mut scene = Scene::new(1920, 1080);
    let mut previous: i64 = 0;
    for source in 0..8u64 {
        let id = scene.add_item(SceneItem::new(0, source));
        assert!(id > previous, "ids must be strictly increasing");
        previous = id;
    }
    // Removing an item never frees its id for reuse.
    assert!(scene.remove_item(3));
    let fresh = scene.add_item(SceneItem::new(0, 99));
    assert!(fresh > previous);
}

#[test]
fn test_reorder_items() {
    let mut scene = Scene::new(1920, 1080);
    let id1 = scene.add_item(SceneItem::new(0, 100));
    let id2 = scene.add_item(SceneItem::new(0, 200));
    let id3 = scene.add_item(SceneItem::new(0, 300));

    // Bring the top item to the back; unnamed items keep their order.
    scene.reorder_items(&vec![(id3, 0)]);
    let items = scene.get_items_snapshot();
    assert_eq!(items[0].id, id3);
    assert_eq!(items[1].id, id1);
    assert_eq!(items[2].id, id2);

    // A full reorder, with an unknown id ignored.
    scene.reorder_items(&vec![(id2, 0), (999, 1), (id1, 2), (id3, 3)]);
    let items = scene.get_items_snapshot();
    assert_eq!(items[0].id, id2);
    assert_eq!(items[1].id, id1);
    assert_eq!(items[2].id, id3);
}

fn identity_transform(width: u32, height: u32) -> ItemTransform {
    ItemTransform {
        draw_transform: Mat4Bits::identity(),
        box_transform: Mat4Bits::identity(),
        output_scale: Vec2Bits::one(),
        box_scale: Vec2Bits::zero(),
        bounds_crop: SceneItemCrop::none(),
        source_width: width,
        source_height: height,
    }
}

#[test]
fn test_store_item_transform() {
    let mut scene = Scene::new(1920, 1080);
    let id = scene.add_item(SceneItem::new(0, 100));
    assert!(scene.find_item(id).unwrap().transform_dirty);

    assert!(scene.store_item_transform(id, &identity_transform(1920, 1080)));

    let item = scene.find_item(id).unwrap();
    assert!(!item.transform_dirty);
    assert_eq!(item.last_width, 1920);
    assert_eq!(item.last_height, 1080);
    assert!(!scene.store_item_transform(999, &identity_transform(1, 1)));
}

#[test]
fn test_dirty_propagation() {
    let mut scene = Scene::new(1920, 1080);
    let id = scene.add_item(SceneItem::new(0, 100));
    scene.store_item_transform(id, &identity_transform(1920, 1080));
    assert!(!scene.find_item(id).unwrap().transform_dirty);

    // Any update marks the cached transforms stale again.
    let same = scene.find_item(id).unwrap();
    assert!(scene.update_item(id, &same));
    assert!(scene.find_item(id).unwrap().transform_dirty);
}

#[test]
fn test_transform_cache_stable() {
    let mut scene = Scene::new(1920, 1080);
    let id = scene.add_item(SceneItem::new(0, 100));
    scene.store_item_transform(id, &identity_transform(1920, 1080));

    // With the same source size and no intervening mutation, a
    // transform pass skips the item, so its matrices stay identical.
    let before = scene.find_item(id).unwrap();
    assert!(!needs_transform_update(&before, 1920, 1080));
    let after = scene.find_item(id).unwrap();
    assert_eq!(before.draw_transform, after.draw_transform);
    assert_eq!(before.box_transform, after.box_transform);
}

#[test]
fn test_render_count() {
    let mut scene = Scene::new(1920, 1080);
    scene.add_item(SceneItem::new(0, 100));
    assert_eq!(scene.render_count(), 0);
    scene.render_items();
    scene.render_items();
    assert_eq!(scene.render_count(), 2);
}

#[test]
fn test_set_dimensions() {
    let mut scene = Scene::new(1920, 1080);
    scene.set_dimensions(1280, 720);
    assert_eq!(scene.dimensions(), (1280, 720));
}
