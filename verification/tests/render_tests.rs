use compositor_core::render::{render_scene, render_scene_filtered, RenderCommand};
use compositor_core::scene::Scene;
use compositor_core::scene_types::{BlendMode, SceneItem};

#[test]
fn test_render_command_creation() {
    let item = SceneItem::new(1, 42);
    let cmd = RenderCommand::from_item(&item);

    assert_eq!(cmd.source_id, 42);
    assert_eq!(cmd.blend_mode, BlendMode::Normal);
}

#[test]
fn test_render_scene() {
    let mut scene = Scene::new(1920, 1080);
    scene.add_item(SceneItem::new(0, 100));
    scene.add_item(SceneItem::new(0, 200));

    let commands = render_scene(&mut scene);
    assert_eq!(commands.len(), 2);
}

#[test]
fn test_render_scene_filtered() {
    let mut scene = Scene::new(1920, 1080);
    let id1 = scene.add_item(SceneItem::new(0, 100));
    scene.add_item(SceneItem::new(0, 200));

    // Only render items with specific ID
    let commands = render_scene_filtered(&mut scene, |item: SceneItem| item.id == id1);
    assert_eq!(commands.len(), 1);
    assert_eq!(commands[0].source_id, 100);
}

#[test]
fn test_item_texture_detection() {
    let mut item = SceneItem::new(1, 42);

    // No crop, no special filter
    let cmd = RenderCommand::from_item(&item);
    assert!(!cmd.use_item_texture);

    // With crop enabled
    item.crop.left = 10;
    let cmd = RenderCommand::from_item(&item);
    assert!(cmd.use_item_texture);
}

#[test]
fn test_render_scene_order_and_visibility() {
    let mut scene = Scene::new(1920, 1080);
    let a = scene.add_item(SceneItem::new(0, 100));
    let b = scene.add_item(SceneItem::new(0, 200));

    // Both visible: visited in paint order [a, b].
    let commands = render_scene(&mut scene);
    assert_eq!(commands.len(), 2);
    assert_eq!(commands[0].source_id, 100);
    assert_eq!(commands[1].source_id, 200);

    // Hide the second: only the first remains.
    let mut hidden = scene.find_item(b).unwrap();
    hidden.visible = false;
    scene.update_item(b, &hidden);
    let commands = render_scene(&mut scene);
    assert_eq!(commands.len(), 1);
    assert_eq!(commands[0].source_id, 100);
    let _ = a;
}

#[test]
fn test_render_scene_filtered_pass_all() {
    let mut scene = Scene::new(1920, 1080);
    scene.add_item(SceneItem::new(0, 100));
    scene.add_item(SceneItem::new(0, 200));

    // A filter that passes everything emits one command per visible
    // item, in paint order.
    let commands = render_scene_filtered(&mut scene, |_item: SceneItem| true);
    assert_eq!(commands.len(), 2);
    assert_eq!(commands[0].source_id, 100);
    assert_eq!(commands[1].source_id, 200);

    // One that passes nothing emits none.
    let commands = render_scene_filtered(&mut scene, |_item: SceneItem| false);
    assert_eq!(commands.len(), 0);
}
