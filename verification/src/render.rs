//! Render command extraction: snapshotting the visible items of a
//! scene into an ordered list of drawing commands.

use vstd::prelude::*;
use crate::scene::{visible_items, Scene};
use crate::scene_types::{BlendMode, Mat4Bits, SceneItem, SceneItemCrop, ScaleFilter};

verus! {

/// A drawing command for a single scene item.
#[derive(Debug, Clone, Copy)]
pub struct RenderCommand {
    /// Source to render.
    pub source_id: u64,
    /// Transform to apply.
    pub transform: Mat4Bits,
    /// Blend mode for compositing.
    pub blend_mode: BlendMode,
    /// Whether the item must be drawn through its own texture: it is
    /// cropped (by the user or by the bounds fit) or uses a scaling
    /// filter.
    pub use_item_texture: bool,
}

/// The command that renders `item`.
pub open spec fn command_of(item: SceneItem) -> RenderCommand {
    RenderCommand {
        source_id: item.source_id,
        transform: item.draw_transform,
        blend_mode: item.blend_mode,
        use_item_texture: item.crop != SceneItemCrop::none_spec()
            || item.bounds_crop != SceneItemCrop::none_spec()
            || item.scale_filter != ScaleFilter::Disable,
    }
}

/// The command list of a scene's items: one command per visible item,
/// in paint order.
pub open spec fn command_list(s: Seq<SceneItem>) -> Seq<RenderCommand> {
    visible_items(s).map_values(|it: SceneItem| command_of(it))
}

impl RenderCommand {
    /// Create the render command for one scene item.
    pub fn from_item(item: &SceneItem) -> (cmd: RenderCommand)
        ensures
            cmd == command_of(*item),
    {
        RenderCommand {
            source_id: item.source_id,
            transform: item.draw_transform,
            blend_mode: item.blend_mode,
            use_item_texture: item.crop.is_enabled() || item.bounds_crop.is_enabled()
                || !matches!(item.scale_filter, ScaleFilter::Disable),
        }
    }
}

/// Render a scene: one command per visible item, in back-to-front
/// paint order.
#[verifier::loop_isolation(false)]
pub fn render_scene(scene: &mut Scene) -> (cmds: Vec<RenderCommand>)
    requires
        old(scene).spec_render_count() < u64::MAX,
    ensures
        cmds@ == command_list(old(scene)@),
        final(scene)@ == old(scene)@,
        final(scene).wf() == old(scene).wf(),
        final(scene).spec_width() == old(scene).spec_width(),
        final(scene).spec_height() == old(scene).spec_height(),
        final(scene).spec_is_group() == old(scene).spec_is_group(),
        final(scene).spec_id_counter() == old(scene).spec_id_counter(),
        final(scene).spec_render_count() == old(scene).spec_render_count() + 1,
{
    let visible = scene.render_items();
    let n = visible.len();
    let mut cmds: Vec<RenderCommand> = Vec::new();
    let mut i: usize = 0;
    proof {
        assert(cmds@ =~= visible@.take(0).map_values(|it: SceneItem| command_of(it)));
    }
    while i < n
        invariant
            n == visible@.len(),
            i <= n,
            cmds@ == visible@.take(i as int).map_values(|it: SceneItem| command_of(it)),
        decreases n - i,
    {
        cmds.push(RenderCommand::from_item(&visible[i]));
        proof {
            assert(cmds@ =~= visible@.take(i + 1).map_values(|it: SceneItem| command_of(it)));
        }
        i = i + 1;
    }
    proof {
        assert(visible@.take(n as int) =~= visible@);
    }
    cmds
}

/// The commands of the items of `s` selected by the verdict sequence
/// `b`, in order: one command per position where the verdict is true.
pub open spec fn mask_commands(s: Seq<SceneItem>, b: Seq<bool>) -> Seq<RenderCommand>
    decreases s.len(),
{
    if s.len() == 0 || b.len() == 0 {
        Seq::<RenderCommand>::empty()
    } else {
        let rest = mask_commands(s.drop_last(), b.drop_last());
        if b.last() {
            rest.push(command_of(s.last()))
        } else {
            rest
        }
    }
}

/// Render a scene through a caller-supplied filter: a command is
/// emitted for exactly the visible items the filter lets pass, in
/// paint order.
///
/// The filter's verdict may depend on state of its own, so the exact
/// command list is not a function of the scene alone; what holds of
/// every outcome is that the filter was asked about every visible
/// item, in order, and the command list is precisely the visible list
/// masked by those verdicts.
#[verifier::loop_isolation(false)]
pub fn render_scene_filtered<F: Fn(SceneItem) -> bool>(scene: &mut Scene, filter: F) -> (cmds:
    Vec<RenderCommand>)
    requires
        old(scene).spec_render_count() < u64::MAX,
        forall|it: SceneItem| #[trigger] filter.requires((it,)),
    ensures
        final(scene)@ == old(scene)@,
        final(scene).wf() == old(scene).wf(),
        final(scene).spec_width() == old(scene).spec_width(),
        final(scene).spec_height() == old(scene).spec_height(),
        final(scene).spec_is_group() == old(scene).spec_is_group(),
        final(scene).spec_id_counter() == old(scene).spec_id_counter(),
        final(scene).spec_render_count() == old(scene).spec_render_count() + 1,
        cmds@.len() <= visible_items(old(scene)@).len(),
        exists|b: Seq<bool>|
            b.len() == visible_items(old(scene)@).len() && (forall|j: int|
                0 <= j < b.len() ==> #[trigger] filter.ensures(
                    (visible_items(old(scene)@)[j],),
                    b[j],
                )) && cmds@ == mask_commands(visible_items(old(scene)@), b),
        forall|i: int| 0 <= i < cmds@.len() ==> exists|j: int|
            0 <= j < visible_items(old(scene)@).len() && (#[trigger] cmds@[i]) == command_of(
                visible_items(old(scene)@)[j],
            ) && filter.ensures((visible_items(old(scene)@)[j],), true),
{
    let visible = scene.render_items();
    let n = visible.len();
    let mut cmds: Vec<RenderCommand> = Vec::new();
    let mut i: usize = 0;
    let ghost mut verdicts: Seq<bool> = Seq::<bool>::empty();
    while i < n
        invariant
            n == visible@.len(),
            i <= n,
            cmds@.len() <= i,
            verdicts.len() == i,
            forall|j: int| 0 <= j < i ==> #[trigger] filter.ensures(
                (visible@[j],),
                verdicts[j],
            ),
            cmds@ == mask_commands(visible@.take(i as int), verdicts),
            forall|k: int| 0 <= k < cmds@.len() ==> exists|j: int|
                0 <= j < visible@.len() && (#[trigger] cmds@[k]) == command_of(visible@[j])
                    && filter.ensures((visible@[j],), true),
        decreases n - i,
    {
        let ghost pre_verdicts = verdicts;
        let item = visible[i];
        let passed = filter(item);
        proof {
            verdicts = verdicts.push(passed);
            assert(visible@.take(i + 1).drop_last() =~= visible@.take(i as int));
            assert(verdicts.drop_last() =~= pre_verdicts);
        }
        if passed {
            cmds.push(RenderCommand::from_item(&item));
            proof {
                assert(cmds@.last() == command_of(visible@[i as int]));
            }
        }
        i = i + 1;
    }
    proof {
        assert(visible@.take(n as int) =~= visible@);
        assert(verdicts.len() == visible_items(old(scene)@).len() && (forall|j: int|
            0 <= j < verdicts.len() ==> #[trigger] filter.ensures(
                (visible_items(old(scene)@)[j],),
                verdicts[j],
            )) && cmds@ == mask_commands(visible_items(old(scene)@), verdicts));
    }
    cmds
}

} // verus!
