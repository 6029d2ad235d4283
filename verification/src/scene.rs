//! The scene store: an ordered container of scene items with unique,
//! monotonically assigned ids, a dirty-flag protocol for cached
//! transforms, and visibility-filtered extraction for rendering.
//!
//! The store itself is a sequential state machine; the concurrency
//! shell (a reader-writer lock for many renderers against one
//! mutator) wraps it outside the verified core.

use vstd::prelude::*;
use vstd::seq_lib::lemma_multiset_commutative;
use vstd::multiset::Multiset;
use crate::scene_types::{ItemTransform, SceneItem};

verus! {

/// The ids of a sequence of items, in order.
pub open spec fn ids_of(s: Seq<SceneItem>) -> Seq<i64> {
    s.map_values(|it: SceneItem| it.id)
}

/// Whether some item of `s` carries `id`.
pub open spec fn contains_id(s: Seq<SceneItem>, id: i64) -> bool {
    exists|i: int| 0 <= i < s.len() && (#[trigger] s[i]).id == id
}

/// The index of the item of `s` carrying `id`; meaningful when the
/// ids of `s` are distinct and `contains_id(s, id)` holds.
pub open spec fn index_of_id(s: Seq<SceneItem>, id: i64) -> int {
    choose|i: int| 0 <= i < s.len() && (#[trigger] s[i]).id == id
}

/// The items of `s` that are visible, in order.
pub open spec fn visible_items(s: Seq<SceneItem>) -> Seq<SceneItem> {
    s.filter(|it: SceneItem| it.visible)
}

/// The item `it` updated with the results `t` of a transform
/// recompute: caches stored, source size remembered, dirty flag
/// cleared, everything else untouched.
pub open spec fn with_transform(it: SceneItem, t: ItemTransform) -> SceneItem {
    SceneItem {
        draw_transform: t.draw_transform,
        box_transform: t.box_transform,
        output_scale: t.output_scale,
        box_scale: t.box_scale,
        bounds_crop: t.bounds_crop,
        last_width: t.source_width,
        last_height: t.source_height,
        transform_dirty: false,
        ..it
    }
}

/// A scene: an ordered sequence of items in back-to-front paint
/// order, with the scene dimensions and an id counter.
pub struct Scene {
    items: Vec<SceneItem>,
    width: u32,
    height: u32,
    is_group: bool,
    id_counter: i64,
    render_count: u64,
}

impl View for Scene {
    type V = Seq<SceneItem>;

    /// A scene is viewed as its ordered sequence of items.
    closed spec fn view(&self) -> Seq<SceneItem> {
        self.items@
    }
}

impl Scene {
    /// Scene width.
    pub closed spec fn spec_width(&self) -> u32 {
        self.width
    }

    /// Scene height.
    pub closed spec fn spec_height(&self) -> u32 {
        self.height
    }

    /// Whether this scene is a group.
    pub closed spec fn spec_is_group(&self) -> bool {
        self.is_group
    }

    /// The id the next added item will receive.
    pub closed spec fn spec_id_counter(&self) -> i64 {
        self.id_counter
    }

    /// How many times the scene has been rendered.
    pub closed spec fn spec_render_count(&self) -> u64 {
        self.render_count
    }

    /// Well-formedness: ids are distinct, positive, and below the id
    /// counter, so that every future id is fresh.
    pub closed spec fn wf(&self) -> bool {
        &&& 1 <= self.id_counter
        &&& ids_of(self.items@).no_duplicates()
        &&& forall|i: int| 0 <= i < self.items@.len()
            ==> 0 < (#[trigger] self.items@[i]).id < self.id_counter
    }

    /// The ids of a well-formed scene are pairwise distinct: however a
    /// scene was built, no two of its items share an id.
    pub proof fn lemma_ids_unique(&self)
        requires
            self.wf(),
        ensures
            forall|i: int, j: int| 0 <= i < j < self@.len()
                ==> (#[trigger] self@[i]).id != (#[trigger] self@[j]).id,
    {
        assert forall|i: int, j: int| 0 <= i < j < self@.len()
            implies (#[trigger] self@[i]).id != (#[trigger] self@[j]).id by {
            assert(ids_of(self.items@)[i] == self.items@[i].id);
            assert(ids_of(self.items@)[j] == self.items@[j].id);
        }
    }

    /// Create a new scene with the given dimensions.
    pub fn new(width: u32, height: u32) -> (s: Scene)
        ensures
            s.wf(),
            s@ == Seq::<SceneItem>::empty(),
            s.spec_width() == width,
            s.spec_height() == height,
            !s.spec_is_group(),
            s.spec_id_counter() == 1,
            s.spec_render_count() == 0,
    {
        let s = Scene {
            items: Vec::new(),
            width,
            height,
            is_group: false,
            id_counter: 1,
            render_count: 0,
        };
        proof {
            assert(ids_of(s.items@) =~= Seq::<i64>::empty());
        }
        s
    }

    /// Create a new group: a scene without dimensions of its own.
    pub fn new_group() -> (s: Scene)
        ensures
            s.wf(),
            s@ == Seq::<SceneItem>::empty(),
            s.spec_width() == 0,
            s.spec_height() == 0,
            s.spec_is_group(),
            s.spec_id_counter() == 1,
            s.spec_render_count() == 0,
    {
        let mut s = Scene::new(0, 0);
        s.is_group = true;
        s
    }

    /// Scene dimensions.
    pub fn dimensions(&self) -> (d: (u32, u32))
        ensures
            d.0 == self.spec_width(),
            d.1 == self.spec_height(),
    {
        (self.width, self.height)
    }

    /// Set the scene dimensions.
    pub fn set_dimensions(&mut self, width: u32, height: u32)
        ensures
            final(self).spec_width() == width,
            final(self).spec_height() == height,
            final(self)@ == old(self)@,
            final(self).spec_is_group() == old(self).spec_is_group(),
            final(self).spec_id_counter() == old(self).spec_id_counter(),
            final(self).spec_render_count() == old(self).spec_render_count(),
            final(self).wf() == old(self).wf(),
    {
        self.width = width;
        self.height = height;
    }

    /// Whether this scene is a group.
    pub fn is_group(&self) -> (b: bool)
        ensures
            b == self.spec_is_group(),
    {
        self.is_group
    }

    /// The id the next added item will receive.
    pub fn next_item_id(&self) -> (id: i64)
        ensures
            id == self.spec_id_counter(),
    {
        self.id_counter
    }

    /// Number of items in the scene.
    pub fn item_count(&self) -> (n: usize)
        ensures
            n == self@.len(),
    {
        self.items.len()
    }

    /// Add an item to the scene, at the top of the paint order.
    ///
    /// The item receives the next id, which is returned, and its
    /// cached transforms are marked stale.  Returned ids are strictly
    /// increasing over the life of the scene, so they are never
    /// reused.
    pub fn add_item(&mut self, item: SceneItem) -> (id: i64)
        requires
            old(self).wf(),
            old(self).spec_id_counter() < i64::MAX,
        ensures
            final(self).wf(),
            1 <= id,
            id == old(self).spec_id_counter(),
            final(self).spec_id_counter() == id + 1,
            final(self)@ == old(self)@.push(
                (SceneItem { id: id, transform_dirty: true, ..item }),
            ),
            forall|i: int| 0 <= i < old(self)@.len() ==> (#[trigger] old(self)@[i]).id < id,
            final(self).spec_width() == old(self).spec_width(),
            final(self).spec_height() == old(self).spec_height(),
            final(self).spec_is_group() == old(self).spec_is_group(),
            final(self).spec_render_count() == old(self).spec_render_count(),
    {
        let id = self.id_counter;
        self.id_counter = self.id_counter + 1;
        let mut item = item;
        item.id = id;
        item.mark_transform_dirty();
        self.items.push(item);
        proof {
            let pre = old(self).items@;
            assert(ids_of(self.items@) =~= ids_of(pre).push(id));
            assert forall|i: int, j: int| 0 <= i < j < ids_of(self.items@).len()
                implies ids_of(self.items@)[i] != ids_of(self.items@)[j] by {
                if j < pre.len() {
                    assert(ids_of(pre)[i] != ids_of(pre)[j]);
                } else {
                    assert(ids_of(self.items@)[i] == pre[i].id && pre[i].id < id);
                }
            }
        }
        id
    }

    /// Remove the item carrying `id`; returns whether one was found.
    #[verifier::loop_isolation(false)]
    pub fn remove_item(&mut self, id: i64) -> (found: bool)
        requires
            old(self).wf(),
        ensures
            final(self).wf(),
            found == contains_id(old(self)@, id),
            found ==> final(self)@ == old(self)@.remove(index_of_id(old(self)@, id)),
            !found ==> final(self)@ == old(self)@,
            final(self).spec_width() == old(self).spec_width(),
            final(self).spec_height() == old(self).spec_height(),
            final(self).spec_is_group() == old(self).spec_is_group(),
            final(self).spec_id_counter() == old(self).spec_id_counter(),
            final(self).spec_render_count() == old(self).spec_render_count(),
    {
        let n = self.items.len();
        let mut i: usize = 0;
        while i < n
            invariant
                *self == *old(self),
                n == self.items@.len(),
                i <= n,
                forall|k: int| 0 <= k < i ==> (#[trigger] self.items@[k]).id != id,
            decreases n - i,
        {
            if self.items[i].id == id {
                proof {
                    self.lemma_ids_unique();
                    assert(contains_id(self.items@, id));
                    let w = index_of_id(self.items@, id);
                    assert(self.items@[w].id == id);
                    assert(w == i as int);
                    lemma_ids_remove_no_duplicates(self.items@, i as int);
                }
                self.items.remove(i);
                return true;
            }
            i = i + 1;
        }
        proof {
            assert(!contains_id(self.items@, id));
        }
        false
    }

    /// Move the item carrying `id` to `new_index` in the paint order.
    ///
    /// Fails, changing nothing, when no item carries `id` or when
    /// `new_index` is not a position of the scene.
    #[verifier::loop_isolation(false)]
    pub fn move_item(&mut self, id: i64, new_index: usize) -> (moved: bool)
        requires
            old(self).wf(),
        ensures
            final(self).wf(),
            moved == (contains_id(old(self)@, id) && new_index < old(self)@.len()),
            moved ==> final(self)@ == old(self)@.remove(index_of_id(old(self)@, id)).insert(
                new_index as int,
                old(self)@[index_of_id(old(self)@, id)],
            ),
            !moved ==> final(self)@ == old(self)@,
            final(self).spec_width() == old(self).spec_width(),
            final(self).spec_height() == old(self).spec_height(),
            final(self).spec_is_group() == old(self).spec_is_group(),
            final(self).spec_id_counter() == old(self).spec_id_counter(),
            final(self).spec_render_count() == old(self).spec_render_count(),
    {
        let n = self.items.len();
        let mut i: usize = 0;
        while i < n
            invariant
                *self == *old(self),
                n == self.items@.len(),
                i <= n,
                forall|k: int| 0 <= k < i ==> (#[trigger] self.items@[k]).id != id,
            decreases n - i,
        {
            if self.items[i].id == id {
                if new_index >= n {
                    proof {
                        assert(contains_id(self.items@, id));
                    }
                    return false;
                }
                proof {
                    self.lemma_ids_unique();
                    assert(contains_id(self.items@, id));
                    let w = index_of_id(self.items@, id);
                    assert(self.items@[w].id == id);
                    assert(w == i as int);
                }
                let item = self.items.remove(i);
                let ghost removed = self.items@;
                self.items.insert(new_index, item);
                proof {
                    broadcast use vstd::seq_lib::group_to_multiset_ensures;

                    let pre = old(self).items@;
                    lemma_ids_remove_no_duplicates(pre, i as int);
                    ids_of(pre).lemma_multiset_has_no_duplicates();
                    assert(ids_of(pre)[i as int] == item.id);
                    assert(ids_of(pre).contains(item.id));
                    assert(ids_of(pre).to_multiset().count(item.id) == 1);
                    lemma_ids_insert_no_duplicates(removed, new_index as int, item,
                        ids_of(pre).to_multiset());
                    assert forall|k: int| 0 <= k < self.items@.len()
                        implies 0 < (#[trigger] self.items@[k]).id < self.id_counter by {
                        lemma_multiset_id_bound(self.items@, pre, k, self.id_counter);
                    }
                }
                return true;
            }
            i = i + 1;
        }
        proof {
            assert(!contains_id(self.items@, id));
        }
        false
    }

    /// Replace the fields of the item carrying `id` with those of
    /// `updated`, keeping the item's id and marking its cached
    /// transforms stale whatever was touched.  Returns whether the
    /// item was found.
    #[verifier::loop_isolation(false)]
    pub fn update_item(&mut self, id: i64, updated: &SceneItem) -> (found: bool)
        requires
            old(self).wf(),
        ensures
            final(self).wf(),
            found == contains_id(old(self)@, id),
            found ==> final(self)@ == old(self)@.update(
                index_of_id(old(self)@, id),
                (SceneItem { id: id, transform_dirty: true, ..*updated }),
            ),
            !found ==> final(self)@ == old(self)@,
            final(self).spec_width() == old(self).spec_width(),
            final(self).spec_height() == old(self).spec_height(),
            final(self).spec_is_group() == old(self).spec_is_group(),
            final(self).spec_id_counter() == old(self).spec_id_counter(),
            final(self).spec_render_count() == old(self).spec_render_count(),
    {
        let n = self.items.len();
        let mut i: usize = 0;
        while i < n
            invariant
                *self == *old(self),
                n == self.items@.len(),
                i <= n,
                forall|k: int| 0 <= k < i ==> (#[trigger] self.items@[k]).id != id,
            decreases n - i,
        {
            if self.items[i].id == id {
                proof {
                    self.lemma_ids_unique();
                    assert(contains_id(self.items@, id));
                    let w = index_of_id(self.items@, id);
                    assert(self.items@[w].id == id);
                    assert(w == i as int);
                }
                let mut item = *updated;
                item.id = id;
                item.transform_dirty = true;
                let ghost pre = self.items@;
                self.items.set(i, item);
                proof {
                    assert(ids_of(self.items@) =~= ids_of(pre));
                }
                return true;
            }
            i = i + 1;
        }
        proof {
            assert(!contains_id(self.items@, id));
        }
        false
    }

    /// Store the results of a transform recompute into the item
    /// carrying `id`: the cached transforms and scales, the derived
    /// bounds crop and the source size are taken from `t`, and the
    /// dirty flag is cleared.  Returns whether the item was found.
    #[verifier::loop_isolation(false)]
    pub fn store_item_transform(&mut self, id: i64, t: &ItemTransform) -> (found: bool)
        requires
            old(self).wf(),
        ensures
            final(self).wf(),
            found == contains_id(old(self)@, id),
            found ==> final(self)@ == old(self)@.update(
                index_of_id(old(self)@, id),
                with_transform(old(self)@[index_of_id(old(self)@, id)], *t),
            ),
            !found ==> final(self)@ == old(self)@,
            final(self).spec_width() == old(self).spec_width(),
            final(self).spec_height() == old(self).spec_height(),
            final(self).spec_is_group() == old(self).spec_is_group(),
            final(self).spec_id_counter() == old(self).spec_id_counter(),
            final(self).spec_render_count() == old(self).spec_render_count(),
    {
        let n = self.items.len();
        let mut i: usize = 0;
        while i < n
            invariant
                *self == *old(self),
                n == self.items@.len(),
                i <= n,
                forall|k: int| 0 <= k < i ==> (#[trigger] self.items@[k]).id != id,
            decreases n - i,
        {
            if self.items[i].id == id {
                proof {
                    self.lemma_ids_unique();
                    assert(contains_id(self.items@, id));
                    let w = index_of_id(self.items@, id);
                    assert(self.items@[w].id == id);
                    assert(w == i as int);
                }
                let mut item = self.items[i];
                item.draw_transform = t.draw_transform;
                item.box_transform = t.box_transform;
                item.output_scale = t.output_scale;
                item.box_scale = t.box_scale;
                item.bounds_crop = t.bounds_crop;
                item.last_width = t.source_width;
                item.last_height = t.source_height;
                item.transform_dirty = false;
                let ghost pre = self.items@;
                self.items.set(i, item);
                proof {
                    assert(ids_of(self.items@) =~= ids_of(pre));
                    assert(self.items@[i as int] == with_transform(pre[i as int], *t));
                }
                return true;
            }
            i = i + 1;
        }
        proof {
            assert(!contains_id(self.items@, id));
        }
        false
    }

    /// Reorder the scene from `(id, desired_index)` pairs: the items
    /// named by `order` come first, in the order of their entries;
    /// items of the scene absent from `order` follow, keeping their
    /// original relative order.  Entries naming no item, and repeated
    /// entries after the first, are ignored.
    #[verifier::loop_isolation(false)]
    pub fn reorder_items(&mut self, order: &Vec<(i64, usize)>)
        requires
            old(self).wf(),
        ensures
            final(self).wf(),
            final(self)@ == reorder_spec(old(self)@, order@),
            final(self).spec_width() == old(self).spec_width(),
            final(self).spec_height() == old(self).spec_height(),
            final(self).spec_is_group() == old(self).spec_is_group(),
            final(self).spec_id_counter() == old(self).spec_id_counter(),
            final(self).spec_render_count() == old(self).spec_render_count(),
    {
        let mut picked: Vec<SceneItem> = Vec::new();
        let m = order.len();
        let mut k: usize = 0;
        proof {
            assert(ids_of(picked@ + self.items@) =~= ids_of(old(self).items@));
        }
        while k < m
            invariant
                self.width == old(self).width,
                self.height == old(self).height,
                self.is_group == old(self).is_group,
                self.id_counter == old(self).id_counter,
                self.render_count == old(self).render_count,
                k <= m,
                (picked@, self.items@) == reorder_state(old(self)@, order@, k as int),
                ids_of(picked@ + self.items@).no_duplicates(),
                ids_of(picked@ + self.items@).to_multiset() == ids_of(
                    old(self).items@,
                ).to_multiset(),
            decreases m - k,
        {
            let id = order[k].0;
            let ghost pre_picked = picked@;
            let ghost pre_rest = self.items@;
            proof {
                lemma_ids_sublist_no_duplicates(pre_picked, pre_rest);
            }
            match find_index_by_id(&self.items, id) {
                Some(j) => {
                    proof {
                        assert(contains_id(pre_rest, id));
                        let w = index_of_id(pre_rest, id);
                        assert(pre_rest[w].id == id);
                        assert(ids_of(pre_rest)[w] == id && ids_of(pre_rest)[j as int] == id);
                        assert(w == j as int);
                        lemma_ids_move_to_end(pre_picked, pre_rest, j as int);
                    }
                    let item = self.items.remove(j);
                    picked.push(item);
                },
                None => {},
            }
            proof {
                assert((picked@, self.items@) == reorder_state(old(self)@, order@, k + 1));
            }
            k = k + 1;
        }
        let ghost final_picked = picked@;
        let ghost final_rest = self.items@;
        picked.append(&mut self.items);
        self.items = picked;
        proof {
            assert(self.items@ == final_picked + final_rest);
            assert forall|i: int| 0 <= i < self.items@.len()
                implies 0 < (#[trigger] self.items@[i]).id < self.id_counter by {
                lemma_multiset_id_bound(self.items@, old(self).items@, i, self.id_counter);
            }
        }
    }

    /// The visible items of the scene, in paint order, for rendering.
    ///
    /// Increments the render counter.
    #[verifier::loop_isolation(false)]
    pub fn render_items(&mut self) -> (visible: Vec<SceneItem>)
        requires
            old(self).spec_render_count() < u64::MAX,
        ensures
            visible@ == visible_items(old(self)@),
            final(self)@ == old(self)@,
            final(self).wf() == old(self).wf(),
            final(self).spec_width() == old(self).spec_width(),
            final(self).spec_height() == old(self).spec_height(),
            final(self).spec_is_group() == old(self).spec_is_group(),
            final(self).spec_id_counter() == old(self).spec_id_counter(),
            final(self).spec_render_count() == old(self).spec_render_count() + 1,
    {
        self.render_count = self.render_count + 1;
        let n = self.items.len();
        let mut visible: Vec<SceneItem> = Vec::new();
        let mut i: usize = 0;
        proof {
            reveal(Seq::filter);
            assert(self.items@.take(0) =~= Seq::<SceneItem>::empty());
            assert(visible@ =~= visible_items(self.items@.take(0)));
        }
        while i < n
            invariant
                n == self.items@.len(),
                i <= n,
                visible@ == visible_items(self.items@.take(i as int)),
            decreases n - i,
        {
            let ghost prefix = self.items@.take(i as int);
            let item = self.items[i];
            if item.visible {
                visible.push(item);
            }
            proof {
                assert(self.items@.take(i + 1) =~= prefix.push(item));
                lemma_visible_push(prefix, item);
            }
            i = i + 1;
        }
        proof {
            assert(self.items@.take(n as int) =~= self.items@);
        }
        visible
    }

    /// How many times the scene has been rendered.
    pub fn render_count(&self) -> (n: u64)
        ensures
            n == self.spec_render_count(),
    {
        self.render_count
    }

    /// A copy of every item, in paint order.
    #[verifier::loop_isolation(false)]
    pub fn get_items_snapshot(&self) -> (snap: Vec<SceneItem>)
        ensures
            snap@ == self@,
    {
        let n = self.items.len();
        let mut snap: Vec<SceneItem> = Vec::new();
        let mut i: usize = 0;
        while i < n
            invariant
                n == self.items@.len(),
                i <= n,
                snap@ == self.items@.take(i as int),
            decreases n - i,
        {
            snap.push(self.items[i]);
            proof {
                assert(self.items@.take(i + 1) =~= self.items@.take(i as int).push(
                    self.items@[i as int],
                ));
            }
            i = i + 1;
        }
        proof {
            assert(self.items@.take(n as int) =~= self.items@);
        }
        snap
    }

    /// A copy of the item carrying `id`, if any.
    #[verifier::loop_isolation(false)]
    pub fn find_item(&self, id: i64) -> (found: Option<SceneItem>)
        requires
            self.wf(),
        ensures
            found matches Some(item) ==> contains_id(self@, id)
                && item == self@[index_of_id(self@, id)],
            found is None ==> !contains_id(self@, id),
    {
        let n = self.items.len();
        let mut i: usize = 0;
        while i < n
            invariant
                n == self.items@.len(),
                i <= n,
                forall|k: int| 0 <= k < i ==> (#[trigger] self.items@[k]).id != id,
            decreases n - i,
        {
            if self.items[i].id == id {
                proof {
                    self.lemma_ids_unique();
                    assert(contains_id(self.items@, id));
                    let w = index_of_id(self.items@, id);
                    assert(self.items@[w].id == id);
                    assert(w == i as int);
                }
                return Some(self.items[i]);
            }
            i = i + 1;
        }
        None
    }
}

/// The filtered view of one more item: pushing a visible item appends
/// it, pushing a hidden one changes nothing.
proof fn lemma_visible_push(s: Seq<SceneItem>, item: SceneItem)
    ensures
        item.visible ==> visible_items(s.push(item)) == visible_items(s).push(item),
        !item.visible ==> visible_items(s.push(item)) == visible_items(s),
{
    reveal(Seq::filter);
    assert(s.push(item).drop_last() =~= s);
}

/// Removing an element keeps the remaining ids distinct.
proof fn lemma_ids_remove_no_duplicates(s: Seq<SceneItem>, i: int)
    requires
        0 <= i < s.len(),
        ids_of(s).no_duplicates(),
    ensures
        ids_of(s.remove(i)).no_duplicates(),
        ids_of(s.remove(i)).to_multiset() == ids_of(s).to_multiset().remove(s[i].id),
{
    broadcast use vstd::seq_lib::group_to_multiset_ensures;

    assert(ids_of(s.remove(i)) =~= ids_of(s).remove(i));
    assert(ids_of(s)[i] == s[i].id);
    assert forall|a: int, b: int| 0 <= a < b < ids_of(s.remove(i)).len()
        implies ids_of(s.remove(i))[a] != ids_of(s.remove(i))[b] by {
        let ia = if a < i { a } else { a + 1 };
        let ib = if b < i { b } else { b + 1 };
        assert(ids_of(s).remove(i)[a] == ids_of(s)[ia]);
        assert(ids_of(s).remove(i)[b] == ids_of(s)[ib]);
    }
}

/// Inserting an element whose id is not among the others keeps the
/// ids distinct; used for the reinsertion step of a move.
proof fn lemma_ids_insert_no_duplicates(
    s: Seq<SceneItem>,
    k: int,
    item: SceneItem,
    orig: Multiset<i64>,
)
    requires
        0 <= k <= s.len(),
        ids_of(s).no_duplicates(),
        ids_of(s).to_multiset() == orig.remove(item.id),
        orig.count(item.id) == 1,
    ensures
        ids_of(s.insert(k, item)).no_duplicates(),
        ids_of(s.insert(k, item)).to_multiset() == orig,
{
    broadcast use vstd::seq_lib::group_to_multiset_ensures;

    assert(ids_of(s.insert(k, item)) =~= ids_of(s).insert(k, item.id));
    let ids = ids_of(s);
    // The inserted sequence of ids is the two halves around position k.
    assert(ids.insert(k, item.id) =~= ids.subrange(0, k) + seq![item.id] + ids.subrange(
        k,
        ids.len() as int,
    ));
    assert(ids =~= ids.subrange(0, k) + ids.subrange(k, ids.len() as int));
    lemma_multiset_commutative(ids.subrange(0, k) + seq![item.id], ids.subrange(
        k,
        ids.len() as int,
    ));
    lemma_multiset_commutative(ids.subrange(0, k), seq![item.id]);
    lemma_multiset_commutative(ids.subrange(0, k), ids.subrange(k, ids.len() as int));
    assert(seq![item.id].to_multiset() =~= Multiset::<i64>::empty().insert(item.id)) by {
        assert(seq![item.id].drop_last() =~= Seq::<i64>::empty());
    }
    assert(ids_of(s.insert(k, item)).to_multiset() =~= ids.to_multiset().insert(item.id));
    assert(ids.to_multiset().insert(item.id) =~= orig);
    // No id occurs twice in the result: each occurs at most once in
    // the multiset.
    ids.lemma_multiset_has_no_duplicates();
    assert forall|x: i64| ids_of(s.insert(k, item)).to_multiset().contains(x)
        implies ids_of(s.insert(k, item)).to_multiset().count(x) == 1 by {
        if x == item.id {
            assert(ids.to_multiset().count(x) == 0);
        }
    }
    ids_of(s.insert(k, item)).lemma_multiset_has_no_duplicates_conv();
}

/// An id bound carries over to any rearrangement with the same ids.
proof fn lemma_multiset_id_bound(
    new: Seq<SceneItem>,
    orig: Seq<SceneItem>,
    k: int,
    counter: i64,
)
    requires
        0 <= k < new.len(),
        ids_of(new).to_multiset() == ids_of(orig).to_multiset(),
        forall|i: int| 0 <= i < orig.len() ==> 0 < (#[trigger] orig[i]).id < counter,
    ensures
        0 < new[k].id < counter,
{
    broadcast use vstd::seq_lib::group_to_multiset_ensures;

    assert(ids_of(new)[k] == new[k].id);
    assert(ids_of(new).contains(new[k].id));
    assert(ids_of(new).to_multiset().count(new[k].id) > 0);
    assert(ids_of(orig).contains(new[k].id));
    let j = choose|j: int| 0 <= j < ids_of(orig).len() && ids_of(orig)[j] == new[k].id;
    assert(orig[j].id == new[k].id);
}


/// State of a reorder after the first `k` entries of `order` have
/// been applied: the items already picked, in pick order, and the
/// items still unpicked, in their original relative order.
pub open spec fn reorder_state(
    items: Seq<SceneItem>,
    order: Seq<(i64, usize)>,
    k: int,
) -> (Seq<SceneItem>, Seq<SceneItem>)
    decreases k,
{
    if k <= 0 {
        (Seq::<SceneItem>::empty(), items)
    } else {
        let prev = reorder_state(items, order, k - 1);
        let id = order[k - 1].0;
        if contains_id(prev.1, id) {
            (
                prev.0.push(prev.1[index_of_id(prev.1, id)]),
                prev.1.remove(index_of_id(prev.1, id)),
            )
        } else {
            prev
        }
    }
}

/// The scene order after a bulk reorder: the picked items followed by
/// the unpicked ones.
pub open spec fn reorder_spec(items: Seq<SceneItem>, order: Seq<(i64, usize)>) -> Seq<SceneItem> {
    let st = reorder_state(items, order, order.len() as int);
    st.0 + st.1
}

/// Distinct ids over a concatenation are distinct over each part.
proof fn lemma_ids_sublist_no_duplicates(a: Seq<SceneItem>, b: Seq<SceneItem>)
    requires
        ids_of(a + b).no_duplicates(),
    ensures
        ids_of(a).no_duplicates(),
        ids_of(b).no_duplicates(),
{
    assert(ids_of(a + b) =~= ids_of(a) + ids_of(b));
    assert forall|i: int, j: int| 0 <= i < j < ids_of(a).len()
        implies ids_of(a)[i] != ids_of(a)[j] by {
        assert(ids_of(a + b)[i] == ids_of(a)[i]);
        assert(ids_of(a + b)[j] == ids_of(a)[j]);
    }
    assert forall|i: int, j: int| 0 <= i < j < ids_of(b).len()
        implies ids_of(b)[i] != ids_of(b)[j] by {
        assert(ids_of(a + b)[a.len() + i] == ids_of(b)[i]);
        assert(ids_of(a + b)[a.len() + j] == ids_of(b)[j]);
    }
}

/// Moving one element from the unpicked part to the end of the picked
/// part keeps the ids distinct and the id population unchanged.
proof fn lemma_ids_move_to_end(picked: Seq<SceneItem>, rest: Seq<SceneItem>, j: int)
    requires
        0 <= j < rest.len(),
        ids_of(picked + rest).no_duplicates(),
    ensures
        ids_of(picked.push(rest[j]) + rest.remove(j)).no_duplicates(),
        ids_of(picked.push(rest[j]) + rest.remove(j)).to_multiset() == ids_of(
            picked + rest,
        ).to_multiset(),
{
    broadcast use vstd::seq_lib::group_to_multiset_ensures;
    broadcast use vstd::multiset::group_multiset_axioms;

    let x = rest[j];
    assert(ids_of(picked + rest) =~= ids_of(picked) + ids_of(rest));
    assert(ids_of(picked.push(x) + rest.remove(j)) =~= ids_of(picked).push(x.id) + ids_of(
        rest,
    ).remove(j));
    lemma_multiset_commutative(ids_of(picked), ids_of(rest));
    lemma_multiset_commutative(ids_of(picked).push(x.id), ids_of(rest).remove(j));
    assert(ids_of(rest)[j] == x.id);
    assert(ids_of(rest).remove(j).to_multiset() =~= ids_of(rest).to_multiset().remove(x.id));
    assert(ids_of(picked).push(x.id).to_multiset() =~= ids_of(picked).to_multiset().insert(
        x.id,
    ));
    assert(ids_of(rest).to_multiset().contains(x.id));
    assert(ids_of(picked.push(x) + rest.remove(j)).to_multiset() =~= ids_of(
        picked + rest,
    ).to_multiset());
    ids_of(picked + rest).lemma_multiset_has_no_duplicates();
    assert forall|v: i64| ids_of(picked.push(x) + rest.remove(j)).to_multiset().contains(v)
        implies ids_of(picked.push(x) + rest.remove(j)).to_multiset().count(v) == 1 by {
        assert(ids_of(picked + rest).to_multiset().contains(v));
    }
    ids_of(picked.push(x) + rest.remove(j)).lemma_multiset_has_no_duplicates_conv();
}


/// Index of the first item of `items` carrying `id`, if any.
#[verifier::loop_isolation(false)]
fn find_index_by_id(items: &Vec<SceneItem>, id: i64) -> (r: Option<usize>)
    ensures
        r matches Some(j) ==> j < items@.len() && items@[j as int].id == id && (forall|t: int|
            0 <= t < j ==> (#[trigger] items@[t]).id != id),
        r is None ==> !contains_id(items@, id),
{
    let n = items.len();
    let mut j: usize = 0;
    while j < n
        invariant
            j <= n,
            forall|t: int| 0 <= t < j ==> (#[trigger] items@[t]).id != id,
        decreases n - j,
    {
        if items[j].id == id {
            return Some(j);
        }
        j = j + 1;
    }
    None
}

} // verus!
