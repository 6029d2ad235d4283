//! Integer parts of the transform calculator: effective pre-crop
//! dimensions and alignment offsets.
//!
//! The floating-point remainder of the calculator (bounds fitting,
//! matrix assembly) interprets the bit-pattern fields of a
//! [`crate::scene_types::SceneItem`] and runs outside the verified
//! core; its results come back through the scene store's
//! [`crate::scene::Scene::store_item_transform`].

use vstd::prelude::*;
use crate::scene_types::{Alignment, SceneItem, ALIGN_LEFT, ALIGN_RIGHT, ALIGN_TOP, ALIGN_BOTTOM};

verus! {

/// Total horizontal crop of an item: user crop plus derived bounds
/// crop, left and right together.
pub open spec fn total_crop_x(item: SceneItem) -> int {
    item.crop.left + item.crop.right + item.bounds_crop.left + item.bounds_crop.right
}

/// Total vertical crop of an item.
pub open spec fn total_crop_y(item: SceneItem) -> int {
    item.crop.top + item.crop.bottom + item.bounds_crop.top + item.bounds_crop.bottom
}

/// Whether the crop fields of an item are sane: each edge amount is
/// non-negative and each axis total fits the arithmetic below.
pub open spec fn crop_in_range(item: SceneItem) -> bool {
    &&& item.crop.left >= 0
    &&& item.crop.right >= 0
    &&& item.crop.top >= 0
    &&& item.crop.bottom >= 0
    &&& item.bounds_crop.left >= 0
    &&& item.bounds_crop.right >= 0
    &&& item.bounds_crop.top >= 0
    &&& item.bounds_crop.bottom >= 0
    &&& total_crop_x(item) <= u32::MAX
    &&& total_crop_y(item) <= u32::MAX
}

/// Effective width of an item before bounds fitting: the source width
/// less the total horizontal crop, or the minimum size of 2 when the
/// crop exceeds the source.
pub open spec fn calc_cx_spec(item: SceneItem, width: u32) -> u32 {
    if total_crop_x(item) > width {
        2u32
    } else {
        (width - total_crop_x(item)) as u32
    }
}

/// Effective height of an item before bounds fitting.
pub open spec fn calc_cy_spec(item: SceneItem, height: u32) -> u32 {
    if total_crop_y(item) > height {
        2u32
    } else {
        (height - total_crop_y(item)) as u32
    }
}

/// Calculate the cropped width of an item.
pub fn calc_cx(item: &SceneItem, width: u32) -> (w: u32)
    requires
        crop_in_range(*item),
    ensures
        w == calc_cx_spec(*item, width),
{
    let crop_cx = item.crop.left as u32 + item.crop.right as u32 + item.bounds_crop.left as u32
        + item.bounds_crop.right as u32;
    if crop_cx > width {
        2
    } else {
        width - crop_cx
    }
}

/// Calculate the cropped height of an item.
pub fn calc_cy(item: &SceneItem, height: u32) -> (h: u32)
    requires
        crop_in_range(*item),
    ensures
        h == calc_cy_spec(*item, height),
{
    let crop_cy = item.crop.top as u32 + item.crop.bottom as u32 + item.bounds_crop.top as u32
        + item.bounds_crop.bottom as u32;
    if crop_cy > height {
        2
    } else {
        height - crop_cy
    }
}

/// Horizontal anchor offset of an alignment over an extent: the whole
/// extent when anchored right, zero when anchored left, half the
/// extent (rounded down) when centered.
pub open spec fn align_offset_x_spec(align: Alignment, extent: u32) -> u32 {
    if align.0 & ALIGN_RIGHT != 0 {
        extent
    } else if align.0 & ALIGN_LEFT == 0 {
        extent / 2
    } else {
        0u32
    }
}

/// Vertical anchor offset of an alignment over an extent.
pub open spec fn align_offset_y_spec(align: Alignment, extent: u32) -> u32 {
    if align.0 & ALIGN_BOTTOM != 0 {
        extent
    } else if align.0 & ALIGN_TOP == 0 {
        extent / 2
    } else {
        0u32
    }
}

/// Horizontal anchor offset of `align` over a box of width `extent`.
pub fn align_offset_x(align: Alignment, extent: u32) -> (o: u32)
    ensures
        o == align_offset_x_spec(align, extent),
{
    if align.0 & ALIGN_RIGHT != 0 {
        extent
    } else if align.0 & ALIGN_LEFT == 0 {
        extent / 2
    } else {
        0
    }
}

/// Vertical anchor offset of `align` over a box of height `extent`.
pub fn align_offset_y(align: Alignment, extent: u32) -> (o: u32)
    ensures
        o == align_offset_y_spec(align, extent),
{
    if align.0 & ALIGN_BOTTOM != 0 {
        extent
    } else if align.0 & ALIGN_TOP == 0 {
        extent / 2
    } else {
        0
    }
}

/// Whether a transform pass over sources of size `width` x `height`
/// must recompute this item: its caches are stale, or they were
/// computed for another source size.
pub fn needs_transform_update(item: &SceneItem, width: u32, height: u32) -> (b: bool)
    ensures
        b == (item.transform_dirty || item.last_width != width || item.last_height != height),
{
    item.transform_dirty || item.source_size_changed(width, height)
}

} // verus!
