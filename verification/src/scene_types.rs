//! Data model of the scene compositor: crops, alignment flags, blend
//! modes, and scene items.
//!
//! Screen-space quantities (positions, scales, rotation, matrices) are
//! carried as raw IEEE-754 single-precision bit patterns in `u32`
//! fields.  The verified scene store only stores, copies and compares
//! these values; the numeric transform calculator that interprets them
//! runs outside the verified core and hands its results back through
//! [`ItemTransform`].

use vstd::prelude::*;

verus! {

/// Bit pattern of the single-precision value one.
pub const ONE_BITS: u32 = 0x3F80_0000;

/// Crop amounts for a scene item, in pixels from each edge.
#[derive(Debug, Clone, Copy, PartialEq, Eq, Structural)]
pub struct SceneItemCrop {
    pub left: i32,
    pub right: i32,
    pub top: i32,
    pub bottom: i32,
}

impl SceneItemCrop {
    /// The crop with no edge cropped.
    pub open spec fn none_spec() -> SceneItemCrop {
        SceneItemCrop { left: 0, right: 0, top: 0, bottom: 0 }
    }

    /// Returns the crop with no edge cropped.
    pub fn none() -> (c: SceneItemCrop)
        ensures
            c == SceneItemCrop::none_spec(),
    {
        SceneItemCrop { left: 0, right: 0, top: 0, bottom: 0 }
    }

    /// Check if any cropping is enabled.
    pub fn is_enabled(&self) -> (b: bool)
        ensures
            b == !(self.left == 0 && self.right == 0 && self.top == 0 && self.bottom == 0),
    {
        self.left != 0 || self.right != 0 || self.top != 0 || self.bottom != 0
    }

    /// Width left over after cropping `original_width`, floored at the
    /// minimum size of 2 when the crop swallows the whole extent.
    pub open spec fn calc_width_spec(self, original_width: u32) -> u32 {
        if self.left + self.right >= original_width {
            2u32
        } else {
            (original_width - (self.left + self.right)) as u32
        }
    }

    /// Calculate the cropped width given the original width.
    pub fn calc_width(&self, original_width: u32) -> (w: u32)
        requires
            self.left >= 0,
            self.right >= 0,
            self.left + self.right <= u32::MAX,
        ensures
            w == self.calc_width_spec(original_width),
    {
        let crop_total = self.left as u32 + self.right as u32;
        if crop_total >= original_width {
            2
        } else {
            original_width - crop_total
        }
    }

    /// Height left over after cropping `original_height`.
    pub open spec fn calc_height_spec(self, original_height: u32) -> u32 {
        if self.top + self.bottom >= original_height {
            2u32
        } else {
            (original_height - (self.top + self.bottom)) as u32
        }
    }

    /// Calculate the cropped height given the original height.
    pub fn calc_height(&self, original_height: u32) -> (h: u32)
        requires
            self.top >= 0,
            self.bottom >= 0,
            self.top + self.bottom <= u32::MAX,
        ensures
            h == self.calc_height_spec(original_height),
    {
        let crop_total = self.top as u32 + self.bottom as u32;
        if crop_total >= original_height {
            2
        } else {
            original_height - crop_total
        }
    }
}

impl Default for SceneItemCrop {
    /// The default crop leaves every edge uncropped.
    fn default() -> (c: SceneItemCrop)
        ensures
            c == SceneItemCrop::none_spec(),
    {
        SceneItemCrop { left: 0, right: 0, top: 0, bottom: 0 }
    }
}

/// How an item is fitted into its bounds rectangle.
#[derive(Debug, Clone, Copy, PartialEq, Eq, Structural)]
pub enum BoundsType {
    /// No bounds fitting.
    Unbounded,
    Stretch,
    ScaleInner,
    ScaleOuter,
    ScaleToWidth,
    ScaleToHeight,
    MaxOnly,
}

impl BoundsType {
    /// Stable wire value of this bounds type.
    pub open spec fn wire_code_spec(self) -> u32 {
        match self {
            BoundsType::Unbounded => 0,
            BoundsType::Stretch => 1,
            BoundsType::ScaleInner => 2,
            BoundsType::ScaleOuter => 3,
            BoundsType::ScaleToWidth => 4,
            BoundsType::ScaleToHeight => 5,
            BoundsType::MaxOnly => 6,
        }
    }

    /// Stable wire value of this bounds type.
    pub fn wire_code(self) -> (c: u32)
        ensures
            c == self.wire_code_spec(),
    {
        match self {
            BoundsType::Unbounded => 0,
            BoundsType::Stretch => 1,
            BoundsType::ScaleInner => 2,
            BoundsType::ScaleOuter => 3,
            BoundsType::ScaleToWidth => 4,
            BoundsType::ScaleToHeight => 5,
            BoundsType::MaxOnly => 6,
        }
    }
}

impl Default for BoundsType {
    /// Items carry no bounds until one is set.
    fn default() -> (b: BoundsType)
        ensures
            b == BoundsType::Unbounded,
    {
        BoundsType::Unbounded
    }
}

/// Alignment flags: a bitfield over the edge bits below.  An axis with
/// no bit set is centered; setting both bits of one axis is ill-formed.
#[derive(Debug, Clone, Copy, PartialEq, Eq, Structural)]
pub struct Alignment(pub u32);

/// Alignment bit: anchor at the left edge.
pub const ALIGN_LEFT: u32 = 1;

/// Alignment bit: anchor at the right edge.
pub const ALIGN_RIGHT: u32 = 2;

/// Alignment bit: anchor at the top edge.
pub const ALIGN_TOP: u32 = 4;

/// Alignment bit: anchor at the bottom edge.
pub const ALIGN_BOTTOM: u32 = 8;

/// Alignment value: centered on both axes.
pub const ALIGN_CENTER: u32 = 0;

impl Alignment {
    /// Wrap a raw flag word.
    pub fn new(flags: u32) -> (a: Alignment)
        ensures
            a.0 == flags,
    {
        Alignment(flags)
    }

    /// Whether the left-edge bit is set.
    pub fn has_left(&self) -> (b: bool)
        ensures
            b == (self.0 & ALIGN_LEFT != 0),
    {
        self.0 & ALIGN_LEFT != 0
    }

    /// Whether the right-edge bit is set.
    pub fn has_right(&self) -> (b: bool)
        ensures
            b == (self.0 & ALIGN_RIGHT != 0),
    {
        self.0 & ALIGN_RIGHT != 0
    }

    /// Whether the top-edge bit is set.
    pub fn has_top(&self) -> (b: bool)
        ensures
            b == (self.0 & ALIGN_TOP != 0),
    {
        self.0 & ALIGN_TOP != 0
    }

    /// Whether the bottom-edge bit is set.
    pub fn has_bottom(&self) -> (b: bool)
        ensures
            b == (self.0 & ALIGN_BOTTOM != 0),
    {
        self.0 & ALIGN_BOTTOM != 0
    }
}

impl Default for Alignment {
    /// Items are centered until an anchor is chosen.
    fn default() -> (a: Alignment)
        ensures
            a.0 == ALIGN_CENTER,
    {
        Alignment(ALIGN_CENTER)
    }
}

/// Blend mode for compositing an item over what is below it.
#[derive(Debug, Clone, Copy, PartialEq, Eq, Structural)]
pub enum BlendMode {
    Normal,
    Additive,
    Subtract,
    Screen,
    Multiply,
    Lighten,
    Darken,
}

impl BlendMode {
    /// Stable wire value of this blend mode.
    pub open spec fn wire_code_spec(self) -> u32 {
        match self {
            BlendMode::Normal => 0,
            BlendMode::Additive => 1,
            BlendMode::Subtract => 2,
            BlendMode::Screen => 3,
            BlendMode::Multiply => 4,
            BlendMode::Lighten => 5,
            BlendMode::Darken => 6,
        }
    }

    /// Stable wire value of this blend mode.
    pub fn wire_code(self) -> (c: u32)
        ensures
            c == self.wire_code_spec(),
    {
        match self {
            BlendMode::Normal => 0,
            BlendMode::Additive => 1,
            BlendMode::Subtract => 2,
            BlendMode::Screen => 3,
            BlendMode::Multiply => 4,
            BlendMode::Lighten => 5,
            BlendMode::Darken => 6,
        }
    }
}

impl Default for BlendMode {
    fn default() -> (m: BlendMode)
        ensures
            m == BlendMode::Normal,
    {
        BlendMode::Normal
    }
}

/// Scaling filter used when an item is resampled.
#[derive(Debug, Clone, Copy, PartialEq, Eq, Structural)]
pub enum ScaleFilter {
    Disable,
    Point,
    Bilinear,
    Bicubic,
    Lanczos,
    Area,
}

impl Default for ScaleFilter {
    fn default() -> (f: ScaleFilter)
        ensures
            f == ScaleFilter::Disable,
    {
        ScaleFilter::Disable
    }
}

/// A two-component vector carried as IEEE-754 bit patterns.
#[derive(Debug, Clone, Copy, PartialEq, Eq, Structural)]
pub struct Vec2Bits {
    pub x: u32,
    pub y: u32,
}

impl Vec2Bits {
    /// The zero vector (both components are the bits of 0.0).
    pub open spec fn zero_spec() -> Vec2Bits {
        Vec2Bits { x: 0, y: 0 }
    }

    /// The unit vector (both components are the bits of 1.0).
    pub open spec fn one_spec() -> Vec2Bits {
        Vec2Bits { x: ONE_BITS, y: ONE_BITS }
    }

    /// Returns the zero vector.
    pub fn zero() -> (v: Vec2Bits)
        ensures
            v == Vec2Bits::zero_spec(),
    {
        Vec2Bits { x: 0, y: 0 }
    }

    /// Returns the unit vector.
    pub fn one() -> (v: Vec2Bits)
        ensures
            v == Vec2Bits::one_spec(),
    {
        Vec2Bits { x: ONE_BITS, y: ONE_BITS }
    }
}

/// A 4x4 matrix carried as IEEE-754 bit patterns, column-major.
#[derive(Debug, Clone, Copy, PartialEq, Eq)]
pub struct Mat4Bits {
    pub m: [u32; 16],
}

impl Mat4Bits {
    /// The identity matrix.
    pub open spec fn identity_spec() -> Mat4Bits {
        Mat4Bits {
            m: [
                ONE_BITS, 0u32, 0u32, 0u32,
                0u32, ONE_BITS, 0u32, 0u32,
                0u32, 0u32, ONE_BITS, 0u32,
                0u32, 0u32, 0u32, ONE_BITS,
            ],
        }
    }

    /// Returns the identity matrix.
    pub fn identity() -> (m: Mat4Bits)
        ensures
            m == Mat4Bits::identity_spec(),
    {
        Mat4Bits {
            m: [
                ONE_BITS, 0, 0, 0,
                0, ONE_BITS, 0, 0,
                0, 0, ONE_BITS, 0,
                0, 0, 0, ONE_BITS,
            ],
        }
    }
}

/// A single scene item: the geometric placement of one source.
#[derive(Debug, Clone, Copy)]
pub struct SceneItem {
    /// Unique identifier within the owning scene.
    pub id: i64,
    /// Handle of the source this item draws.
    pub source_id: u64,
    /// Position in scene coordinates (bit patterns).
    pub pos: Vec2Bits,
    /// Scale factors (bit patterns).
    pub scale: Vec2Bits,
    /// Rotation in degrees (bit pattern).
    pub rotation: u32,
    /// Anchor of the item within its box.
    pub alignment: Alignment,
    /// How the item is fitted into its bounds.
    pub bounds_type: BoundsType,
    /// Anchor of the item within the bounds rectangle.
    pub bounds_align: Alignment,
    /// Bounds rectangle size (bit patterns).
    pub bounds: Vec2Bits,
    /// Crop away whatever spills outside the bounds rectangle.
    pub crop_to_bounds: bool,
    /// Crop chosen by the user.
    pub crop: SceneItemCrop,
    /// Crop derived by the transform calculator; never set by callers.
    pub bounds_crop: SceneItemCrop,
    /// Cached draw transform.
    pub draw_transform: Mat4Bits,
    /// Cached box transform.
    pub box_transform: Mat4Bits,
    /// Cached output scale.
    pub output_scale: Vec2Bits,
    /// Cached box scale.
    pub box_scale: Vec2Bits,
    /// The cached transforms may be stale and must be recomputed.
    pub transform_dirty: bool,
    /// Source width at the last transform recompute.
    pub last_width: u32,
    /// Source height at the last transform recompute.
    pub last_height: u32,
    /// Blend mode for compositing.
    pub blend_mode: BlendMode,
    /// Scaling filter.
    pub scale_filter: ScaleFilter,
    /// Item is drawn.
    pub visible: bool,
    /// Item cannot be moved or edited.
    pub locked: bool,
    /// Item is selected in an editor.
    pub selected: bool,
    /// Item stands for a nested group.
    pub is_group: bool,
}

impl SceneItem {
    /// The item `new` constructs, as a spec value.
    pub open spec fn new_spec(id: i64, source_id: u64) -> SceneItem {
        SceneItem {
            id,
            source_id,
            pos: Vec2Bits::zero_spec(),
            scale: Vec2Bits::one_spec(),
            rotation: 0,
            alignment: Alignment(ALIGN_CENTER),
            bounds_type: BoundsType::Unbounded,
            bounds_align: Alignment(ALIGN_CENTER),
            bounds: Vec2Bits::zero_spec(),
            crop_to_bounds: false,
            crop: SceneItemCrop::none_spec(),
            bounds_crop: SceneItemCrop::none_spec(),
            draw_transform: Mat4Bits::identity_spec(),
            box_transform: Mat4Bits::identity_spec(),
            output_scale: Vec2Bits::one_spec(),
            box_scale: Vec2Bits::zero_spec(),
            transform_dirty: true,
            last_width: 0,
            last_height: 0,
            blend_mode: BlendMode::Normal,
            scale_filter: ScaleFilter::Disable,
            visible: true,
            locked: false,
            selected: false,
            is_group: false,
        }
    }

    /// Create a new scene item with default properties.
    pub fn new(id: i64, source_id: u64) -> (item: SceneItem)
        ensures
            item == SceneItem::new_spec(id, source_id),
    {
        SceneItem {
            id,
            source_id,
            pos: Vec2Bits::zero(),
            scale: Vec2Bits::one(),
            rotation: 0,
            alignment: Alignment(ALIGN_CENTER),
            bounds_type: BoundsType::Unbounded,
            bounds_align: Alignment(ALIGN_CENTER),
            bounds: Vec2Bits::zero(),
            crop_to_bounds: false,
            crop: SceneItemCrop::none(),
            bounds_crop: SceneItemCrop::none(),
            draw_transform: Mat4Bits::identity(),
            box_transform: Mat4Bits::identity(),
            output_scale: Vec2Bits::one(),
            box_scale: Vec2Bits::zero(),
            transform_dirty: true,
            last_width: 0,
            last_height: 0,
            blend_mode: BlendMode::Normal,
            scale_filter: ScaleFilter::Disable,
            visible: true,
            locked: false,
            selected: false,
            is_group: false,
        }
    }

    /// Mark the cached transforms as stale.
    pub fn mark_transform_dirty(&mut self)
        ensures
            *final(self) == (SceneItem { transform_dirty: true, ..*old(self) }),
    {
        self.transform_dirty = true;
    }

    /// Check whether the source size differs from the one the cached
    /// transforms were computed for.
    pub fn source_size_changed(&self, width: u32, height: u32) -> (b: bool)
        ensures
            b == (self.last_width != width || self.last_height != height),
    {
        self.last_width != width || self.last_height != height
    }
}

/// The results of one transform recompute for a scene item, handed
/// back by the transform calculator.
#[derive(Debug, Clone, Copy)]
pub struct ItemTransform {
    /// New draw transform.
    pub draw_transform: Mat4Bits,
    /// New box transform.
    pub box_transform: Mat4Bits,
    /// New output scale.
    pub output_scale: Vec2Bits,
    /// New box scale.
    pub box_scale: Vec2Bits,
    /// Crop derived from the bounds fit.
    pub bounds_crop: SceneItemCrop,
    /// Source width the transforms were computed for.
    pub source_width: u32,
    /// Source height the transforms were computed for.
    pub source_height: u32,
}

} // verus!
