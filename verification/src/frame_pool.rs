//! A fixed-capacity pool of pre-sized video frame slots.
//!
//! Each slot stands for one backing allocation, laid out once from the
//! pool's format and dimensions; a loaned [`VideoFrame`] carries the
//! slot index and the byte offsets of its planes within that
//! allocation.  Every plane offset is a multiple of 32 for the usual
//! even video dimensions (see [`lemma_plane_offsets_aligned`]), so a
//! 32-byte-aligned backing allocation keeps every plane 32-byte
//! aligned for wide-SIMD access.  The allocations themselves live with
//! the unverified layer that resolves offsets to addresses.

use vstd::prelude::*;
use vstd::arithmetic::div_mod::lemma_mod_multiples_basic;
use crate::video_types::{VideoFormat, VideoFrame};

verus! {

/// The plane layout of one frame slot: byte offsets of each plane
/// within the slot's backing allocation, the row strides, and the
/// total allocation size.
#[derive(Debug, Clone, Copy, PartialEq, Eq)]
pub struct FrameLayout {
    /// Byte offset of each plane.
    pub plane_offsets: [usize; 4],
    /// Row stride of each plane in bytes.
    pub linesize: [u32; 4],
    /// Total size of the backing allocation in bytes.
    pub total_size: usize,
}

/// The layout of a frame of the given format and dimensions: planes
/// are packed back to back in one allocation, each row exactly as
/// wide as its plane.
pub open spec fn layout_spec(format: VideoFormat, width: u32, height: u32) -> FrameLayout {
    match format {
        VideoFormat::I420 => {
            let y_size = (width * height) as usize;
            let uv_size = ((width / 2) * (height / 2)) as usize;
            FrameLayout {
                plane_offsets: [0usize, y_size, (y_size + uv_size) as usize, 0usize],
                linesize: [width, (width / 2) as u32, (width / 2) as u32, 0u32],
                total_size: (y_size + uv_size * 2) as usize,
            }
        },
        VideoFormat::NV12 => {
            let y_size = (width * height) as usize;
            let uv_size = (width * (height / 2)) as usize;
            FrameLayout {
                plane_offsets: [0usize, y_size, 0usize, 0usize],
                linesize: [width, width, 0u32, 0u32],
                total_size: (y_size + uv_size) as usize,
            }
        },
        VideoFormat::RGBA | VideoFormat::BGRA | VideoFormat::BGRX => {
            FrameLayout {
                plane_offsets: [0usize, 0usize, 0usize, 0usize],
                linesize: [(width * 4) as u32, 0u32, 0u32, 0u32],
                total_size: (width * height * 4) as usize,
            }
        },
        _ => {
            FrameLayout {
                plane_offsets: [0usize, 0usize, 0usize, 0usize],
                linesize: [(width * format.bytes_per_pixel_spec()) as u32, 0u32, 0u32, 0u32],
                total_size: format.size_spec(width, height) as usize,
            }
        },
    }
}

/// Whether the layout arithmetic for this format and size fits the
/// machine word; every real frame size does.
pub open spec fn layout_fits(width: u32, height: u32) -> bool {
    width * height * 4 <= usize::MAX && width * 4 <= u32::MAX
}

/// Number of slots of `s` that are loaned out.
pub open spec fn count_in_use(s: Seq<bool>) -> int
    decreases s.len(),
{
    if s.len() == 0 {
        0
    } else {
        count_in_use(s.drop_last()) + if s.last() {
            1int
        } else {
            0int
        }
    }
}

/// The number of loaned slots never exceeds the number of slots.
pub proof fn lemma_count_in_use_bounded(s: Seq<bool>)
    ensures
        0 <= count_in_use(s) <= s.len(),
    decreases s.len(),
{
    if s.len() > 0 {
        lemma_count_in_use_bounded(s.drop_last());
    }
}

/// Loaning or returning one slot moves the in-use count by exactly
/// one.
pub proof fn lemma_count_in_use_update(s: Seq<bool>, i: int, v: bool)
    requires
        0 <= i < s.len(),
    ensures
        count_in_use(s.update(i, v)) == count_in_use(s) - (if s[i] {
            1int
        } else {
            0int
        }) + (if v {
            1int
        } else {
            0int
        }),
    decreases s.len(),
{
    let t = s.update(i, v);
    if i == s.len() - 1 {
        assert(t.drop_last() =~= s.drop_last());
    } else {
        assert(t.drop_last() =~= s.drop_last().update(i, v));
        lemma_count_in_use_update(s.drop_last(), i, v);
    }
}

/// A snapshot of pool statistics.
#[derive(Debug, Clone, Copy, PartialEq, Eq, Structural)]
pub struct PoolStats {
    /// Number of slots.
    pub capacity: usize,
    /// Slots currently loaned out.
    pub in_use: usize,
    /// Slots free to acquire.
    pub available: usize,
}

/// A pool of pre-sized frame slots.  Acquire loans the first free
/// slot; release returns a loan.  The pool is viewed as the sequence
/// of its slots' in-use bits.
pub struct FramePool {
    format: VideoFormat,
    width: u32,
    height: u32,
    layout: FrameLayout,
    in_use: Vec<bool>,
}

impl View for FramePool {
    type V = Seq<bool>;

    /// A pool is viewed as its slots' in-use bits.
    closed spec fn view(&self) -> Seq<bool> {
        self.in_use@
    }
}

impl FramePool {
    /// The pool's pixel format.
    pub closed spec fn spec_format(&self) -> VideoFormat {
        self.format
    }

    /// The pool's frame width.
    pub closed spec fn spec_width(&self) -> u32 {
        self.width
    }

    /// The pool's frame height.
    pub closed spec fn spec_height(&self) -> u32 {
        self.height
    }

    /// The slot layout the pool was built with.
    pub closed spec fn spec_layout(&self) -> FrameLayout {
        self.layout
    }

    /// Create a pool of `capacity` free slots for frames of the given
    /// format and dimensions.
    pub fn new(format: VideoFormat, width: u32, height: u32, capacity: usize) -> (pool: FramePool)
        requires
            layout_fits(width, height),
        ensures
            pool.spec_format() == format,
            pool.spec_width() == width,
            pool.spec_height() == height,
            pool.spec_layout() == layout_spec(format, width, height),
            pool@.len() == capacity,
            forall|i: int| 0 <= i < capacity ==> !pool@[i],
            count_in_use(pool@) == 0,
    {
        let layout = compute_layout(format, width, height);
        let mut in_use: Vec<bool> = Vec::new();
        let mut i: usize = 0;
        while i < capacity
            invariant
                i <= capacity,
                in_use@.len() == i,
                forall|k: int| 0 <= k < i ==> !in_use@[k],
            decreases capacity - i,
        {
            in_use.push(false);
            i = i + 1;
        }
        proof {
            lemma_count_all_free(in_use@);
        }
        FramePool { format, width, height, layout, in_use }
    }

    /// Acquire a frame from the pool: the first free slot is loaned
    /// out, as a frame with the pool's format and dimensions, the
    /// slot's plane layout, and timestamp zero.  Returns nothing when
    /// every slot is loaned out.
    #[verifier::loop_isolation(false)]
    pub fn acquire(&mut self) -> (frame: Option<VideoFrame>)
        ensures
            final(self).spec_format() == old(self).spec_format(),
            final(self).spec_width() == old(self).spec_width(),
            final(self).spec_height() == old(self).spec_height(),
            final(self).spec_layout() == old(self).spec_layout(),
            frame matches Some(f) ==> {
                &&& f.slot < old(self)@.len()
                &&& !old(self)@[f.slot as int]
                &&& (forall|k: int| 0 <= k < f.slot ==> old(self)@[k])
                &&& final(self)@ == old(self)@.update(f.slot as int, true)
                &&& count_in_use(final(self)@) == count_in_use(old(self)@) + 1
                &&& f.planes == old(self).spec_layout().plane_offsets
                &&& f.linesize == old(self).spec_layout().linesize
                &&& f.width == old(self).spec_width()
                &&& f.height == old(self).spec_height()
                &&& f.format == old(self).spec_format()
                &&& f.timestamp == 0
            },
            frame is None ==> final(self)@ == old(self)@ && (forall|k: int|
                0 <= k < old(self)@.len() ==> old(self)@[k]),
    {
        let n = self.in_use.len();
        let mut i: usize = 0;
        while i < n
            invariant
                *self == *old(self),
                n == self.in_use@.len(),
                i <= n,
                forall|k: int| 0 <= k < i ==> self.in_use@[k],
            decreases n - i,
        {
            if !self.in_use[i] {
                proof {
                    lemma_count_in_use_update(self.in_use@, i as int, true);
                }
                self.in_use.set(i, true);
                return Some(VideoFrame {
                    planes: self.layout.plane_offsets,
                    linesize: self.layout.linesize,
                    width: self.width,
                    height: self.height,
                    format: self.format,
                    timestamp: 0,
                    slot: i,
                });
            }
            i = i + 1;
        }
        None
    }

    /// Release a frame's slot back to the pool.  A frame whose slot
    /// does not name a slot of this pool is ignored.
    pub fn release(&mut self, frame: &VideoFrame)
        ensures
            final(self).spec_format() == old(self).spec_format(),
            final(self).spec_width() == old(self).spec_width(),
            final(self).spec_height() == old(self).spec_height(),
            final(self).spec_layout() == old(self).spec_layout(),
            frame.slot < old(self)@.len() ==> {
                &&& final(self)@ == old(self)@.update(frame.slot as int, false)
                &&& count_in_use(final(self)@) == count_in_use(old(self)@) - (if old(
                    self,
                )@[frame.slot as int] {
                    1int
                } else {
                    0int
                })
            },
            frame.slot >= old(self)@.len() ==> final(self)@ == old(self)@,
    {
        if frame.slot < self.in_use.len() {
            proof {
                lemma_count_in_use_update(self.in_use@, frame.slot as int, false);
            }
            self.in_use.set(frame.slot, false);
        }
    }

    /// A snapshot of the pool statistics.
    #[verifier::loop_isolation(false)]
    pub fn stats(&self) -> (s: PoolStats)
        ensures
            s.capacity == self@.len(),
            s.in_use == count_in_use(self@),
            s.available == self@.len() - count_in_use(self@),
    {
        let n = self.in_use.len();
        let mut used: usize = 0;
        let mut i: usize = 0;
        proof {
            assert(self.in_use@.take(0) =~= Seq::<bool>::empty());
        }
        while i < n
            invariant
                n == self.in_use@.len(),
                i <= n,
                used == count_in_use(self.in_use@.take(i as int)),
                used <= i,
            decreases n - i,
        {
            proof {
                assert(self.in_use@.take(i + 1).drop_last() =~= self.in_use@.take(i as int));
            }
            if self.in_use[i] {
                used = used + 1;
            }
            i = i + 1;
        }
        proof {
            assert(self.in_use@.take(n as int) =~= self.in_use@);
            lemma_count_in_use_bounded(self.in_use@);
        }
        PoolStats { capacity: n, in_use: used, available: n - used }
    }
}

/// Compute the slot layout for the given format and dimensions.
fn compute_layout(format: VideoFormat, width: u32, height: u32) -> (l: FrameLayout)
    requires
        layout_fits(width, height),
    ensures
        l == layout_spec(format, width, height),
{
    let w = width as usize;
    let h = height as usize;
    proof {
        let wi = width as int;
        let hi = height as int;
        assert((wi / 2) * (hi / 2) <= wi * hi) by (nonlinear_arith)
            requires
                wi >= 0 && hi >= 0,
        ;
        assert(wi * (hi / 2) <= wi * hi) by (nonlinear_arith)
            requires
                wi >= 0 && hi >= 0,
        ;
        assert(wi * hi <= wi * hi * 4 && wi * hi * 3 <= wi * hi * 4) by (nonlinear_arith)
            requires
                wi >= 0 && hi >= 0,
        ;
        assert(wi * format.bytes_per_pixel_spec() <= wi * 4) by (nonlinear_arith)
            requires
                wi >= 0 && format.bytes_per_pixel_spec() <= 4,
        ;
        assert(wi * hi * format.bytes_per_pixel_spec() <= wi * hi * 4) by (nonlinear_arith)
            requires
                wi >= 0 && hi >= 0 && format.bytes_per_pixel_spec() <= 4,
        ;
    }
    match format {
        VideoFormat::I420 => {
            let y_size = w * h;
            let uv_size = (w / 2) * (h / 2);
            FrameLayout {
                plane_offsets: [0, y_size, y_size + uv_size, 0],
                linesize: [width, width / 2, width / 2, 0],
                total_size: y_size + uv_size * 2,
            }
        },
        VideoFormat::NV12 => {
            let y_size = w * h;
            let uv_size = w * (h / 2);
            FrameLayout {
                plane_offsets: [0, y_size, 0, 0],
                linesize: [width, width, 0, 0],
                total_size: y_size + uv_size,
            }
        },
        VideoFormat::RGBA | VideoFormat::BGRA | VideoFormat::BGRX => {
            FrameLayout {
                plane_offsets: [0, 0, 0, 0],
                linesize: [width * 4, 0, 0, 0],
                total_size: w * h * 4,
            }
        },
        _ => {
            FrameLayout {
                plane_offsets: [0, 0, 0, 0],
                linesize: [width * format.bytes_per_pixel() as u32, 0, 0, 0],
                total_size: format.calculate_size(width, height),
            }
        },
    }
}

/// A freshly built pool has no loans out.
proof fn lemma_count_all_free(s: Seq<bool>)
    requires
        forall|k: int| 0 <= k < s.len() ==> !s[k],
    ensures
        count_in_use(s) == 0,
    decreases s.len(),
{
    if s.len() > 0 {
        lemma_count_all_free(s.drop_last());
    }
}

/// Plane alignment: for dimensions where the width is a multiple of
/// 64 (every broadcast format, such as 1920 or 3840, is), each plane
/// offset of the layout is a multiple of 32.  A 32-byte-aligned
/// backing allocation then keeps every plane base 32-byte aligned for
/// wide-SIMD loads and stores.  A width such as 10 breaks this: its
/// I420 luma plane size is not a multiple of 32.
pub proof fn lemma_plane_offsets_aligned(format: VideoFormat, width: u32, height: u32)
    requires
        width % 64 == 0,
        layout_fits(width, height),
    ensures
        forall|p: int| 0 <= p < 4 ==> #[trigger] (layout_spec(format, width, height).plane_offsets[
            p
        ] % 32) == 0,
{
    let l = layout_spec(format, width, height);
    let w = width as int;
    let h = height as int;
    assert((w / 2) * (h / 2) <= w * h) by (nonlinear_arith)
        requires
            w >= 0 && h >= 0,
    ;
    assert(w * h <= w * h * 4) by (nonlinear_arith)
        requires
            w >= 0 && h >= 0,
    ;
    assert(w == 64 * (w / 64));
    assert(w * h == ((2 * (w / 64)) * h) * 32) by (nonlinear_arith)
        requires
            w == 64 * (w / 64),
    ;
    lemma_mod_multiples_basic((2 * (w / 64)) * h, 32);
    assert((w * h) % 32 == 0);
    assert(w / 2 == 32 * (w / 64));
    assert((w / 2) * (h / 2) == ((w / 64) * (h / 2)) * 32) by (nonlinear_arith)
        requires
            w / 2 == 32 * (w / 64),
    ;
    lemma_mod_multiples_basic((w / 64) * (h / 2), 32);
    assert(((w / 2) * (h / 2)) % 32 == 0);
    assert forall|p: int| 0 <= p < 4 implies #[trigger] (l.plane_offsets[p] % 32) == 0 by {
        match format {
            VideoFormat::I420 => {
                assert(l.plane_offsets[1] == w * h);
                assert(l.plane_offsets[2] == w * h + (w / 2) * (h / 2));
            },
            VideoFormat::NV12 => {
                assert(l.plane_offsets[1] == w * h);
            },
            _ => {},
        }
    }
}

} // verus!
