//! The video output pipeline: a bounded frame queue fed by the
//! graphics producer, a pre-sized frame pool for zero-copy rendering,
//! and fan-out of queued frames to encoder connections at per-encoder
//! frame-rate divisors.
//!
//! The pipeline core is a sequential state machine: the distribution
//! worker thread that the engine runs simply calls
//! [`VideoOutput::distribute_one`] in a loop and sleeps briefly when
//! the queue is empty.  Backpressure is drop-on-full everywhere: a
//! full frame queue rejects the producer's frame and counts it as
//! skipped, and a full encoder channel silently drops that encoder's
//! copy.  Encoders leave only through an explicit disconnect.

use vstd::prelude::*;
use crate::channels::{frame_channel, try_send_frame};
use crate::frame_pool::{count_in_use, layout_fits, layout_spec, FramePool, PoolStats};
use crate::video_types::{VideoFormat, VideoFrame, VideoOutputInfo};

verus! {

/// Capacity of the frame queue, and the base size of the frame pool.
pub const MAX_CACHE_SIZE: usize = 16;

/// Extra pool slots for frames in flight with encoders.
pub const IN_FLIGHT_SLOTS: usize = 4;

/// Capacity of each encoder's outbound channel.
pub const ENCODER_CHANNEL_CAPACITY: usize = 4;

/// Relies on rand's `random`, which draws a value from the thread-local
/// generator; nothing can be promised of the value drawn.
pub assume_specification<T>[ rand::random::<T> ]() -> (r: T)
    where
        rand::distr::StandardUniform: rand::distr::Distribution<T>,
;

/// One encoder connection: a stable id, the frame-rate divisor, the
/// rolling frame counter, and the outbound channel.
pub struct EncoderConnection {
    /// Identifier used to disconnect this encoder.
    pub id: u64,
    /// The encoder receives one of every `frame_rate_divisor` frames.
    pub frame_rate_divisor: u32,
    /// Frames seen since the last one delivered.
    pub frame_count: u32,
    /// Sending end of the encoder's bounded outbound channel.
    pub tx: crossbeam::channel::Sender<VideoFrame>,
}

/// The rolling counters never run ahead of their divisors, so a tick
/// cannot overflow.
pub open spec fn encoders_wf(s: Seq<EncoderConnection>) -> bool {
    forall|i: int| 0 <= i < s.len() ==> (#[trigger] s[i]).frame_count == 0 || s[i].frame_count
        < s[i].frame_rate_divisor
}

/// One divisor tick: the counter steps, and wraps to zero when it
/// reaches the divisor — exactly when a frame is delivered.
pub open spec fn tick(count: u32, divisor: u32) -> u32 {
    if count + 1 >= divisor {
        0u32
    } else {
        (count + 1) as u32
    }
}

/// The counter value after `n` ticks from a fresh connection.
pub open spec fn counter_after(n: nat, divisor: u32) -> u32
    decreases n,
{
    if n == 0 {
        0u32
    } else {
        tick(counter_after((n - 1) as nat, divisor), divisor)
    }
}

/// How many of the first `n` ticks delivered a frame.
pub open spec fn deliveries_through(n: nat, divisor: u32) -> nat
    decreases n,
{
    if n == 0 {
        0nat
    } else {
        deliveries_through((n - 1) as nat, divisor) + if counter_after((n - 1) as nat, divisor)
            + 1 >= divisor {
            1nat
        } else {
            0nat
        }
    }
}

/// The frame-rate divisor law: a connection with divisor `d` delivers
/// exactly one frame for every `d` frames distributed — after `n`
/// distributed frames it has delivered `n / d` of them, and its
/// rolling counter stands at `n % d`.
pub proof fn lemma_rate_divisor(n: nat, divisor: u32)
    requires
        1 <= divisor,
    ensures
        counter_after(n, divisor) == n % (divisor as nat),
        deliveries_through(n, divisor) == n / (divisor as nat),
    decreases n,
{
    let d = divisor as int;
    if n > 0 {
        let m = (n - 1) as nat;
        lemma_rate_divisor(m, divisor);
        vstd::arithmetic::div_mod::lemma_mod_bound(m as int, d);
        if m as int % d == d - 1 {
            assert(n as int % d == 0 && n as int / d == m as int / d + 1) by (nonlinear_arith)
                requires
                    d >= 1 && n as int == m as int + 1 && m as int % d == d - 1,
            ;
        } else {
            assert(n as int % d == m as int % d + 1 && n as int / d == m as int / d)
                by (nonlinear_arith)
                requires
                    d >= 1 && n as int == m as int + 1 && 0 <= m as int % d < d - 1,
            ;
        }
    }
}

/// A snapshot of pipeline statistics.
#[derive(Debug, Clone, Copy)]
pub struct VideoOutputStats {
    /// Frames distributed to the encoders.
    pub total_frames: u64,
    /// Producer frames dropped because the queue was full.
    pub skipped_frames: u64,
    /// Frames waiting in the queue.
    pub queued_frames: usize,
    /// State of the frame pool.
    pub pool_stats: PoolStats,
}

/// The encoder list without the connection carrying `id`.
pub open spec fn encoders_without(s: Seq<EncoderConnection>, id: u64) -> Seq<EncoderConnection> {
    s.filter(|e: EncoderConnection| e.id != id)
}

/// The video output pipeline state.
pub struct VideoOutput {
    info: VideoOutputInfo,
    queue: Vec<VideoFrame>,
    pool: FramePool,
    encoders: Vec<EncoderConnection>,
    total_frames: u64,
    skipped_frames: u64,
}

impl VideoOutput {
    /// The output configuration.
    pub closed spec fn spec_info(&self) -> VideoOutputInfo {
        self.info
    }

    /// The queued frames, oldest first.
    pub closed spec fn spec_queue(&self) -> Seq<VideoFrame> {
        self.queue@
    }

    /// The frame pool.
    pub closed spec fn spec_pool(&self) -> FramePool {
        self.pool
    }

    /// The encoder connections, in connection order.
    pub closed spec fn spec_encoders(&self) -> Seq<EncoderConnection> {
        self.encoders@
    }

    /// Frames distributed so far.
    pub closed spec fn spec_total_frames(&self) -> u64 {
        self.total_frames
    }

    /// Producer frames dropped so far.
    pub closed spec fn spec_skipped_frames(&self) -> u64 {
        self.skipped_frames
    }

    /// Create a video output for NV12 frames of the given size and
    /// rate.  The queue is empty, no encoder is connected, and the
    /// pool holds enough slots for a full queue plus frames in flight.
    pub fn new(width: u32, height: u32, fps_num: u32, fps_den: u32) -> (out: VideoOutput)
        requires
            layout_fits(width, height),
        ensures
            out.spec_info().width == width,
            out.spec_info().height == height,
            out.spec_info().fps_num == fps_num,
            out.spec_info().fps_den == fps_den,
            out.spec_info().format == VideoFormat::NV12.wire_code_spec(),
            out.spec_queue() == Seq::<VideoFrame>::empty(),
            out.spec_encoders() == Seq::<EncoderConnection>::empty(),
            encoders_wf(out.spec_encoders()),
            out.spec_total_frames() == 0,
            out.spec_skipped_frames() == 0,
            out.spec_pool()@.len() == MAX_CACHE_SIZE + IN_FLIGHT_SLOTS,
            count_in_use(out.spec_pool()@) == 0,
            out.spec_pool().spec_format() == VideoFormat::NV12,
            out.spec_pool().spec_width() == width,
            out.spec_pool().spec_height() == height,
            out.spec_pool().spec_layout() == layout_spec(VideoFormat::NV12, width, height),
    {
        let info = VideoOutputInfo {
            width,
            height,
            fps_num,
            fps_den,
            format: VideoFormat::NV12.wire_code(),
        };
        let pool = FramePool::new(VideoFormat::NV12, width, height,
            MAX_CACHE_SIZE + IN_FLIGHT_SLOTS);
        VideoOutput {
            info,
            queue: Vec::new(),
            pool,
            encoders: Vec::new(),
            total_frames: 0,
            skipped_frames: 0,
        }
    }

    /// Lock a frame for rendering: acquire a free pool slot.  Returns
    /// nothing when the pool is exhausted.
    pub fn lock_frame(&mut self) -> (frame: Option<VideoFrame>)
        ensures
            frame matches Some(f) ==> {
                &&& f.slot < old(self).spec_pool()@.len()
                &&& !old(self).spec_pool()@[f.slot as int]
                &&& final(self).spec_pool()@ == old(self).spec_pool()@.update(f.slot as int, true)
                &&& count_in_use(final(self).spec_pool()@) == count_in_use(
                    old(self).spec_pool()@,
                ) + 1
                &&& f.width == old(self).spec_pool().spec_width()
                &&& f.height == old(self).spec_pool().spec_height()
                &&& f.format == old(self).spec_pool().spec_format()
                &&& f.planes == old(self).spec_pool().spec_layout().plane_offsets
                &&& f.linesize == old(self).spec_pool().spec_layout().linesize
                &&& f.timestamp == 0
            },
            frame is None ==> final(self).spec_pool()@ == old(self).spec_pool()@ && (forall|k: int|
                0 <= k < old(self).spec_pool()@.len() ==> old(self).spec_pool()@[k]),
            final(self).spec_pool().spec_format() == old(self).spec_pool().spec_format(),
            final(self).spec_pool().spec_width() == old(self).spec_pool().spec_width(),
            final(self).spec_pool().spec_height() == old(self).spec_pool().spec_height(),
            final(self).spec_pool().spec_layout() == old(self).spec_pool().spec_layout(),
            final(self).spec_info() == old(self).spec_info(),
            final(self).spec_queue() == old(self).spec_queue(),
            final(self).spec_encoders() == old(self).spec_encoders(),
            final(self).spec_total_frames() == old(self).spec_total_frames(),
            final(self).spec_skipped_frames() == old(self).spec_skipped_frames(),
    {
        self.pool.acquire()
    }

    /// Submit a rendered frame for distribution, stamped with
    /// `timestamp`.  When the queue is full the frame is dropped
    /// instead: its pool slot is released, the skip counter steps by
    /// exactly one, and the call returns false.
    pub fn unlock_frame(&mut self, frame: VideoFrame, timestamp: u64) -> (queued: bool)
        requires
            old(self).spec_skipped_frames() < u64::MAX,
        ensures
            queued == (old(self).spec_queue().len() < MAX_CACHE_SIZE),
            queued ==> {
                &&& final(self).spec_queue() == old(self).spec_queue().push(
                    (VideoFrame { timestamp: timestamp, ..frame }),
                )
                &&& final(self).spec_pool()@ == old(self).spec_pool()@
                &&& final(self).spec_skipped_frames() == old(self).spec_skipped_frames()
            },
            !queued ==> {
                &&& final(self).spec_queue() == old(self).spec_queue()
                &&& final(self).spec_skipped_frames() == old(self).spec_skipped_frames() + 1
                &&& frame.slot < old(self).spec_pool()@.len() ==> final(self).spec_pool()@ == old(self).spec_pool()@.update(frame.slot as int, false)
                &&& frame.slot >= old(self).spec_pool()@.len() ==> final(self).spec_pool()@ == old(self).spec_pool()@
            },
            final(self).spec_pool().spec_format() == old(self).spec_pool().spec_format(),
            final(self).spec_pool().spec_width() == old(self).spec_pool().spec_width(),
            final(self).spec_pool().spec_height() == old(self).spec_pool().spec_height(),
            final(self).spec_pool().spec_layout() == old(self).spec_pool().spec_layout(),
            final(self).spec_info() == old(self).spec_info(),
            final(self).spec_encoders() == old(self).spec_encoders(),
            final(self).spec_total_frames() == old(self).spec_total_frames(),
    {
        let mut frame = frame;
        frame.timestamp = timestamp;
        if self.queue.len() < MAX_CACHE_SIZE {
            self.queue.push(frame);
            true
        } else {
            self.skipped_frames = self.skipped_frames + 1;
            self.pool.release(&frame);
            false
        }
    }

    /// Connect an encoder that is to receive one of every
    /// `frame_rate_divisor` distributed frames; returns the receiving
    /// end of its bounded outbound channel.  The connection id is
    /// drawn at random.
    pub fn connect_encoder(&mut self, frame_rate_divisor: u32) -> (rx: crossbeam::channel::Receiver<
        VideoFrame,
    >)
        requires
            encoders_wf(old(self).spec_encoders()),
        ensures
            encoders_wf(final(self).spec_encoders()),
            final(self).spec_encoders().len() == old(self).spec_encoders().len() + 1,
            forall|i: int| 0 <= i < old(self).spec_encoders().len()
                ==> final(self).spec_encoders()[i] == old(self).spec_encoders()[i],
            final(self).spec_encoders().last().frame_rate_divisor == frame_rate_divisor,
            final(self).spec_encoders().last().frame_count == 0,
            final(self).spec_info() == old(self).spec_info(),
            final(self).spec_queue() == old(self).spec_queue(),
            final(self).spec_pool() == old(self).spec_pool(),
            final(self).spec_total_frames() == old(self).spec_total_frames(),
            final(self).spec_skipped_frames() == old(self).spec_skipped_frames(),
    {
        let id: u64 = rand::random();
        let (tx, rx) = frame_channel(ENCODER_CHANNEL_CAPACITY);
        let connection = EncoderConnection { id, frame_rate_divisor, frame_count: 0, tx };
        self.encoders.push(connection);
        rx
    }

    /// Disconnect every encoder carrying `encoder_id`.  This explicit
    /// call is the only way a connection leaves the pipeline; a slow
    /// encoder only loses frames.
    #[verifier::loop_isolation(false)]
    pub fn disconnect_encoder(&mut self, encoder_id: u64)
        ensures
            final(self).spec_encoders() == encoders_without(old(self).spec_encoders(), encoder_id),
            encoders_wf(old(self).spec_encoders()) ==> encoders_wf(final(self).spec_encoders()),
            final(self).spec_info() == old(self).spec_info(),
            final(self).spec_queue() == old(self).spec_queue(),
            final(self).spec_pool() == old(self).spec_pool(),
            final(self).spec_total_frames() == old(self).spec_total_frames(),
            final(self).spec_skipped_frames() == old(self).spec_skipped_frames(),
    {
        let ghost orig = self.encoders@;
        let mut i: usize = 0;
        let ghost j: int = 0;
        proof {
            reveal(Seq::filter);
            assert(orig.take(0) =~= Seq::<EncoderConnection>::empty());
            assert(self.encoders@ =~= encoders_without(orig.take(0), encoder_id) + orig.skip(0));
        }
        while i < self.encoders.len()
            invariant
                0 <= j <= orig.len(),
                self.encoders@ == encoders_without(orig.take(j), encoder_id) + orig.skip(j),
                i == encoders_without(orig.take(j), encoder_id).len(),
                self.queue@ == old(self).queue@,
                self.pool == old(self).pool,
                self.info == old(self).info,
                self.total_frames == old(self).total_frames,
                self.skipped_frames == old(self).skipped_frames,
                orig == old(self).encoders@,
            decreases self.encoders@.len() - i,
        {
            proof {
                reveal(Seq::filter);
                assert(orig.take(j + 1) =~= orig.take(j).push(orig[j]));
                assert(orig.take(j + 1).drop_last() =~= orig.take(j));
                assert(self.encoders@[i as int] == orig.skip(j)[0]);
                assert(orig.skip(j)[0] == orig[j]);
                assert(orig.skip(j + 1) =~= orig.skip(j).drop_first());
            }
            let matches_id = self.encoders[i].id == encoder_id;
            if matches_id {
                self.encoders.remove(i);
                proof {
                    assert(self.encoders@ =~= encoders_without(orig.take(j + 1), encoder_id)
                        + orig.skip(j + 1));
                }
            } else {
                i = i + 1;
                proof {
                    assert(self.encoders@ =~= encoders_without(orig.take(j + 1), encoder_id)
                        + orig.skip(j + 1));
                }
            }
            proof {
                j = j + 1;
            }
        }
        proof {
            assert(orig.take(orig.len() as int) =~= orig);
            assert(orig.skip(orig.len() as int) =~= Seq::<EncoderConnection>::empty());
            assert(self.encoders@ =~= encoders_without(orig, encoder_id));
            if encoders_wf(orig) {
                assert forall|k: int| 0 <= k < self.encoders@.len()
                    implies (#[trigger] self.encoders@[k]).frame_count == 0
                        || self.encoders@[k].frame_count
                        < self.encoders@[k].frame_rate_divisor by {
                    lemma_encoders_without_member(orig, encoder_id, k);
                    let j = choose|j: int| 0 <= j < orig.len() && orig[j] == encoders_without(
                        orig,
                        encoder_id,
                    )[k];
                    assert(orig[j].frame_count == 0 || orig[j].frame_count
                        < orig[j].frame_rate_divisor);
                }
            }
        }
    }

    /// Distribute one queued frame, if any: every encoder's counter
    /// ticks, an encoder whose counter reached its divisor gets a copy
    /// of the frame through its channel (dropped silently if the
    /// channel is full), the frame's pool slot is released, and the
    /// total-frames counter steps.  Returns whether a frame was
    /// distributed; on an empty queue nothing changes.
    #[verifier::loop_isolation(false)]
    pub fn distribute_one(&mut self) -> (distributed: bool)
        requires
            encoders_wf(old(self).spec_encoders()),
            old(self).spec_total_frames() < u64::MAX,
        ensures
            encoders_wf(final(self).spec_encoders()),
            distributed == (old(self).spec_queue().len() > 0),
            !distributed ==> *final(self) == *old(self),
            distributed ==> {
                &&& final(self).spec_queue() == old(self).spec_queue().drop_first()
                &&& final(self).spec_total_frames() == old(self).spec_total_frames() + 1
                &&& final(self).spec_encoders().len() == old(self).spec_encoders().len()
                &&& forall|i: int| 0 <= i < old(self).spec_encoders().len()
                    ==> (#[trigger] final(self).spec_encoders()[i]) == (EncoderConnection {
                        frame_count: tick(
                            old(self).spec_encoders()[i].frame_count,
                            old(self).spec_encoders()[i].frame_rate_divisor,
                        ),
                        ..old(self).spec_encoders()[i]
                    })
                &&& old(self).spec_queue()[0].slot < old(self).spec_pool()@.len() ==> final(self).spec_pool()@ == old(self).spec_pool()@.update(
                    old(self).spec_queue()[0].slot as int,
                    false,
                )
                &&& old(self).spec_queue()[0].slot >= old(self).spec_pool()@.len() ==> final(self).spec_pool()@ == old(self).spec_pool()@
            },
            final(self).spec_pool().spec_format() == old(self).spec_pool().spec_format(),
            final(self).spec_pool().spec_width() == old(self).spec_pool().spec_width(),
            final(self).spec_pool().spec_height() == old(self).spec_pool().spec_height(),
            final(self).spec_pool().spec_layout() == old(self).spec_pool().spec_layout(),
            final(self).spec_info() == old(self).spec_info(),
            final(self).spec_skipped_frames() == old(self).spec_skipped_frames(),
    {
        if self.queue.len() == 0 {
            return false;
        }
        let frame = self.queue.remove(0);
        proof {
            assert(self.queue@ =~= old(self).queue@.drop_first());
        }
        let n = self.encoders.len();
        let mut i: usize = 0;
        while i < n
            invariant
                n == self.encoders@.len(),
                i <= n,
                self.queue@ == old(self).queue@.drop_first(),
                self.pool == old(self).pool,
                self.info == old(self).info,
                self.total_frames == old(self).total_frames,
                self.skipped_frames == old(self).skipped_frames,
                n == old(self).encoders@.len(),
                forall|k: int| i <= k < n ==> (#[trigger] self.encoders@[k]) == old(self).encoders@[k],
                forall|k: int| 0 <= k < i ==> (#[trigger] self.encoders@[k])
                    == (EncoderConnection {
                    frame_count: tick(
                        old(self).encoders@[k].frame_count,
                        old(self).encoders@[k].frame_rate_divisor,
                    ),
                    ..old(self).encoders@[k]
                }),
            decreases n - i,
        {
            let count = self.encoders[i].frame_count;
            let divisor = self.encoders[i].frame_rate_divisor;
            if count + 1 >= divisor {
                self.encoders[i].frame_count = 0;
                try_send_frame(&self.encoders[i].tx, frame);
            } else {
                self.encoders[i].frame_count = count + 1;
            }
            i = i + 1;
        }
        self.total_frames = self.total_frames + 1;
        self.pool.release(&frame);
        true
    }

    /// A snapshot of the pipeline statistics.
    pub fn stats(&self) -> (s: VideoOutputStats)
        ensures
            s.total_frames == self.spec_total_frames(),
            s.skipped_frames == self.spec_skipped_frames(),
            s.queued_frames == self.spec_queue().len(),
            s.pool_stats.capacity == self.spec_pool()@.len(),
            s.pool_stats.in_use == count_in_use(self.spec_pool()@),
            s.pool_stats.available == self.spec_pool()@.len() - count_in_use(self.spec_pool()@),
    {
        VideoOutputStats {
            total_frames: self.total_frames,
            skipped_frames: self.skipped_frames,
            queued_frames: self.queue.len(),
            pool_stats: self.pool.stats(),
        }
    }
}


/// Every connection that survives a disconnect was a connection of
/// the original list.
proof fn lemma_encoders_without_member(s: Seq<EncoderConnection>, id: u64, k: int)
    requires
        0 <= k < encoders_without(s, id).len(),
    ensures
        exists|j: int| 0 <= j < s.len() && s[j] == encoders_without(s, id)[k],
    decreases s.len(),
{
    reveal(Seq::filter);
    let f = encoders_without(s, id);
    if s.len() > 0 {
        let fd = encoders_without(s.drop_last(), id);
        if s.last().id != id && k == f.len() - 1 {
            assert(s[s.len() - 1] == f[k]);
        } else {
            lemma_encoders_without_member(s.drop_last(), id, k);
            let j = choose|j: int| 0 <= j < s.drop_last().len() && s.drop_last()[j] == fd[k];
            assert(s[j] == fd[k]);
            assert(fd[k] == f[k]);
        }
    }
}

} // verus!
