use compositor_core::frame_pool::FramePool;
use compositor_core::video_types::VideoFormat;
use compositor_core::video_types::VideoFrame;

#[test]
fn test_frame_pool_acquire_release() {
    let mut pool = FramePool::new(VideoFormat::NV12, 1920, 1080, 4);

    let stats = pool.stats();
    assert_eq!(stats.capacity, 4);
    assert_eq!(stats.available, 4);

    let frame1 = pool.acquire().unwrap();
    assert_eq!(pool.stats().in_use, 1);

    let frame2 = pool.acquire().unwrap();
    assert_eq!(pool.stats().in_use, 2);

    pool.release(&frame1);
    assert_eq!(pool.stats().in_use, 1);

    pool.release(&frame2);
    assert_eq!(pool.stats().in_use, 0);
}

#[test]
fn test_frame_pool_exhaustion() {
    let mut pool = FramePool::new(VideoFormat::I420, 640, 480, 2);

    let _f1 = pool.acquire().unwrap();
    let _f2 = pool.acquire().unwrap();
    let f3 = pool.acquire();

    assert!(f3.is_none(), "Pool should be exhausted");
}

#[test]
fn test_frame_alignment() {
    let mut pool = FramePool::new(VideoFormat::NV12, 1920, 1080, 1);
    let frame = pool.acquire().unwrap();

    // Check 32-byte alignment for wide SIMD
    assert_eq!(frame.planes[0] % 32, 0, "Y plane not aligned");
    assert_eq!(frame.planes[1] % 32, 0, "UV plane not aligned");
}

#[test]
fn test_frame_pool_conservation() {
    // Balanced acquire/release pairs return the pool to its start.
    let mut pool = FramePool::new(VideoFormat::NV12, 640, 480, 3);
    for _ in 0..5 {
        let a = pool.acquire().unwrap();
        let b = pool.acquire().unwrap();
        assert!(pool.stats().in_use <= pool.stats().capacity);
        pool.release(&a);
        pool.release(&b);
        assert_eq!(pool.stats().in_use, 0);
    }
}

#[test]
fn test_frame_pool_layout() {
    let mut pool = FramePool::new(VideoFormat::NV12, 1920, 1080, 1);
    let frame = pool.acquire().unwrap();
    assert_eq!(frame.width, 1920);
    assert_eq!(frame.height, 1080);
    assert_eq!(frame.format, VideoFormat::NV12);
    assert_eq!(frame.planes[1], 1920 * 1080);
    assert_eq!(frame.linesize[0], 1920);
    assert_eq!(frame.linesize[1], 1920);
    assert_eq!(frame.timestamp, 0);

    let mut i420 = FramePool::new(VideoFormat::I420, 1920, 1080, 1);
    let frame = i420.acquire().unwrap();
    assert_eq!(frame.planes[1], 1920 * 1080);
    assert_eq!(frame.planes[2], 1920 * 1080 + 960 * 540);
    assert_eq!(frame.linesize[1], 960);
}

#[test]
fn test_unknown_frame_release_ignored() {
    let mut pool = FramePool::new(VideoFormat::NV12, 640, 480, 2);
    let _loan = pool.acquire().unwrap();
    // A frame that never came from this pool is ignored.
    let stranger = VideoFrame::new(640, 480, VideoFormat::NV12);
    pool.release(&stranger);
    assert_eq!(pool.stats().in_use, 1);
}

#[test]
fn test_pool_reacquire_after_release() {
    let mut pool = FramePool::new(VideoFormat::NV12, 1920, 1080, 2);
    let f1 = pool.acquire().unwrap();
    let _f2 = pool.acquire().unwrap();
    assert!(pool.acquire().is_none());
    pool.release(&f1);
    assert!(pool.acquire().is_some());
}
