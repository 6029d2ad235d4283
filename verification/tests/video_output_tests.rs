use compositor_core::video_output::VideoOutput;

#[test]
fn test_video_output_creation() {
    let output = VideoOutput::new(1920, 1080, 60, 1);
    let stats = output.stats();

    assert_eq!(stats.total_frames, 0);
    assert_eq!(stats.skipped_frames, 0);
}

#[test]
fn test_lock_unlock_frame() {
    let mut output = VideoOutput::new(1920, 1080, 60, 1);

    let frame = output.lock_frame().unwrap();
    assert_eq!(frame.width, 1920);
    assert_eq!(frame.height, 1080);

    let success = output.unlock_frame(frame, 1000);
    assert!(success);

    let stats = output.stats();
    assert!(stats.queued_frames <= 1);
}

#[test]
fn video_output_test_encoder_connection() {
    let mut output = VideoOutput::new(1920, 1080, 60, 1);

    let rx = output.connect_encoder(1);

    let frame = output.lock_frame().unwrap();
    output.unlock_frame(frame, 1000);
    output.distribute_one();

    // Encoder should receive frame
    match rx.try_recv() {
        Ok(frame) => {
            assert_eq!(frame.width, 1920);
            assert_eq!(frame.timestamp, 1000);
        }
        Err(_) => {
            panic!("frame was distributed but not received");
        }
    }
}

#[test]
fn test_frame_rate_divisor() {
    let mut output = VideoOutput::new(1920, 1080, 60, 1);

    // Encoder at 30fps (divisor=2)
    let rx = output.connect_encoder(2);

    for i in 0..10 {
        if let Some(frame) = output.lock_frame() {
            output.unlock_frame(frame, i * 16666667); // 60fps timestamps
        }
        output.distribute_one();
    }

    // Should receive ~5 frames (half of 10)
    let mut received = 0;
    while rx.try_recv().is_ok() {
        received += 1;
    }

    assert!(
        received >= 4 && received <= 6,
        "Expected ~5 frames, got {}",
        received
    );
}

#[test]
fn test_frame_queue_backpressure() {
    let mut output = VideoOutput::new(640, 480, 60, 1);

    // The queue holds 16 frames; the pool holds 20 slots.
    let mut accepted = 0;
    let mut frames = Vec::new();
    for _ in 0..20 {
        frames.push(output.lock_frame().unwrap());
    }
    let mut skipped_before = output.stats().skipped_frames;
    for frame in frames {
        let queued = output.unlock_frame(frame, 7);
        if queued {
            accepted += 1;
            assert_eq!(output.stats().skipped_frames, skipped_before);
        } else {
            // Each drop steps the skip counter by exactly one.
            assert_eq!(output.stats().skipped_frames, skipped_before + 1);
            skipped_before += 1;
        }
    }
    assert_eq!(accepted, 16);
    assert_eq!(output.stats().skipped_frames, 4);
    assert_eq!(output.stats().queued_frames, 16);
}

#[test]
fn test_distribute_releases_pool_slot() {
    let mut output = VideoOutput::new(640, 480, 60, 1);
    let frame = output.lock_frame().unwrap();
    assert_eq!(output.stats().pool_stats.in_use, 1);
    output.unlock_frame(frame, 1);
    assert!(output.distribute_one());
    assert_eq!(output.stats().pool_stats.in_use, 0);
    assert!(!output.distribute_one()); // queue drained
    assert_eq!(output.stats().total_frames, 1);
}

#[test]
fn test_disconnect_encoder_stops_delivery() {
    let mut output = VideoOutput::new(640, 480, 60, 1);
    let rx = output.connect_encoder(1);

    let frame = output.lock_frame().unwrap();
    output.unlock_frame(frame, 1);
    output.distribute_one();
    assert!(rx.try_recv().is_ok());

    // There is no id getter on the receiver side; disconnecting an
    // unknown id leaves the connection in place, and frames keep
    // flowing.
    output.disconnect_encoder(0);
    let frame = output.lock_frame().unwrap();
    output.unlock_frame(frame, 2);
    output.distribute_one();
    assert!(rx.try_recv().is_ok());
}

#[test]
fn test_slow_encoder_drops_frames_but_stays() {
    let mut output = VideoOutput::new(640, 480, 60, 1);
    let rx = output.connect_encoder(1);

    // The encoder channel holds 4 frames; a fifth is dropped for the
    // slow encoder, never waited on.
    for i in 0..6 {
        let frame = output.lock_frame().unwrap();
        output.unlock_frame(frame, i);
        output.distribute_one();
    }
    assert_eq!(output.stats().total_frames, 6);

    let mut received = 0;
    while rx.try_recv().is_ok() {
        received += 1;
    }
    assert_eq!(received, 4);

    // The connection survived the overflow: new frames arrive again.
    let frame = output.lock_frame().unwrap();
    output.unlock_frame(frame, 99);
    output.distribute_one();
    assert_eq!(rx.try_recv().unwrap().timestamp, 99);
}
