use compositor_core::video_types::VideoFormat;

#[test]
fn test_video_format_sizes() {
    assert_eq!(VideoFormat::I420.plane_count(), 3);
    assert_eq!(VideoFormat::NV12.plane_count(), 2);
    assert_eq!(VideoFormat::RGBA.plane_count(), 1);
}

#[test]
fn test_version() {
    let version = compositor_core::version();
    assert!(!version.is_empty());
    assert_eq!(version, "0.1.0");
}

#[test]
fn test_video_format_wire_codes() {
    assert_eq!(VideoFormat::Unknown.wire_code(), 0);
    assert_eq!(VideoFormat::I420.wire_code(), 1);
    assert_eq!(VideoFormat::NV12.wire_code(), 2);
    assert_eq!(VideoFormat::UYVY.wire_code(), 5);
    assert_eq!(VideoFormat::BGRA.wire_code(), 7);
    assert_eq!(VideoFormat::R10L.wire_code(), 24);
    assert_eq!(VideoFormat::from_wire(5), Some(VideoFormat::UYVY));
    assert_eq!(VideoFormat::from_wire(25), None);
}

#[test]
fn test_video_format_bytes_per_pixel() {
    assert_eq!(VideoFormat::RGBA.bytes_per_pixel(), 4);
    assert_eq!(VideoFormat::BGR3.bytes_per_pixel(), 3);
    assert_eq!(VideoFormat::UYVY.bytes_per_pixel(), 2);
    assert_eq!(VideoFormat::Y800.bytes_per_pixel(), 1);
    assert_eq!(VideoFormat::I420.bytes_per_pixel(), 0);
    assert!(VideoFormat::I420.is_planar());
    assert!(!VideoFormat::RGBA.is_planar());
}

#[test]
fn test_video_format_calculate_size() {
    assert_eq!(VideoFormat::I420.calculate_size(1920, 1080), 1920 * 1080 * 3 / 2);
    assert_eq!(VideoFormat::NV12.calculate_size(1920, 1080), 1920 * 1080 * 3 / 2);
    assert_eq!(VideoFormat::RGBA.calculate_size(640, 480), 640 * 480 * 4);
    assert_eq!(VideoFormat::I444.calculate_size(640, 480), 640 * 480 * 3);
}
