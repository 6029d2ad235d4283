use compositor_core::convert::{
    compress_uyvy_to_i420_scalar, compress_uyvy_to_nv12_scalar, simd_lane_eligible,
};

#[test]
fn test_uyvy_to_nv12_correctness() {
    let width = 16;
    let height = 8;
    let mut input = vec![0u8; width * height * 2];
    let mut output_y = vec![0u8; width * height];
    let mut output_uv = vec![0u8; width * height / 2];

    // Fill test pattern
    for i in 0..input.len() {
        input[i] = (i % 256) as u8;
    }

    compress_uyvy_to_nv12_scalar(
        &input,
        &mut output_y,
        &mut output_uv,
        width,
        height,
        width * 2,
        width,
        width,
    );

    // Basic sanity checks
    assert_eq!(output_y.len(), width * height);
    assert_eq!(output_uv.len(), width * height / 2);
}

#[test]
fn test_nv12_exact_values() {
    // One 2x2 block: rows are U Y V Y.
    let input = vec![
        10u8, 20, 30, 40, // row 0: U=10, Y0=20, V=30, Y1=40
        11u8, 50, 31, 60, // row 1: U=11, Y0=50, V=31, Y1=60
    ];
    let mut output_y = vec![0u8; 4];
    let mut output_uv = vec![0u8; 2];

    compress_uyvy_to_nv12_scalar(&input, &mut output_y, &mut output_uv, 2, 2, 4, 2, 2);

    // Luma copied unscaled.
    assert_eq!(output_y, vec![20, 40, 50, 60]);
    // Chroma is the rounded-up vertical average: (10+11+1)/2, (30+31+1)/2.
    assert_eq!(output_uv, vec![11, 31]);
}

#[test]
fn test_nv12_respects_strides() {
    // 2x2 frame inside wider buffers; padding bytes must be untouched.
    let input = vec![
        1u8, 2, 3, 4, 0xEE, 0xEE, // row 0, stride 6
        5u8, 6, 7, 8, 0xEE, 0xEE, // row 1
    ];
    let mut output_y = vec![0xAA; 8]; // stride 4, 2 rows
    let mut output_uv = vec![0xBB; 4]; // stride 4, 1 row

    compress_uyvy_to_nv12_scalar(&input, &mut output_y, &mut output_uv, 2, 2, 6, 4, 4);

    assert_eq!(output_y, vec![2, 4, 0xAA, 0xAA, 6, 8, 0xAA, 0xAA]);
    assert_eq!(output_uv, vec![(1 + 5 + 1) / 2, (3 + 7 + 1) / 2, 0xBB, 0xBB]);
}

#[test]
fn test_uyvy_to_i420_exact_values() {
    let input = vec![
        10u8, 20, 30, 40, // row 0
        11u8, 50, 31, 60, // row 1
    ];
    let mut output_y = vec![0u8; 4];
    let mut output_u = vec![0u8; 1];
    let mut output_v = vec![0u8; 1];

    compress_uyvy_to_i420_scalar(
        &input,
        &mut output_y,
        &mut output_u,
        &mut output_v,
        2,
        2,
        4,
        2,
        1,
        1,
    );

    assert_eq!(output_y, vec![20, 40, 50, 60]);
    assert_eq!(output_u, vec![11]);
    assert_eq!(output_v, vec![31]);
}

#[test]
fn test_i420_larger_frame() {
    // 4x4 gradient: check a couple of positions exactly.
    let width = 4;
    let height = 4;
    let mut input = vec![0u8; width * height * 2];
    for i in 0..input.len() {
        input[i] = i as u8;
    }
    let mut output_y = vec![0u8; width * height];
    let mut output_u = vec![0u8; (width / 2) * (height / 2)];
    let mut output_v = vec![0u8; (width / 2) * (height / 2)];

    compress_uyvy_to_i420_scalar(
        &input,
        &mut output_y,
        &mut output_u,
        &mut output_v,
        width,
        height,
        width * 2,
        width,
        width / 2,
        width / 2,
    );

    // Luma of pixel (x, y) is input[y*8 + 2x + 1].
    assert_eq!(output_y[0], input[1]);
    assert_eq!(output_y[5], input[8 + 3]);
    assert_eq!(output_y[15], input[3 * 8 + 7]);
    // U of block (0, 0) averages input[0] and input[8], rounding up.
    assert_eq!(output_u[0], ((input[0] as u16 + input[8] as u16 + 1) / 2) as u8);
    // V of block (1, 1) averages input[2*8+6] and input[3*8+6].
    assert_eq!(output_v[3], ((input[22] as u16 + input[30] as u16 + 1) / 2) as u8);
}

#[test]
fn test_simd_dispatch_rule() {
    // Eligible only with the CPU capability and a whole number of lanes.
    assert!(simd_lane_eligible(1920, 16, true));
    assert!(!simd_lane_eligible(1920, 16, false));
    assert!(!simd_lane_eligible(1900, 16, true));
    assert!(simd_lane_eligible(1904, 8, true));
    assert!(!simd_lane_eligible(100, 0, true));
}
