//! Pixel-format conversion kernels: packed UYVY 4:2:2 to the 4:2:0
//! layouts NV12 (interleaved UV plane) and I420 (separate U and V
//! planes).
//!
//! The scalar kernels here are the reference semantics for the
//! conversion: luma bytes are copied unscaled, and each output chroma
//! sample is the rounded-up average of the two vertically adjacent
//! chroma samples of the source rows.  A SIMD replacement must match
//! them byte for byte; the dispatch rule that selects it is
//! [`simd_lane_eligible`].

use vstd::prelude::*;
use vstd::arithmetic::mul::lemma_mul_inequality;

verus! {

/// Rounded-up average of two bytes.
pub open spec fn avg_round_up(a: u8, b: u8) -> u8 {
    ((a + b + 1) / 2) as u8
}

/// Luma sample of pixel `(x, y)` in a UYVY buffer with row stride
/// `stride`: rows are laid out `U0 Y0 V0 Y1 U2 Y2 V2 Y3 ...`.
pub open spec fn uyvy_luma(inp: Seq<u8>, stride: int, x: int, y: int) -> u8 {
    inp[y * stride + 2 * x + 1]
}

/// U sample of pixel pair `xp` in row `y` of a UYVY buffer.
pub open spec fn uyvy_u(inp: Seq<u8>, stride: int, xp: int, y: int) -> u8 {
    inp[y * stride + 4 * xp]
}

/// V sample of pixel pair `xp` in row `y` of a UYVY buffer.
pub open spec fn uyvy_v(inp: Seq<u8>, stride: int, xp: int, y: int) -> u8 {
    inp[y * stride + 4 * xp + 2]
}

/// The 4:2:0 U sample for the 2x2 pixel block at pair `xp`, row pair
/// `yp`: the rounded-up average of the U samples of the two source rows.
pub open spec fn chroma_u(inp: Seq<u8>, stride: int, xp: int, yp: int) -> u8 {
    avg_round_up(uyvy_u(inp, stride, xp, 2 * yp), uyvy_u(inp, stride, xp, 2 * yp + 1))
}

/// The 4:2:0 V sample for the 2x2 pixel block at pair `xp`, row pair `yp`.
pub open spec fn chroma_v(inp: Seq<u8>, stride: int, xp: int, yp: int) -> u8 {
    avg_round_up(uyvy_v(inp, stride, xp, 2 * yp), uyvy_v(inp, stride, xp, 2 * yp + 1))
}

/// Whether byte index `i` lies in the first `cols` bytes of row `r` of
/// a plane with row stride `stride`.
pub open spec fn in_row_span(i: int, r: int, cols: int, stride: int) -> bool {
    r * stride <= i < r * stride + cols
}

/// Whether byte index `i` lies in the written region of a plane with
/// `rows` rows of `cols` bytes each, at row stride `stride`.
pub open spec fn in_plane_span(i: int, rows: int, cols: int, stride: int) -> bool {
    exists|r: int| 0 <= r < rows && in_row_span(i, r, cols, stride)
}

/// Expansions of the row-base products that the index bounds below
/// rest on.
proof fn lemma_row_products(r: int, stride: int)
    ensures
        (r + 1) * stride == r * stride + stride,
        (r + 2) * stride == r * stride + 2 * stride,
{
    assert((r + 1) * stride == r * stride + stride) by (nonlinear_arith);
    assert((r + 2) * stride == r * stride + 2 * stride) by (nonlinear_arith);
}

/// Converts one UYVY row pair `y`, `y + 1` into two luma rows and one
/// interleaved UV row of an NV12 frame.
fn nv12_row_pair(
    input: &Vec<u8>,
    output_y: &mut Vec<u8>,
    output_uv: &mut Vec<u8>,
    width: usize,
    y: usize,
    in_linesize: usize,
    out_y_linesize: usize,
    out_uv_linesize: usize,
)
    requires
        width % 2 == 0,
        y % 2 == 0,
        2 * width <= in_linesize,
        width <= out_y_linesize,
        width <= out_uv_linesize,
        (y + 2) * in_linesize <= input@.len(),
        (y + 2) * out_y_linesize <= old(output_y)@.len(),
        (y / 2 + 1) * out_uv_linesize <= old(output_uv)@.len(),
    ensures
        final(output_y)@.len() == old(output_y)@.len(),
        final(output_uv)@.len() == old(output_uv)@.len(),
        forall|c: int| 0 <= c < width ==> final(output_y)@[y * out_y_linesize + c]
            == #[trigger] uyvy_luma(input@, in_linesize as int, c, y as int),
        forall|c: int| 0 <= c < width ==> final(output_y)@[(y + 1) * out_y_linesize + c]
            == #[trigger] uyvy_luma(input@, in_linesize as int, c, y + 1),
        forall|p: int| 0 <= p < width / 2 ==> final(output_uv)@[(y / 2) * out_uv_linesize + 2 * p]
            == #[trigger] chroma_u(input@, in_linesize as int, p, y as int / 2),
        forall|p: int| 0 <= p < width / 2 ==> final(output_uv)@[(y / 2) * out_uv_linesize + 2 * p + 1]
            == #[trigger] chroma_v(input@, in_linesize as int, p, y as int / 2),
        forall|i: int| 0 <= i < old(output_y)@.len()
            && !in_row_span(i, y as int, width as int, out_y_linesize as int)
            && !in_row_span(i, y + 1, width as int, out_y_linesize as int)
            ==> final(output_y)@[i] == old(output_y)@[i],
        forall|i: int| 0 <= i < old(output_uv)@.len()
            && !in_row_span(i, y as int / 2, width as int, out_uv_linesize as int)
            ==> final(output_uv)@[i] == old(output_uv)@[i],
{
    let in_len = input.len();
    let y_len = output_y.len();
    let uv_len = output_uv.len();
    proof {
        assert(in_len == input@.len() && y_len == output_y@.len() && uv_len == output_uv@.len());
        lemma_row_products(y as int, in_linesize as int);
        lemma_row_products(y as int, out_y_linesize as int);
        lemma_row_products(y as int / 2, out_uv_linesize as int);
    }
    let in0_base = y * in_linesize;
    let in1_base = (y + 1) * in_linesize;
    let y0_base = y * out_y_linesize;
    let y1_base = (y + 1) * out_y_linesize;
    let uv_base = (y / 2) * out_uv_linesize;

    let mut x: usize = 0;
    while x < width
        invariant
            width % 2 == 0,
            x % 2 == 0,
            x <= width,
            y % 2 == 0,
            2 * width <= in_linesize,
            width <= out_y_linesize,
            width <= out_uv_linesize,
            (y + 2) * in_linesize <= input@.len(),
            (y + 2) * out_y_linesize <= output_y@.len(),
            (y / 2 + 1) * out_uv_linesize <= output_uv@.len(),
            input@.len() <= usize::MAX,
            output_y@.len() <= usize::MAX,
            output_uv@.len() <= usize::MAX,
            in0_base == y * in_linesize,
            in1_base == (y + 1) * in_linesize,
            y0_base == y * out_y_linesize,
            y1_base == (y + 1) * out_y_linesize,
            uv_base == (y / 2) * out_uv_linesize,
            output_y@.len() == old(output_y)@.len(),
            output_uv@.len() == old(output_uv)@.len(),
            forall|c: int| 0 <= c < x ==> output_y@[y * out_y_linesize + c]
                == #[trigger] uyvy_luma(input@, in_linesize as int, c, y as int),
            forall|c: int| 0 <= c < x ==> output_y@[(y + 1) * out_y_linesize + c]
                == #[trigger] uyvy_luma(input@, in_linesize as int, c, y + 1),
            forall|p: int| 0 <= p < x / 2 ==> output_uv@[(y / 2) * out_uv_linesize + 2 * p]
                == #[trigger] chroma_u(input@, in_linesize as int, p, y as int / 2),
            forall|p: int| 0 <= p < x / 2 ==> output_uv@[(y / 2) * out_uv_linesize + 2 * p + 1]
                == #[trigger] chroma_v(input@, in_linesize as int, p, y as int / 2),
            forall|i: int| 0 <= i < old(output_y)@.len()
                && !in_row_span(i, y as int, width as int, out_y_linesize as int)
                && !in_row_span(i, y + 1, width as int, out_y_linesize as int)
                ==> output_y@[i] == old(output_y)@[i],
            forall|i: int| 0 <= i < old(output_uv)@.len()
                && !in_row_span(i, y as int / 2, width as int, out_uv_linesize as int)
                ==> output_uv@[i] == old(output_uv)@[i],
        decreases width - x,
    {
        proof {
            lemma_row_products(y as int, in_linesize as int);
            lemma_row_products(y as int, out_y_linesize as int);
            lemma_row_products(y as int / 2, out_uv_linesize as int);
        }
        let in0 = in0_base + 2 * x;
        let in1 = in1_base + 2 * x;

        // The pair `U0 Y0 V0 Y1` of both source rows.
        let u0 = input[in0];
        let y00 = input[in0 + 1];
        let v0 = input[in0 + 2];
        let y01 = input[in0 + 3];

        let u1 = input[in1];
        let y10 = input[in1 + 1];
        let v1 = input[in1 + 2];
        let y11 = input[in1 + 3];

        output_y.set(y0_base + x, y00);
        output_y.set(y0_base + x + 1, y01);
        output_y.set(y1_base + x, y10);
        output_y.set(y1_base + x + 1, y11);

        let u_avg = ((u0 as u16 + u1 as u16 + 1) / 2) as u8;
        let v_avg = ((v0 as u16 + v1 as u16 + 1) / 2) as u8;

        output_uv.set(uv_base + x, u_avg);
        output_uv.set(uv_base + x + 1, v_avg);

        proof {
            assert(2 * x == 4 * (x as int / 2));
            assert(u_avg == chroma_u(input@, in_linesize as int, x as int / 2, y as int / 2));
            assert(v_avg == chroma_v(input@, in_linesize as int, x as int / 2, y as int / 2));
        }

        x = x + 2;
    }
}

/// The first `rows` luma rows of `out` (a plane with row stride
/// `out_stride`) hold the luma samples of the UYVY source `inp`.
pub open spec fn luma_plane_done(
    out: Seq<u8>,
    inp: Seq<u8>,
    in_stride: int,
    out_stride: int,
    width: int,
    rows: int,
) -> bool {
    forall|c: int, r: int| 0 <= c < width && 0 <= r < rows
        ==> out[r * out_stride + c] == #[trigger] uyvy_luma(inp, in_stride, c, r)
}

/// The first `row_pairs` rows of the interleaved NV12 chroma plane
/// `out` hold the subsampled `U V U V ...` chroma of the UYVY source.
pub open spec fn nv12_chroma_done(
    out: Seq<u8>,
    inp: Seq<u8>,
    in_stride: int,
    out_stride: int,
    width: int,
    row_pairs: int,
) -> bool {
    forall|p: int, q: int| 0 <= p < width / 2 && 0 <= q < row_pairs
        ==> out[q * out_stride + 2 * p] == #[trigger] chroma_u(inp, in_stride, p, q)
            && out[q * out_stride + 2 * p + 1] == chroma_v(inp, in_stride, p, q)
}

/// `out` agrees with `prior` everywhere outside the written region of
/// `rows` rows of `cols` bytes at stride `stride`.
pub open spec fn plane_rest_unchanged(
    out: Seq<u8>,
    prior: Seq<u8>,
    rows: int,
    cols: int,
    stride: int,
) -> bool {
    out.len() == prior.len() && forall|i: int| 0 <= i < prior.len()
        && !#[trigger] in_plane_span(i, rows, cols, stride) ==> out[i] == prior[i]
}

/// Converts UYVY (packed 4:2:2) pixels to NV12 (semi-planar 4:2:0).
///
/// Every luma byte is copied unscaled; every output chroma byte is the
/// rounded-up average of the two vertically adjacent source chroma
/// samples of its 2x2 pixel block, written interleaved `U V U V ...`.
/// Bytes of the output planes outside the written region (stride
/// padding and any tail) are left untouched.
pub fn compress_uyvy_to_nv12_scalar(
    input: &Vec<u8>,
    output_y: &mut Vec<u8>,
    output_uv: &mut Vec<u8>,
    width: usize,
    height: usize,
    in_linesize: usize,
    out_y_linesize: usize,
    out_uv_linesize: usize,
)
    requires
        width % 2 == 0,
        height % 2 == 0,
        2 * width <= in_linesize,
        width <= out_y_linesize,
        width <= out_uv_linesize,
        height * in_linesize <= input@.len(),
        height * out_y_linesize <= old(output_y)@.len(),
        (height / 2) * out_uv_linesize <= old(output_uv)@.len(),
    ensures
        luma_plane_done(final(output_y)@, input@, in_linesize as int, out_y_linesize as int,
            width as int, height as int),
        nv12_chroma_done(final(output_uv)@, input@, in_linesize as int, out_uv_linesize as int,
            width as int, height as int / 2),
        plane_rest_unchanged(final(output_y)@, old(output_y)@, height as int, width as int,
            out_y_linesize as int),
        plane_rest_unchanged(final(output_uv)@, old(output_uv)@, height as int / 2, width as int,
            out_uv_linesize as int),
{
    let mut y: usize = 0;
    while y < height
        invariant
            width % 2 == 0,
            height % 2 == 0,
            y % 2 == 0,
            y <= height,
            2 * width <= in_linesize,
            width <= out_y_linesize,
            width <= out_uv_linesize,
            height * in_linesize <= input@.len(),
            height * out_y_linesize <= old(output_y)@.len(),
            (height / 2) * out_uv_linesize <= old(output_uv)@.len(),
            luma_plane_done(output_y@, input@, in_linesize as int, out_y_linesize as int,
                width as int, y as int),
            nv12_chroma_done(output_uv@, input@, in_linesize as int, out_uv_linesize as int,
                width as int, y as int / 2),
            plane_rest_unchanged(output_y@, old(output_y)@, height as int, width as int,
                out_y_linesize as int),
            plane_rest_unchanged(output_uv@, old(output_uv)@, height as int / 2, width as int,
                out_uv_linesize as int),
        decreases height - y,
    {
        proof {
            lemma_mul_inequality(y + 2, height as int, in_linesize as int);
            lemma_mul_inequality(y + 2, height as int, out_y_linesize as int);
            lemma_mul_inequality(y as int / 2 + 1, height as int / 2, out_uv_linesize as int);
        }
        let ghost mid_y: Seq<u8> = output_y@;
        let ghost mid_uv: Seq<u8> = output_uv@;
        proof {
            assert(luma_plane_done(mid_y, input@, in_linesize as int, out_y_linesize as int,
                width as int, y as int));
            assert(nv12_chroma_done(mid_uv, input@, in_linesize as int, out_uv_linesize as int,
                width as int, y as int / 2));
        }
        nv12_row_pair(input, output_y, output_uv, width, y, in_linesize, out_y_linesize,
            out_uv_linesize);
        proof {
            // Bytes outside the final plane regions are outside the two
            // freshly written rows as well, so they kept their value.
            assert forall|i: int| 0 <= i < old(output_y)@.len()
                && !#[trigger] in_plane_span(i, height as int, width as int, out_y_linesize as int)
                implies output_y@[i] == old(output_y)@[i] by {
                if in_row_span(i, y as int, width as int, out_y_linesize as int) {
                    assert(in_plane_span(i, height as int, width as int, out_y_linesize as int));
                }
                if in_row_span(i, y + 1, width as int, out_y_linesize as int) {
                    assert(in_plane_span(i, height as int, width as int, out_y_linesize as int));
                }
                assert(output_y@[i] == mid_y[i]);
            }
            assert forall|i: int| 0 <= i < old(output_uv)@.len()
                && !#[trigger] in_plane_span(i, height as int / 2, width as int,
                    out_uv_linesize as int)
                implies output_uv@[i] == old(output_uv)@[i] by {
                if in_row_span(i, y as int / 2, width as int, out_uv_linesize as int) {
                    assert(in_plane_span(i, height as int / 2, width as int,
                        out_uv_linesize as int));
                }
                assert(output_uv@[i] == mid_uv[i]);
            }
            // Rows already converted sit below the two fresh rows, so
            // their bytes kept their value; the two fresh rows carry
            // what the row-pair conversion wrote.
            assert forall|c: int, r: int| 0 <= c < width && 0 <= r < y + 2
                implies output_y@[r * out_y_linesize + c]
                    == #[trigger] uyvy_luma(input@, in_linesize as int, c, r) by {
                lemma_row_products(r, out_y_linesize as int);
                lemma_row_products(y as int, out_y_linesize as int);
                if r < y {
                    lemma_mul_inequality(r + 1, y as int, out_y_linesize as int);
                    assert(!in_row_span(r * out_y_linesize + c, y as int, width as int,
                        out_y_linesize as int));
                    assert(!in_row_span(r * out_y_linesize + c, y + 1, width as int,
                        out_y_linesize as int));
                    assert(mid_y[r * out_y_linesize + c]
                        == uyvy_luma(input@, in_linesize as int, c, r));
                } else if r == y {
                    assert(output_y@[y * out_y_linesize + c]
                        == uyvy_luma(input@, in_linesize as int, c, y as int));
                } else {
                    assert(output_y@[(y + 1) * out_y_linesize + c]
                        == uyvy_luma(input@, in_linesize as int, c, y + 1));
                }
            }
            assert(luma_plane_done(output_y@, input@, in_linesize as int, out_y_linesize as int,
                width as int, y + 2));
            assert forall|p: int, q: int| 0 <= p < width / 2 && 0 <= q < y / 2 + 1
                implies output_uv@[q * out_uv_linesize + 2 * p]
                    == #[trigger] chroma_u(input@, in_linesize as int, p, q)
                    && output_uv@[q * out_uv_linesize + 2 * p + 1]
                    == chroma_v(input@, in_linesize as int, p, q) by {
                lemma_row_products(q, out_uv_linesize as int);
                lemma_row_products(y as int / 2, out_uv_linesize as int);
                if q < y / 2 {
                    lemma_mul_inequality(q + 1, y as int / 2, out_uv_linesize as int);
                    assert(!in_row_span(q * out_uv_linesize + 2 * p, y as int / 2, width as int,
                        out_uv_linesize as int));
                    assert(!in_row_span(q * out_uv_linesize + 2 * p + 1, y as int / 2,
                        width as int, out_uv_linesize as int));
                    assert(mid_uv[q * out_uv_linesize + 2 * p]
                        == chroma_u(input@, in_linesize as int, p, q));
                    assert(mid_uv[q * out_uv_linesize + 2 * p + 1]
                        == chroma_v(input@, in_linesize as int, p, q));
                } else {
                    assert(output_uv@[(y / 2) * out_uv_linesize + 2 * p]
                        == chroma_u(input@, in_linesize as int, p, y as int / 2));
                    assert(output_uv@[(y / 2) * out_uv_linesize + 2 * p + 1]
                        == chroma_v(input@, in_linesize as int, p, y as int / 2));
                }
            }
            assert(nv12_chroma_done(output_uv@, input@, in_linesize as int,
                out_uv_linesize as int, width as int, y as int / 2 + 1));
        }
        y = y + 2;
    }
}

/// The first `row_pairs` rows of a separate I420 chroma plane `out`
/// hold the subsampled U (when `samples` selects [`chroma_u`]) of the
/// UYVY source.
pub open spec fn i420_u_done(
    out: Seq<u8>,
    inp: Seq<u8>,
    in_stride: int,
    out_stride: int,
    width: int,
    row_pairs: int,
) -> bool {
    forall|p: int, q: int| 0 <= p < width / 2 && 0 <= q < row_pairs
        ==> out[q * out_stride + p] == #[trigger] chroma_u(inp, in_stride, p, q)
}

/// The first `row_pairs` rows of a separate I420 chroma plane `out`
/// hold the subsampled V samples of the UYVY source.
pub open spec fn i420_v_done(
    out: Seq<u8>,
    inp: Seq<u8>,
    in_stride: int,
    out_stride: int,
    width: int,
    row_pairs: int,
) -> bool {
    forall|p: int, q: int| 0 <= p < width / 2 && 0 <= q < row_pairs
        ==> out[q * out_stride + p] == #[trigger] chroma_v(inp, in_stride, p, q)
}

/// Converts one UYVY row pair `y`, `y + 1` into two luma rows and one
/// row of each separate chroma plane of an I420 frame.
fn i420_row_pair(
    input: &Vec<u8>,
    output_y: &mut Vec<u8>,
    output_u: &mut Vec<u8>,
    output_v: &mut Vec<u8>,
    width: usize,
    y: usize,
    in_linesize: usize,
    out_y_linesize: usize,
    out_u_linesize: usize,
    out_v_linesize: usize,
)
    requires
        width % 2 == 0,
        y % 2 == 0,
        2 * width <= in_linesize,
        width <= out_y_linesize,
        width / 2 <= out_u_linesize,
        width / 2 <= out_v_linesize,
        (y + 2) * in_linesize <= input@.len(),
        (y + 2) * out_y_linesize <= old(output_y)@.len(),
        (y / 2 + 1) * out_u_linesize <= old(output_u)@.len(),
        (y / 2 + 1) * out_v_linesize <= old(output_v)@.len(),
    ensures
        final(output_y)@.len() == old(output_y)@.len(),
        final(output_u)@.len() == old(output_u)@.len(),
        final(output_v)@.len() == old(output_v)@.len(),
        forall|c: int| 0 <= c < width ==> final(output_y)@[y * out_y_linesize + c]
            == #[trigger] uyvy_luma(input@, in_linesize as int, c, y as int),
        forall|c: int| 0 <= c < width ==> final(output_y)@[(y + 1) * out_y_linesize + c]
            == #[trigger] uyvy_luma(input@, in_linesize as int, c, y + 1),
        forall|p: int| 0 <= p < width / 2 ==> final(output_u)@[(y / 2) * out_u_linesize + p]
            == #[trigger] chroma_u(input@, in_linesize as int, p, y as int / 2),
        forall|p: int| 0 <= p < width / 2 ==> final(output_v)@[(y / 2) * out_v_linesize + p]
            == #[trigger] chroma_v(input@, in_linesize as int, p, y as int / 2),
        forall|i: int| 0 <= i < old(output_y)@.len()
            && !in_row_span(i, y as int, width as int, out_y_linesize as int)
            && !in_row_span(i, y + 1, width as int, out_y_linesize as int)
            ==> final(output_y)@[i] == old(output_y)@[i],
        forall|i: int| 0 <= i < old(output_u)@.len()
            && !in_row_span(i, y as int / 2, width as int / 2, out_u_linesize as int)
            ==> final(output_u)@[i] == old(output_u)@[i],
        forall|i: int| 0 <= i < old(output_v)@.len()
            && !in_row_span(i, y as int / 2, width as int / 2, out_v_linesize as int)
            ==> final(output_v)@[i] == old(output_v)@[i],
{
    let in_len = input.len();
    let y_len = output_y.len();
    let u_len = output_u.len();
    let v_len = output_v.len();
    proof {
        assert(in_len == input@.len() && y_len == output_y@.len() && u_len == output_u@.len()
            && v_len == output_v@.len());
        lemma_row_products(y as int, in_linesize as int);
        lemma_row_products(y as int, out_y_linesize as int);
        lemma_row_products(y as int / 2, out_u_linesize as int);
        lemma_row_products(y as int / 2, out_v_linesize as int);
    }
    let in0_base = y * in_linesize;
    let in1_base = (y + 1) * in_linesize;
    let y0_base = y * out_y_linesize;
    let y1_base = (y + 1) * out_y_linesize;
    let u_base = (y / 2) * out_u_linesize;
    let v_base = (y / 2) * out_v_linesize;

    let mut x: usize = 0;
    while x < width
        invariant
            width % 2 == 0,
            x % 2 == 0,
            x <= width,
            y % 2 == 0,
            2 * width <= in_linesize,
            width <= out_y_linesize,
            width / 2 <= out_u_linesize,
            width / 2 <= out_v_linesize,
            (y + 2) * in_linesize <= input@.len(),
            (y + 2) * out_y_linesize <= output_y@.len(),
            (y / 2 + 1) * out_u_linesize <= output_u@.len(),
            (y / 2 + 1) * out_v_linesize <= output_v@.len(),
            input@.len() <= usize::MAX,
            output_y@.len() <= usize::MAX,
            output_u@.len() <= usize::MAX,
            output_v@.len() <= usize::MAX,
            in0_base == y * in_linesize,
            in1_base == (y + 1) * in_linesize,
            y0_base == y * out_y_linesize,
            y1_base == (y + 1) * out_y_linesize,
            u_base == (y / 2) * out_u_linesize,
            v_base == (y / 2) * out_v_linesize,
            output_y@.len() == old(output_y)@.len(),
            output_u@.len() == old(output_u)@.len(),
            output_v@.len() == old(output_v)@.len(),
            forall|c: int| 0 <= c < x ==> output_y@[y * out_y_linesize + c]
                == #[trigger] uyvy_luma(input@, in_linesize as int, c, y as int),
            forall|c: int| 0 <= c < x ==> output_y@[(y + 1) * out_y_linesize + c]
                == #[trigger] uyvy_luma(input@, in_linesize as int, c, y + 1),
            forall|p: int| 0 <= p < x / 2 ==> output_u@[(y / 2) * out_u_linesize + p]
                == #[trigger] chroma_u(input@, in_linesize as int, p, y as int / 2),
            forall|p: int| 0 <= p < x / 2 ==> output_v@[(y / 2) * out_v_linesize + p]
                == #[trigger] chroma_v(input@, in_linesize as int, p, y as int / 2),
            forall|i: int| 0 <= i < old(output_y)@.len()
                && !in_row_span(i, y as int, width as int, out_y_linesize as int)
                && !in_row_span(i, y + 1, width as int, out_y_linesize as int)
                ==> output_y@[i] == old(output_y)@[i],
            forall|i: int| 0 <= i < old(output_u)@.len()
                && !in_row_span(i, y as int / 2, width as int / 2, out_u_linesize as int)
                ==> output_u@[i] == old(output_u)@[i],
            forall|i: int| 0 <= i < old(output_v)@.len()
                && !in_row_span(i, y as int / 2, width as int / 2, out_v_linesize as int)
                ==> output_v@[i] == old(output_v)@[i],
        decreases width - x,
    {
        proof {
            lemma_row_products(y as int, in_linesize as int);
            lemma_row_products(y as int, out_y_linesize as int);
            lemma_row_products(y as int / 2, out_u_linesize as int);
            lemma_row_products(y as int / 2, out_v_linesize as int);
        }
        let in0 = in0_base + 2 * x;
        let in1 = in1_base + 2 * x;

        // The pair `U0 Y0 V0 Y1` of both source rows.
        let u0 = input[in0];
        let y00 = input[in0 + 1];
        let v0 = input[in0 + 2];
        let y01 = input[in0 + 3];

        let u1 = input[in1];
        let y10 = input[in1 + 1];
        let v1 = input[in1 + 2];
        let y11 = input[in1 + 3];

        output_y.set(y0_base + x, y00);
        output_y.set(y0_base + x + 1, y01);
        output_y.set(y1_base + x, y10);
        output_y.set(y1_base + x + 1, y11);

        let u_avg = ((u0 as u16 + u1 as u16 + 1) / 2) as u8;
        let v_avg = ((v0 as u16 + v1 as u16 + 1) / 2) as u8;

        output_u.set(u_base + x / 2, u_avg);
        output_v.set(v_base + x / 2, v_avg);

        proof {
            assert(2 * x == 4 * (x as int / 2));
            assert(u_avg == chroma_u(input@, in_linesize as int, x as int / 2, y as int / 2));
            assert(v_avg == chroma_v(input@, in_linesize as int, x as int / 2, y as int / 2));
        }

        x = x + 2;
    }
}

/// Converts UYVY (packed 4:2:2) pixels to I420 (planar 4:2:0).
///
/// The luma plane is written exactly as for NV12; the subsampled U and
/// V samples go to two separate planes, one byte per 2x2 pixel block.
/// Bytes of the output planes outside the written regions are left
/// untouched.
pub fn compress_uyvy_to_i420_scalar(
    input: &Vec<u8>,
    output_y: &mut Vec<u8>,
    output_u: &mut Vec<u8>,
    output_v: &mut Vec<u8>,
    width: usize,
    height: usize,
    in_linesize: usize,
    out_y_linesize: usize,
    out_u_linesize: usize,
    out_v_linesize: usize,
)
    requires
        width % 2 == 0,
        height % 2 == 0,
        2 * width <= in_linesize,
        width <= out_y_linesize,
        width / 2 <= out_u_linesize,
        width / 2 <= out_v_linesize,
        height * in_linesize <= input@.len(),
        height * out_y_linesize <= old(output_y)@.len(),
        (height / 2) * out_u_linesize <= old(output_u)@.len(),
        (height / 2) * out_v_linesize <= old(output_v)@.len(),
    ensures
        luma_plane_done(final(output_y)@, input@, in_linesize as int, out_y_linesize as int,
            width as int, height as int),
        i420_u_done(final(output_u)@, input@, in_linesize as int, out_u_linesize as int,
            width as int, height as int / 2),
        i420_v_done(final(output_v)@, input@, in_linesize as int, out_v_linesize as int,
            width as int, height as int / 2),
        plane_rest_unchanged(final(output_y)@, old(output_y)@, height as int, width as int,
            out_y_linesize as int),
        plane_rest_unchanged(final(output_u)@, old(output_u)@, height as int / 2,
            width as int / 2, out_u_linesize as int),
        plane_rest_unchanged(final(output_v)@, old(output_v)@, height as int / 2,
            width as int / 2, out_v_linesize as int),
{
    let mut y: usize = 0;
    while y < height
        invariant
            width % 2 == 0,
            height % 2 == 0,
            y % 2 == 0,
            y <= height,
            2 * width <= in_linesize,
            width <= out_y_linesize,
            width / 2 <= out_u_linesize,
            width / 2 <= out_v_linesize,
            height * in_linesize <= input@.len(),
            height * out_y_linesize <= old(output_y)@.len(),
            (height / 2) * out_u_linesize <= old(output_u)@.len(),
            (height / 2) * out_v_linesize <= old(output_v)@.len(),
            luma_plane_done(output_y@, input@, in_linesize as int, out_y_linesize as int,
                width as int, y as int),
            i420_u_done(output_u@, input@, in_linesize as int, out_u_linesize as int,
                width as int, y as int / 2),
            i420_v_done(output_v@, input@, in_linesize as int, out_v_linesize as int,
                width as int, y as int / 2),
            plane_rest_unchanged(output_y@, old(output_y)@, height as int, width as int,
                out_y_linesize as int),
            plane_rest_unchanged(output_u@, old(output_u)@, height as int / 2, width as int / 2,
                out_u_linesize as int),
            plane_rest_unchanged(output_v@, old(output_v)@, height as int / 2, width as int / 2,
                out_v_linesize as int),
        decreases height - y,
    {
        proof {
            lemma_mul_inequality(y + 2, height as int, in_linesize as int);
            lemma_mul_inequality(y + 2, height as int, out_y_linesize as int);
            lemma_mul_inequality(y as int / 2 + 1, height as int / 2, out_u_linesize as int);
            lemma_mul_inequality(y as int / 2 + 1, height as int / 2, out_v_linesize as int);
        }
        let ghost mid_y: Seq<u8> = output_y@;
        let ghost mid_u: Seq<u8> = output_u@;
        let ghost mid_v: Seq<u8> = output_v@;
        proof {
            assert(luma_plane_done(mid_y, input@, in_linesize as int, out_y_linesize as int,
                width as int, y as int));
            assert(i420_u_done(mid_u, input@, in_linesize as int, out_u_linesize as int,
                width as int, y as int / 2));
            assert(i420_v_done(mid_v, input@, in_linesize as int, out_v_linesize as int,
                width as int, y as int / 2));
        }
        i420_row_pair(input, output_y, output_u, output_v, width, y, in_linesize,
            out_y_linesize, out_u_linesize, out_v_linesize);
        proof {
            assert forall|i: int| 0 <= i < old(output_y)@.len()
                && !#[trigger] in_plane_span(i, height as int, width as int, out_y_linesize as int)
                implies output_y@[i] == old(output_y)@[i] by {
                if in_row_span(i, y as int, width as int, out_y_linesize as int) {
                    assert(in_plane_span(i, height as int, width as int, out_y_linesize as int));
                }
                if in_row_span(i, y + 1, width as int, out_y_linesize as int) {
                    assert(in_plane_span(i, height as int, width as int, out_y_linesize as int));
                }
                assert(output_y@[i] == mid_y[i]);
            }
            assert forall|i: int| 0 <= i < old(output_u)@.len()
                && !#[trigger] in_plane_span(i, height as int / 2, width as int / 2,
                    out_u_linesize as int)
                implies output_u@[i] == old(output_u)@[i] by {
                if in_row_span(i, y as int / 2, width as int / 2, out_u_linesize as int) {
                    assert(in_plane_span(i, height as int / 2, width as int / 2,
                        out_u_linesize as int));
                }
                assert(output_u@[i] == mid_u[i]);
            }
            assert forall|i: int| 0 <= i < old(output_v)@.len()
                && !#[trigger] in_plane_span(i, height as int / 2, width as int / 2,
                    out_v_linesize as int)
                implies output_v@[i] == old(output_v)@[i] by {
                if in_row_span(i, y as int / 2, width as int / 2, out_v_linesize as int) {
                    assert(in_plane_span(i, height as int / 2, width as int / 2,
                        out_v_linesize as int));
                }
                assert(output_v@[i] == mid_v[i]);
            }
            assert forall|c: int, r: int| 0 <= c < width && 0 <= r < y + 2
                implies output_y@[r * out_y_linesize + c]
                    == #[trigger] uyvy_luma(input@, in_linesize as int, c, r) by {
                lemma_row_products(r, out_y_linesize as int);
                lemma_row_products(y as int, out_y_linesize as int);
                if r < y {
                    lemma_mul_inequality(r + 1, y as int, out_y_linesize as int);
                    assert(!in_row_span(r * out_y_linesize + c, y as int, width as int,
                        out_y_linesize as int));
                    assert(!in_row_span(r * out_y_linesize + c, y + 1, width as int,
                        out_y_linesize as int));
                    assert(mid_y[r * out_y_linesize + c]
                        == uyvy_luma(input@, in_linesize as int, c, r));
                } else if r == y {
                    assert(output_y@[y * out_y_linesize + c]
                        == uyvy_luma(input@, in_linesize as int, c, y as int));
                } else {
                    assert(output_y@[(y + 1) * out_y_linesize + c]
                        == uyvy_luma(input@, in_linesize as int, c, y + 1));
                }
            }
            assert(luma_plane_done(output_y@, input@, in_linesize as int, out_y_linesize as int,
                width as int, y + 2));
            assert forall|p: int, q: int| 0 <= p < width / 2 && 0 <= q < y / 2 + 1
                implies output_u@[q * out_u_linesize + p]
                    == #[trigger] chroma_u(input@, in_linesize as int, p, q) by {
                lemma_row_products(q, out_u_linesize as int);
                lemma_row_products(y as int / 2, out_u_linesize as int);
                if q < y / 2 {
                    lemma_mul_inequality(q + 1, y as int / 2, out_u_linesize as int);
                    assert(!in_row_span(q * out_u_linesize + p, y as int / 2, width as int / 2,
                        out_u_linesize as int));
                    assert(mid_u[q * out_u_linesize + p]
                        == chroma_u(input@, in_linesize as int, p, q));
                } else {
                    assert(output_u@[(y / 2) * out_u_linesize + p]
                        == chroma_u(input@, in_linesize as int, p, y as int / 2));
                }
            }
            assert(i420_u_done(output_u@, input@, in_linesize as int, out_u_linesize as int,
                width as int, y as int / 2 + 1));
            assert forall|p: int, q: int| 0 <= p < width / 2 && 0 <= q < y / 2 + 1
                implies output_v@[q * out_v_linesize + p]
                    == #[trigger] chroma_v(input@, in_linesize as int, p, q) by {
                lemma_row_products(q, out_v_linesize as int);
                lemma_row_products(y as int / 2, out_v_linesize as int);
                if q < y / 2 {
                    lemma_mul_inequality(q + 1, y as int / 2, out_v_linesize as int);
                    assert(!in_row_span(q * out_v_linesize + p, y as int / 2, width as int / 2,
                        out_v_linesize as int));
                    assert(mid_v[q * out_v_linesize + p]
                        == chroma_v(input@, in_linesize as int, p, q));
                } else {
                    assert(output_v@[(y / 2) * out_v_linesize + p]
                        == chroma_v(input@, in_linesize as int, p, y as int / 2));
                }
            }
            assert(i420_v_done(output_v@, input@, in_linesize as int, out_v_linesize as int,
                width as int, y as int / 2 + 1));
        }
        y = y + 2;
    }
}

/// The dispatch rule for a SIMD fast path: it may be taken only when
/// the host advertises the required capability and the width is a
/// whole number of SIMD lanes.  Otherwise the scalar reference runs.
pub fn simd_lane_eligible(width: usize, lanes: usize, has_feature: bool) -> (b: bool)
    ensures
        b == (has_feature && lanes > 0 && width % lanes == 0),
{
    has_feature && lanes > 0 && width % lanes == 0
}

} // verus!
