//! Video data types: pixel formats, frames, and output descriptors.

use vstd::prelude::*;

verus! {

/// Video pixel format.
///
/// The wire encoding of each variant (the value used across the C
/// boundary) is given by [`VideoFormat::wire_code`].
#[derive(Debug, Clone, Copy, PartialEq, Eq, Structural)]
pub enum VideoFormat {
    /// No format / unknown.
    Unknown,
    /// Planar YUV 4:2:0.
    I420,
    /// Semi-planar YUV 4:2:0 (Y plane, interleaved UV plane).
    NV12,
    /// Packed YUV 4:2:2.
    YVYU,
    /// Packed YUV 4:2:2.
    YUY2,
    /// Packed YUV 4:2:2.
    UYVY,
    /// Packed RGB.
    RGBA,
    /// Packed BGR.
    BGRA,
    /// Packed BGR without alpha.
    BGRX,
    /// Grayscale.
    Y800,
    /// Planar YUV 4:4:4.
    I444,
    /// Packed BGR 24-bit.
    BGR3,
    /// Planar YUV 4:2:2.
    I422,
    /// Planar YUVA 4:2:0.
    I40A,
    /// Planar YUVA 4:2:2.
    I42A,
    /// Planar YUVA 4:4:4.
    YUVA,
    /// Packed YUVA 4:4:4.
    AYUV,
    /// Planar YUV 4:2:0 10-bit.
    I010,
    /// Semi-planar YUV 4:2:0 10-bit.
    P010,
    /// Planar YUV 4:2:2 10-bit.
    I210,
    /// Planar YUV 4:4:4 12-bit.
    I412,
    /// Packed YUVA 4:2:2 10-bit.
    YA2L,
    /// Semi-planar YUV 4:2:2 16-bit.
    P216,
    /// Semi-planar YUV 4:4:4 16-bit.
    P416,
    /// Packed RGB 10-bit.
    R10L,
}

impl VideoFormat {
    /// Stable wire value of this format.
    pub open spec fn wire_code_spec(self) -> u32 {
        match self {
            VideoFormat::Unknown => 0,
            VideoFormat::I420 => 1,
            VideoFormat::NV12 => 2,
            VideoFormat::YVYU => 3,
            VideoFormat::YUY2 => 4,
            VideoFormat::UYVY => 5,
            VideoFormat::RGBA => 6,
            VideoFormat::BGRA => 7,
            VideoFormat::BGRX => 8,
            VideoFormat::Y800 => 9,
            VideoFormat::I444 => 10,
            VideoFormat::BGR3 => 11,
            VideoFormat::I422 => 12,
            VideoFormat::I40A => 13,
            VideoFormat::I42A => 14,
            VideoFormat::YUVA => 15,
            VideoFormat::AYUV => 16,
            VideoFormat::I010 => 17,
            VideoFormat::P010 => 18,
            VideoFormat::I210 => 19,
            VideoFormat::I412 => 20,
            VideoFormat::YA2L => 21,
            VideoFormat::P216 => 22,
            VideoFormat::P416 => 23,
            VideoFormat::R10L => 24,
        }
    }

    /// Stable wire value of this format, for the unverified boundary.
    pub fn wire_code(self) -> (c: u32)
        ensures
            c == self.wire_code_spec(),
    {
        match self {
            VideoFormat::Unknown => 0,
            VideoFormat::I420 => 1,
            VideoFormat::NV12 => 2,
            VideoFormat::YVYU => 3,
            VideoFormat::YUY2 => 4,
            VideoFormat::UYVY => 5,
            VideoFormat::RGBA => 6,
            VideoFormat::BGRA => 7,
            VideoFormat::BGRX => 8,
            VideoFormat::Y800 => 9,
            VideoFormat::I444 => 10,
            VideoFormat::BGR3 => 11,
            VideoFormat::I422 => 12,
            VideoFormat::I40A => 13,
            VideoFormat::I42A => 14,
            VideoFormat::YUVA => 15,
            VideoFormat::AYUV => 16,
            VideoFormat::I010 => 17,
            VideoFormat::P010 => 18,
            VideoFormat::I210 => 19,
            VideoFormat::I412 => 20,
            VideoFormat::YA2L => 21,
            VideoFormat::P216 => 22,
            VideoFormat::P416 => 23,
            VideoFormat::R10L => 24,
        }
    }

    /// The format whose wire value is `c`, if any.
    pub fn from_wire(c: u32) -> (f: Option<VideoFormat>)
        ensures
            f matches Some(fmt) ==> fmt.wire_code_spec() == c,
            f is None ==> c > 24,
    {
        match c {
            0 => Some(VideoFormat::Unknown),
            1 => Some(VideoFormat::I420),
            2 => Some(VideoFormat::NV12),
            3 => Some(VideoFormat::YVYU),
            4 => Some(VideoFormat::YUY2),
            5 => Some(VideoFormat::UYVY),
            6 => Some(VideoFormat::RGBA),
            7 => Some(VideoFormat::BGRA),
            8 => Some(VideoFormat::BGRX),
            9 => Some(VideoFormat::Y800),
            10 => Some(VideoFormat::I444),
            11 => Some(VideoFormat::BGR3),
            12 => Some(VideoFormat::I422),
            13 => Some(VideoFormat::I40A),
            14 => Some(VideoFormat::I42A),
            15 => Some(VideoFormat::YUVA),
            16 => Some(VideoFormat::AYUV),
            17 => Some(VideoFormat::I010),
            18 => Some(VideoFormat::P010),
            19 => Some(VideoFormat::I210),
            20 => Some(VideoFormat::I412),
            21 => Some(VideoFormat::YA2L),
            22 => Some(VideoFormat::P216),
            23 => Some(VideoFormat::P416),
            24 => Some(VideoFormat::R10L),
            _ => None,
        }
    }

    /// Number of planes for this format.
    pub open spec fn plane_count_spec(self) -> usize {
        match self {
            VideoFormat::Unknown => 0,
            VideoFormat::I420 | VideoFormat::I444 | VideoFormat::I422 => 3,
            VideoFormat::I40A | VideoFormat::I42A | VideoFormat::YUVA => 4,
            VideoFormat::NV12 | VideoFormat::P010 => 2,
            _ => 1,
        }
    }

    /// Returns the number of planes for this format.
    pub fn plane_count(self) -> (n: usize)
        ensures
            n == self.plane_count_spec(),
    {
        match self {
            VideoFormat::Unknown => 0,
            VideoFormat::I420 | VideoFormat::I444 | VideoFormat::I422 => 3,
            VideoFormat::I40A | VideoFormat::I42A | VideoFormat::YUVA => 4,
            VideoFormat::NV12 | VideoFormat::P010 => 2,
            _ => 1,
        }
    }

    /// Bytes per pixel for packed formats; 0 for planar formats.
    pub open spec fn bytes_per_pixel_spec(self) -> usize {
        match self {
            VideoFormat::RGBA | VideoFormat::BGRA | VideoFormat::BGRX | VideoFormat::AYUV => 4,
            VideoFormat::BGR3 => 3,
            VideoFormat::YVYU | VideoFormat::YUY2 | VideoFormat::UYVY => 2,
            VideoFormat::Y800 => 1,
            _ => 0,
        }
    }

    /// Returns bytes per pixel for packed formats.
    pub fn bytes_per_pixel(self) -> (n: usize)
        ensures
            n == self.bytes_per_pixel_spec(),
    {
        match self {
            VideoFormat::RGBA | VideoFormat::BGRA | VideoFormat::BGRX | VideoFormat::AYUV => 4,
            VideoFormat::BGR3 => 3,
            VideoFormat::YVYU | VideoFormat::YUY2 | VideoFormat::UYVY => 2,
            VideoFormat::Y800 => 1,
            _ => 0,
        }
    }

    /// Check if the format stores its samples in more than one plane.
    pub fn is_planar(self) -> (b: bool)
        ensures
            b == (self.plane_count_spec() > 1),
    {
        self.plane_count() > 1
    }

    /// Total frame size in bytes for a `width` x `height` frame,
    /// as a mathematical integer.
    pub open spec fn size_spec(self, width: u32, height: u32) -> int {
        match self {
            VideoFormat::I420 | VideoFormat::NV12 => {
                width * height + (width / 2) * (height / 2) * 2
            },
            VideoFormat::I444 => width * height * 3,
            VideoFormat::RGBA | VideoFormat::BGRA => width * height * 4,
            _ => width * height * self.bytes_per_pixel_spec(),
        }
    }

    /// Calculate the frame size in bytes.
    ///
    /// The size must fit the machine word; dimensions of real frames
    /// (up to 8K video) stay far below that bound.
    pub fn calculate_size(self, width: u32, height: u32) -> (size: usize)
        requires
            self.size_spec(width, height) <= usize::MAX,
            width * height * 4 <= usize::MAX,
        ensures
            size == self.size_spec(width, height),
    {
        let w = width as usize;
        let h = height as usize;
        match self {
            VideoFormat::I420 | VideoFormat::NV12 => {
                let y_size = w * h;
                let uv_size = (w / 2) * (h / 2);
                y_size + uv_size * 2
            },
            VideoFormat::I444 => w * h * 3,
            VideoFormat::RGBA | VideoFormat::BGRA => w * h * 4,
            _ => w * h * self.bytes_per_pixel(),
        }
    }
}

/// A video frame handle.
///
/// A frame borrowed from the pool does not carry raw storage itself:
/// `planes` holds the byte offset of each plane inside the backing
/// allocation of the pool slot named by `slot`, and the unverified
/// layer that owns the allocations resolves offsets to addresses.
/// A frame not borrowed from any pool carries `slot == usize::MAX`.
#[derive(Debug, Clone, Copy)]
pub struct VideoFrame {
    /// Byte offset of each plane within the slot's backing allocation.
    pub planes: [usize; 4],
    /// Row stride of each plane in bytes.
    pub linesize: [u32; 4],
    /// Frame width in pixels.
    pub width: u32,
    /// Frame height in pixels.
    pub height: u32,
    /// Pixel format.
    pub format: VideoFormat,
    /// Capture timestamp.
    pub timestamp: u64,
    /// Index of the pool slot this frame borrows, or `usize::MAX`.
    pub slot: usize,
}

impl VideoFrame {
    /// Create a detached frame handle with empty planes.
    pub fn new(width: u32, height: u32, format: VideoFormat) -> (f: VideoFrame)
        ensures
            f.planes == [0usize, 0usize, 0usize, 0usize],
            f.linesize == [0u32, 0u32, 0u32, 0u32],
            f.width == width,
            f.height == height,
            f.format == format,
            f.timestamp == 0,
            f.slot == usize::MAX,
    {
        VideoFrame {
            planes: [0, 0, 0, 0],
            linesize: [0, 0, 0, 0],
            width,
            height,
            format,
            timestamp: 0,
            slot: usize::MAX,
        }
    }
}

/// Video output configuration.
#[derive(Debug, Clone, Copy)]
pub struct VideoOutputInfo {
    pub width: u32,
    pub height: u32,
    pub fps_num: u32,
    pub fps_den: u32,
    /// A [`VideoFormat`] wire value.
    pub format: u32,
}

/// Colorspace of video data.
#[derive(Debug, Clone, Copy, PartialEq, Eq, Structural)]
pub enum ColorSpace {
    Unspecified,
    /// BT.601 (SD).
    CS601,
    /// BT.709 (HD).
    CS709,
    /// sRGB.
    SRGB,
    /// BT.2100 PQ (HDR).
    CS2100PQ,
    /// BT.2100 HLG (HDR).
    CS2100HLG,
}

/// Color range of video data.
#[derive(Debug, Clone, Copy, PartialEq, Eq, Structural)]
pub enum ColorRange {
    Unspecified,
    /// Limited range (16-235).
    Partial,
    /// Full range (0-255).
    Full,
}

} // verus!
