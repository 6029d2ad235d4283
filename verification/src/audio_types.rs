//! Audio configuration types: sample formats, speaker layouts, and
//! mixer statistics.
//!
//! The sample buffers themselves are floating-point and are summed and
//! clamped outside the verified core; this module carries the
//! configuration facts the mixer is built from.

use vstd::prelude::*;

verus! {

/// Audio sample format.
#[derive(Debug, Clone, Copy, PartialEq, Eq, Structural)]
pub enum AudioFormat {
    Unknown,
    /// Unsigned 8-bit, interleaved.
    U8Bit,
    /// Signed 16-bit, interleaved.
    I16Bit,
    /// Signed 32-bit, interleaved.
    I32Bit,
    /// 32-bit float, interleaved.
    Float32Bit,
    /// Unsigned 8-bit, planar.
    U8BitPlanar,
    /// Signed 16-bit, planar.
    I16BitPlanar,
    /// Signed 32-bit, planar.
    I32BitPlanar,
    /// 32-bit float, planar.
    Float32Planar,
}

impl AudioFormat {
    /// Bytes each sample occupies; 0 for an unknown format.
    pub open spec fn bytes_per_sample_spec(self) -> usize {
        match self {
            AudioFormat::U8Bit | AudioFormat::U8BitPlanar => 1,
            AudioFormat::I16Bit | AudioFormat::I16BitPlanar => 2,
            AudioFormat::I32Bit | AudioFormat::I32BitPlanar => 4,
            AudioFormat::Float32Bit | AudioFormat::Float32Planar => 4,
            AudioFormat::Unknown => 0,
        }
    }

    /// Returns the bytes each sample occupies.
    pub fn bytes_per_sample(self) -> (n: usize)
        ensures
            n == self.bytes_per_sample_spec(),
    {
        match self {
            AudioFormat::U8Bit | AudioFormat::U8BitPlanar => 1,
            AudioFormat::I16Bit | AudioFormat::I16BitPlanar => 2,
            AudioFormat::I32Bit | AudioFormat::I32BitPlanar => 4,
            AudioFormat::Float32Bit | AudioFormat::Float32Planar => 4,
            AudioFormat::Unknown => 0,
        }
    }

    /// Whether each channel occupies a contiguous buffer of its own.
    pub open spec fn is_planar_spec(self) -> bool {
        match self {
            AudioFormat::U8BitPlanar | AudioFormat::I16BitPlanar | AudioFormat::I32BitPlanar
                | AudioFormat::Float32Planar => true,
            _ => false,
        }
    }

    /// Check if the format is planar.
    pub fn is_planar(self) -> (b: bool)
        ensures
            b == self.is_planar_spec(),
    {
        matches!(
            self,
            AudioFormat::U8BitPlanar | AudioFormat::I16BitPlanar | AudioFormat::I32BitPlanar
                | AudioFormat::Float32Planar
        )
    }

    /// Stable wire value of this format.
    pub open spec fn wire_code_spec(self) -> u32 {
        match self {
            AudioFormat::Unknown => 0,
            AudioFormat::U8Bit => 1,
            AudioFormat::I16Bit => 2,
            AudioFormat::I32Bit => 3,
            AudioFormat::Float32Bit => 4,
            AudioFormat::U8BitPlanar => 5,
            AudioFormat::I16BitPlanar => 6,
            AudioFormat::I32BitPlanar => 7,
            AudioFormat::Float32Planar => 8,
        }
    }

    /// Stable wire value of this format.
    pub fn wire_code(self) -> (c: u32)
        ensures
            c == self.wire_code_spec(),
    {
        match self {
            AudioFormat::Unknown => 0,
            AudioFormat::U8Bit => 1,
            AudioFormat::I16Bit => 2,
            AudioFormat::I32Bit => 3,
            AudioFormat::Float32Bit => 4,
            AudioFormat::U8BitPlanar => 5,
            AudioFormat::I16BitPlanar => 6,
            AudioFormat::I32BitPlanar => 7,
            AudioFormat::Float32Planar => 8,
        }
    }

    /// The format whose wire value is `c`, if any.
    pub fn from_wire(c: u32) -> (f: Option<AudioFormat>)
        ensures
            f matches Some(fmt) ==> fmt.wire_code_spec() == c,
            f is None ==> c > 8,
    {
        match c {
            0 => Some(AudioFormat::Unknown),
            1 => Some(AudioFormat::U8Bit),
            2 => Some(AudioFormat::I16Bit),
            3 => Some(AudioFormat::I32Bit),
            4 => Some(AudioFormat::Float32Bit),
            5 => Some(AudioFormat::U8BitPlanar),
            6 => Some(AudioFormat::I16BitPlanar),
            7 => Some(AudioFormat::I32BitPlanar),
            8 => Some(AudioFormat::Float32Planar),
            _ => None,
        }
    }
}

/// Speaker layout of an audio stream.
#[derive(Debug, Clone, Copy, PartialEq, Eq, Structural)]
pub enum SpeakerLayout {
    Unknown,
    Mono,
    Stereo,
    /// 2.1 surround.
    TwoOne,
    /// 4.0 surround.
    Quad,
    /// 4.1 surround.
    FourOne,
    /// 5.1 surround.
    FiveOne,
    /// 7.1 surround.
    SevenOne,
}

impl SpeakerLayout {
    /// Number of channels of this layout.
    pub open spec fn channel_count_spec(self) -> usize {
        match self {
            SpeakerLayout::Unknown => 0,
            SpeakerLayout::Mono => 1,
            SpeakerLayout::Stereo => 2,
            SpeakerLayout::TwoOne => 3,
            SpeakerLayout::Quad => 4,
            SpeakerLayout::FourOne => 5,
            SpeakerLayout::FiveOne => 6,
            SpeakerLayout::SevenOne => 8,
        }
    }

    /// Returns the number of channels of this layout.
    pub fn channel_count(self) -> (n: usize)
        ensures
            n == self.channel_count_spec(),
    {
        match self {
            SpeakerLayout::Unknown => 0,
            SpeakerLayout::Mono => 1,
            SpeakerLayout::Stereo => 2,
            SpeakerLayout::TwoOne => 3,
            SpeakerLayout::Quad => 4,
            SpeakerLayout::FourOne => 5,
            SpeakerLayout::FiveOne => 6,
            SpeakerLayout::SevenOne => 8,
        }
    }

    /// Stable wire value of this layout.  The value equals the
    /// channel count, which is why 7.1 carries 8.
    pub open spec fn wire_code_spec(self) -> u32 {
        match self {
            SpeakerLayout::Unknown => 0,
            SpeakerLayout::Mono => 1,
            SpeakerLayout::Stereo => 2,
            SpeakerLayout::TwoOne => 3,
            SpeakerLayout::Quad => 4,
            SpeakerLayout::FourOne => 5,
            SpeakerLayout::FiveOne => 6,
            SpeakerLayout::SevenOne => 8,
        }
    }

    /// Stable wire value of this layout.
    pub fn wire_code(self) -> (c: u32)
        ensures
            c == self.wire_code_spec(),
    {
        match self {
            SpeakerLayout::Unknown => 0,
            SpeakerLayout::Mono => 1,
            SpeakerLayout::Stereo => 2,
            SpeakerLayout::TwoOne => 3,
            SpeakerLayout::Quad => 4,
            SpeakerLayout::FourOne => 5,
            SpeakerLayout::FiveOne => 6,
            SpeakerLayout::SevenOne => 8,
        }
    }

    /// The layout whose wire value is `c`, if any.  The wire value 7
    /// is unassigned.
    pub fn from_wire(c: u32) -> (l: Option<SpeakerLayout>)
        ensures
            l matches Some(layout) ==> layout.wire_code_spec() == c,
            l is None ==> c == 7 || c > 8,
    {
        match c {
            0 => Some(SpeakerLayout::Unknown),
            1 => Some(SpeakerLayout::Mono),
            2 => Some(SpeakerLayout::Stereo),
            3 => Some(SpeakerLayout::TwoOne),
            4 => Some(SpeakerLayout::Quad),
            5 => Some(SpeakerLayout::FourOne),
            6 => Some(SpeakerLayout::FiveOne),
            8 => Some(SpeakerLayout::SevenOne),
            _ => None,
        }
    }
}

/// Audio buffer configuration a mixer is built from.
#[derive(Debug, Clone, Copy)]
pub struct AudioConfig {
    pub sample_rate: u32,
    pub channels: usize,
    pub frames: usize,
    pub format: AudioFormat,
    pub layout: SpeakerLayout,
}

impl Default for AudioConfig {
    /// The default configuration: stereo planar float at 48 kHz with
    /// 1024-frame buffers.
    fn default() -> (c: AudioConfig)
        ensures
            c.sample_rate == 48000,
            c.channels == 2,
            c.frames == 1024,
            c.format == AudioFormat::Float32Planar,
            c.layout == SpeakerLayout::Stereo,
    {
        AudioConfig {
            sample_rate: 48000,
            channels: 2,
            frames: 1024,
            format: AudioFormat::Float32Planar,
            layout: SpeakerLayout::Stereo,
        }
    }
}

/// A snapshot of mixer statistics.
#[derive(Debug, Clone, Copy, PartialEq, Eq, Structural)]
pub struct AudioMixerStats {
    /// Buffers processed over the mixer's life.
    pub frames_processed: u64,
    /// Buses with at least one encoder connected.
    pub active_mixes: usize,
    /// Encoder connections over all buses.
    pub total_inputs: usize,
}

} // verus!
