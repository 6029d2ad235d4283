use compositor_core::audio_types::{AudioConfig, AudioFormat, SpeakerLayout};

#[test]
fn test_audio_format_bytes_per_sample() {
    assert_eq!(AudioFormat::U8Bit.bytes_per_sample(), 1);
    assert_eq!(AudioFormat::I16BitPlanar.bytes_per_sample(), 2);
    assert_eq!(AudioFormat::I32Bit.bytes_per_sample(), 4);
    assert_eq!(AudioFormat::Float32Planar.bytes_per_sample(), 4);
    assert_eq!(AudioFormat::Unknown.bytes_per_sample(), 0);
}

#[test]
fn test_audio_format_planar() {
    assert!(AudioFormat::Float32Planar.is_planar());
    assert!(AudioFormat::U8BitPlanar.is_planar());
    assert!(!AudioFormat::Float32Bit.is_planar());
    assert!(!AudioFormat::Unknown.is_planar());
}

#[test]
fn test_speaker_layout_channel_count() {
    assert_eq!(SpeakerLayout::Unknown.channel_count(), 0);
    assert_eq!(SpeakerLayout::Mono.channel_count(), 1);
    assert_eq!(SpeakerLayout::Stereo.channel_count(), 2);
    assert_eq!(SpeakerLayout::FiveOne.channel_count(), 6);
    assert_eq!(SpeakerLayout::SevenOne.channel_count(), 8);
}

#[test]
fn test_speaker_layout_wire_codes() {
    // The wire value equals the channel count, so 7.1 carries 8.
    assert_eq!(SpeakerLayout::SevenOne.wire_code(), 8);
    assert_eq!(SpeakerLayout::from_wire(7), None);
    assert_eq!(SpeakerLayout::from_wire(8), Some(SpeakerLayout::SevenOne));
    assert_eq!(SpeakerLayout::from_wire(2), Some(SpeakerLayout::Stereo));
}

#[test]
fn test_audio_config_default() {
    let config = AudioConfig::default();
    assert_eq!(config.sample_rate, 48000);
    assert_eq!(config.channels, 2);
    assert_eq!(config.frames, 1024);
    assert_eq!(config.format, AudioFormat::Float32Planar);
    assert_eq!(config.layout, SpeakerLayout::Stereo);
}

#[test]
fn test_audio_format_wire_codes() {
    assert_eq!(AudioFormat::Unknown.wire_code(), 0);
    assert_eq!(AudioFormat::Float32Bit.wire_code(), 4);
    assert_eq!(AudioFormat::Float32Planar.wire_code(), 8);
    assert_eq!(AudioFormat::from_wire(8), Some(AudioFormat::Float32Planar));
    assert_eq!(AudioFormat::from_wire(9), None);
}
