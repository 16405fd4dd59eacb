use speech2text::{frame_sample_count, tier_for_rate, ConfigError, FvadMode, FvadSampleLength, SampleTier};

#[test]
fn sample_length_accepts_all_spellings() {
    for s in ["10", "10ms", "10 ms"] {
        assert_eq!(FvadSampleLength::parse_str(s), Ok(FvadSampleLength::Length10ms));
    }
    for s in ["20", "20ms", "20 ms"] {
        assert_eq!(FvadSampleLength::parse_str(s), Ok(FvadSampleLength::Length20ms));
    }
    for s in ["30", "30ms", "30 ms"] {
        assert_eq!(FvadSampleLength::parse_str(s), Ok(FvadSampleLength::Length30ms));
    }
}

#[test]
fn sample_length_rejects_others() {
    for s in ["", "15", "10 MS", "10ms ", "40ms", "1"] {
        assert_eq!(FvadSampleLength::parse_str(s), Err(ConfigError::InvalidSampleLength));
    }
}

#[test]
fn sample_length_from_str_trait() {
    let parsed: FvadSampleLength = "20ms".parse().unwrap();
    assert_eq!(parsed, FvadSampleLength::Length20ms);
    assert_eq!(parsed.millis(), 20);
    assert_eq!(FvadSampleLength::Length10ms.millis(), 10);
    assert_eq!(FvadSampleLength::Length30ms.millis(), 30);
}

#[test]
fn mode_accepts_numbers_and_names() {
    for s in ["0", "quality"] {
        assert_eq!(FvadMode::parse_str(s), Ok(FvadMode::Quality));
    }
    for s in ["1", "low bitrate", "low-bitrate", "low_bitrate", "lowbitrate"] {
        assert_eq!(FvadMode::parse_str(s), Ok(FvadMode::LowBitrate));
    }
    for s in ["2", "aggressive"] {
        assert_eq!(FvadMode::parse_str(s), Ok(FvadMode::Aggressive));
    }
    for s in ["3", "very aggressive", "very-aggressive", "very_aggressive", "veryaggressive"] {
        assert_eq!(FvadMode::parse_str(s), Ok(FvadMode::VeryAggressive));
    }
}

#[test]
fn mode_rejects_others() {
    for s in ["", "4", "Quality", "very  aggressive", "aggresive"] {
        assert_eq!(FvadMode::parse_str(s), Err(ConfigError::InvalidMode));
    }
    let parsed: Result<FvadMode, ConfigError> = "low-bitrate".parse();
    assert_eq!(parsed, Ok(FvadMode::LowBitrate));
}

#[test]
fn rate_maps_to_tier_by_ratio() {
    assert_eq!(tier_for_rate(8000), Ok(SampleTier::Rate8kHz));
    assert_eq!(tier_for_rate(15999), Ok(SampleTier::Rate8kHz));
    assert_eq!(tier_for_rate(16000), Ok(SampleTier::Rate16kHz));
    assert_eq!(tier_for_rate(22050), Ok(SampleTier::Rate16kHz));
    assert_eq!(tier_for_rate(31999), Ok(SampleTier::Rate16kHz));
    assert_eq!(tier_for_rate(32000), Ok(SampleTier::Rate32kHz));
    assert_eq!(tier_for_rate(44100), Ok(SampleTier::Rate32kHz));
    assert_eq!(tier_for_rate(48000), Ok(SampleTier::Rate48kHz));
    assert_eq!(tier_for_rate(55999), Ok(SampleTier::Rate48kHz));
}

#[test]
fn rate_without_tier_is_rejected() {
    for rate in [0u32, 7999, 56000, 96000, u32::MAX] {
        assert_eq!(tier_for_rate(rate), Err(ConfigError::UnsupportedSampleRate(rate)));
    }
}

#[test]
fn tier_rates_in_hz() {
    assert_eq!(SampleTier::Rate8kHz.hz(), 8000);
    assert_eq!(SampleTier::Rate16kHz.hz(), 16000);
    assert_eq!(SampleTier::Rate32kHz.hz(), 32000);
    assert_eq!(SampleTier::Rate48kHz.hz(), 48000);
}

#[test]
fn frame_sample_count_per_duration_and_tier() {
    assert_eq!(frame_sample_count(FvadSampleLength::Length10ms, SampleTier::Rate8kHz), 80);
    assert_eq!(frame_sample_count(FvadSampleLength::Length20ms, SampleTier::Rate8kHz), 160);
    assert_eq!(frame_sample_count(FvadSampleLength::Length30ms, SampleTier::Rate8kHz), 240);
    assert_eq!(frame_sample_count(FvadSampleLength::Length10ms, SampleTier::Rate16kHz), 160);
    assert_eq!(frame_sample_count(FvadSampleLength::Length20ms, SampleTier::Rate32kHz), 640);
    assert_eq!(frame_sample_count(FvadSampleLength::Length30ms, SampleTier::Rate48kHz), 1440);
}
