use voice_segmenter::config::{samples_for_duration, ConfigError, SegmenterConfig};

fn base() -> SegmenterConfig {
    SegmenterConfig {
        threshold: 300,
        min_speech_samples: 8000,
        silence_samples: 4800,
        max_samples: 160000,
        tick_samples: 1600,
    }
}

#[test]
fn valid_configuration_is_accepted() {
    assert_eq!(base().validate(), Ok(()));
}

#[test]
fn each_malformed_configuration_is_refused() {
    assert_eq!(SegmenterConfig { threshold: 0, ..base() }.validate(), Err(ConfigError::ZeroThreshold));
    assert_eq!(SegmenterConfig { silence_samples: 0, ..base() }.validate(), Err(ConfigError::ZeroSilence));
    assert_eq!(SegmenterConfig { max_samples: 0, min_speech_samples: 0, ..base() }.validate(), Err(ConfigError::ZeroMaximum));
    assert_eq!(SegmenterConfig { tick_samples: 0, ..base() }.validate(), Err(ConfigError::ZeroTick));
    assert_eq!(
        SegmenterConfig { min_speech_samples: 200000, ..base() }.validate(),
        Err(ConfigError::MinimumAboveMaximum)
    );
}

#[test]
fn minimum_equal_to_maximum_is_accepted() {
    assert_eq!(SegmenterConfig { min_speech_samples: 160000, ..base() }.validate(), Ok(()));
}

#[test]
fn durations_become_sample_counts() {
    assert_eq!(samples_for_duration(16000, 1, 500), Some(8000));
    assert_eq!(samples_for_duration(44100, 2, 300), Some(26460));
    assert_eq!(samples_for_duration(44100, 1, 1), Some(44));
    assert_eq!(samples_for_duration(0, 2, 300), Some(0));
}

#[test]
fn configuration_from_durations() {
    let c = SegmenterConfig::from_durations(16000, 1, 300, 500, 300, 10000, 100);
    assert_eq!(c, Ok(base()));
    let stereo = SegmenterConfig::from_durations(48000, 2, 300, 500, 300, 10000, 100).unwrap();
    assert_eq!(stereo.min_speech_samples, 48000);
    assert_eq!(stereo.silence_samples, 28800);
    assert_eq!(stereo.max_samples, 960000);
    assert_eq!(stereo.tick_samples, 9600);
}

#[test]
fn configuration_from_durations_refuses_bad_values() {
    assert_eq!(
        SegmenterConfig::from_durations(16000, 1, 300, 20000, 300, 10000, 100),
        Err(ConfigError::MinimumAboveMaximum)
    );
    assert_eq!(
        SegmenterConfig::from_durations(16000, 1, 300, 500, 300, 10000, 0),
        Err(ConfigError::ZeroTick)
    );
}
