use vstd::prelude::*;

verus! {

/// Tuning of the segmentation automaton. Every duration is a count of
/// interleaved samples (frames times channels).
#[derive(Clone, Copy, Debug, PartialEq, Eq)]
pub struct SegmenterConfig {
    /// RMS amplitude at or above which a block counts as speech.
    pub threshold: u32,
    /// Shortest segment that is handed on; shorter ones are dropped.
    pub min_speech_samples: usize,
    /// Run of quiet samples that ends a segment.
    pub silence_samples: usize,
    /// Length at which a segment is flushed whatever its content.
    pub max_samples: usize,
    /// Quiet samples that one idle tick stands for.
    pub tick_samples: usize,
}

/// Why a configuration was refused.
#[derive(Clone, Copy, Debug, PartialEq, Eq)]
pub enum ConfigError {
    ZeroThreshold,
    ZeroSilence,
    ZeroMaximum,
    ZeroTick,
    MinimumAboveMaximum,
    /// A duration does not fit in a sample count of this machine.
    DurationTooLong,
}

impl SegmenterConfig {
    /// The first rule that the configuration breaks, if any.
    pub open spec fn first_error(&self) -> Option<ConfigError> {
        if self.threshold == 0 {
            Some(ConfigError::ZeroThreshold)
        } else if self.silence_samples == 0 {
            Some(ConfigError::ZeroSilence)
        } else if self.max_samples == 0 {
            Some(ConfigError::ZeroMaximum)
        } else if self.tick_samples == 0 {
            Some(ConfigError::ZeroTick)
        } else if self.min_speech_samples > self.max_samples {
            Some(ConfigError::MinimumAboveMaximum)
        } else {
            None
        }
    }

    pub open spec fn valid(&self) -> bool {
        self.first_error() is None
    }

    /// Checks the configuration; the error names the first rule broken.
    pub fn validate(&self) -> (r: Result<(), ConfigError>)
        ensures
            r == (match self.first_error() {
                None => Ok(()),
                Some(e) => Err(e),
            }),
    {
        if self.threshold == 0 {
            Err(ConfigError::ZeroThreshold)
        } else if self.silence_samples == 0 {
            Err(ConfigError::ZeroSilence)
        } else if self.max_samples == 0 {
            Err(ConfigError::ZeroMaximum)
        } else if self.tick_samples == 0 {
            Err(ConfigError::ZeroTick)
        } else if self.min_speech_samples > self.max_samples {
            Err(ConfigError::MinimumAboveMaximum)
        } else {
            Ok(())
        }
    }
}

/// Interleaved samples in `ms` milliseconds of audio, rounded down.
pub open spec fn samples_in(sample_rate: u32, channels: u16, ms: u32) -> int {
    sample_rate as int * channels as int * ms as int / 1000
}

/// Interleaved samples in `ms` milliseconds of audio, rounded down, or
/// `None` where that count does not fit in a `usize`.
pub fn samples_for_duration(sample_rate: u32, channels: u16, ms: u32) -> (r: Option<usize>)
    ensures
        r == (if samples_in(sample_rate, channels, ms) <= usize::MAX {
            Some(samples_in(sample_rate, channels, ms) as usize)
        } else {
            None::<usize>
        }),
{
    let r64 = sample_rate as u64;
    let c64 = channels as u64;
    assert(r64 * c64 <= 0xffff_ffff * 0xffff) by (nonlinear_arith)
        requires
            r64 <= 0xffff_ffff,
            c64 <= 0xffff,
    ;
    let rc = r64 * c64;
    let rc128 = rc as u128;
    let ms128 = ms as u128;
    assert(rc128 * ms128 <= 0xffff_ffff * 0xffff * 0xffff_ffff) by (nonlinear_arith)
        requires
            rc128 <= 0xffff_ffff * 0xffff,
            ms128 <= 0xffff_ffff,
    ;
    let total = rc128 * ms128;
    let count = total / 1000;
    if count <= usize::MAX as u128 {
        Some(count as usize)
    } else {
        None
    }
}

impl SegmenterConfig {
    /// Builds a configuration from durations in milliseconds for a stream of
    /// `sample_rate` frames per second and `channels` channels, and checks it.
    pub fn from_durations(
        sample_rate: u32,
        channels: u16,
        threshold: u32,
        min_speech_ms: u32,
        silence_ms: u32,
        max_ms: u32,
        tick_ms: u32,
    ) -> (r: Result<SegmenterConfig, ConfigError>)
        ensures
            ({
                let fits = samples_in(sample_rate, channels, min_speech_ms) <= usize::MAX
                    && samples_in(sample_rate, channels, silence_ms) <= usize::MAX
                    && samples_in(sample_rate, channels, max_ms) <= usize::MAX
                    && samples_in(sample_rate, channels, tick_ms) <= usize::MAX;
                let c = SegmenterConfig {
                    threshold,
                    min_speech_samples: samples_in(sample_rate, channels, min_speech_ms) as usize,
                    silence_samples: samples_in(sample_rate, channels, silence_ms) as usize,
                    max_samples: samples_in(sample_rate, channels, max_ms) as usize,
                    tick_samples: samples_in(sample_rate, channels, tick_ms) as usize,
                };
                if !fits {
                    r == Err::<SegmenterConfig, ConfigError>(ConfigError::DurationTooLong)
                } else {
                    match c.first_error() {
                        None => r == Ok::<SegmenterConfig, ConfigError>(c),
                        Some(e) => r == Err::<SegmenterConfig, ConfigError>(e),
                    }
                }
            }),
    {
        let min_speech = samples_for_duration(sample_rate, channels, min_speech_ms);
        let silence = samples_for_duration(sample_rate, channels, silence_ms);
        let max = samples_for_duration(sample_rate, channels, max_ms);
        let tick = samples_for_duration(sample_rate, channels, tick_ms);
        match (min_speech, silence, max, tick) {
            (Some(min_speech_samples), Some(silence_samples), Some(max_samples), Some(tick_samples)) => {
                let c = SegmenterConfig {
                    threshold,
                    min_speech_samples,
                    silence_samples,
                    max_samples,
                    tick_samples,
                };
                match c.validate() {
                    Ok(()) => Ok(c),
                    Err(e) => Err(e),
                }
            },
            _ => Err(ConfigError::DurationTooLong),
        }
    }
}

} // verus!
