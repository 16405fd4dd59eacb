use vstd::prelude::*;
use vstd::string::StrSliceExecFns;

verus! {

/// An error in the run's configuration, found before any sample is read.
#[derive(Debug, Clone, Copy, PartialEq, Eq, Structural)]
pub enum ConfigError {
    /// The frame duration is not one of 10, 20 or 30 ms.
    InvalidSampleLength,
    /// The sensitivity mode names none of the four modes.
    InvalidMode,
    /// No classifier tier exists for this input sample rate.
    UnsupportedSampleRate(u32),
}

/// Duration of one frame handed to the classifier.
#[derive(Debug, Clone, Copy, PartialEq, Eq, Structural)]
pub enum FvadSampleLength {
    Length10ms,
    Length20ms,
    Length30ms,
}

/// Sensitivity of the classifier: a higher mode reports speech less readily.
#[derive(Debug, Clone, Copy, PartialEq, Eq, Structural)]
pub enum FvadMode {
    Quality,
    LowBitrate,
    Aggressive,
    VeryAggressive,
}

/// A sample rate at which the classifier operates.
#[derive(Debug, Clone, Copy, PartialEq, Eq, Structural)]
pub enum SampleTier {
    Rate8kHz,
    Rate16kHz,
    Rate32kHz,
    Rate48kHz,
}

/// True when the characters of `s` are exactly those of `lit`.
fn str_equals(s: &str, lit: &str) -> (r: bool)
    ensures
        r == (s@ == lit@),
{
    let n = s.unicode_len();
    let m = lit.unicode_len();
    if n != m {
        return false;
    }
    let mut i: usize = 0;
    while i < n
        invariant
            n == s@.len(),
            m == lit@.len(),
            n == m,
            i <= n,
            forall|k: int| 0 <= k < i ==> s@[k] == lit@[k],
        decreases n - i,
    {
        if s.get_char(i) != lit.get_char(i) {
            return false;
        }
        i = i + 1;
    }
    proof {
        assert(s@ =~= lit@);
    }
    true
}

/// The frame duration that the text `s` names, if any.
pub open spec fn sample_length_of(s: Seq<char>) -> Option<FvadSampleLength> {
    if s == "10"@ || s == "10ms"@ || s == "10 ms"@ {
        Some(FvadSampleLength::Length10ms)
    } else if s == "20"@ || s == "20ms"@ || s == "20 ms"@ {
        Some(FvadSampleLength::Length20ms)
    } else if s == "30"@ || s == "30ms"@ || s == "30 ms"@ {
        Some(FvadSampleLength::Length30ms)
    } else {
        None
    }
}

/// The sensitivity mode that the text `s` names, if any.
pub open spec fn mode_of(s: Seq<char>) -> Option<FvadMode> {
    if s == "0"@ || s == "quality"@ {
        Some(FvadMode::Quality)
    } else if s == "1"@ || s == "low bitrate"@ || s == "low-bitrate"@ || s == "low_bitrate"@
        || s == "lowbitrate"@ {
        Some(FvadMode::LowBitrate)
    } else if s == "2"@ || s == "aggressive"@ {
        Some(FvadMode::Aggressive)
    } else if s == "3"@ || s == "very aggressive"@ || s == "very-aggressive"@
        || s == "very_aggressive"@ || s == "veryaggressive"@ {
        Some(FvadMode::VeryAggressive)
    } else {
        None
    }
}

impl FvadSampleLength {
    pub open spec fn spec_millis(self) -> nat {
        match self {
            FvadSampleLength::Length10ms => 10,
            FvadSampleLength::Length20ms => 20,
            FvadSampleLength::Length30ms => 30,
        }
    }

    /// The duration in milliseconds.
    pub fn millis(self) -> (r: u32)
        ensures
            r as nat == self.spec_millis(),
    {
        match self {
            FvadSampleLength::Length10ms => 10,
            FvadSampleLength::Length20ms => 20,
            FvadSampleLength::Length30ms => 30,
        }
    }

    /// Reads a duration written as `10`, `10ms` or `10 ms` (likewise 20 and 30).
    pub fn parse_str(s: &str) -> (r: Result<FvadSampleLength, ConfigError>)
        ensures
            sample_length_of(s@) is Some ==> r == Ok::<FvadSampleLength, ConfigError>(
                sample_length_of(s@).unwrap(),
            ),
            sample_length_of(s@) is None ==> r == Err::<FvadSampleLength, ConfigError>(
                ConfigError::InvalidSampleLength,
            ),
    {
        if str_equals(s, "10") || str_equals(s, "10ms") || str_equals(s, "10 ms") {
            Ok(FvadSampleLength::Length10ms)
        } else if str_equals(s, "20") || str_equals(s, "20ms") || str_equals(s, "20 ms") {
            Ok(FvadSampleLength::Length20ms)
        } else if str_equals(s, "30") || str_equals(s, "30ms") || str_equals(s, "30 ms") {
            Ok(FvadSampleLength::Length30ms)
        } else {
            Err(ConfigError::InvalidSampleLength)
        }
    }
}

impl std::str::FromStr for FvadSampleLength {
    type Err = ConfigError;

    fn from_str(s: &str) -> Result<FvadSampleLength, ConfigError> {
        FvadSampleLength::parse_str(s)
    }
}

impl FvadMode {
    /// Reads a mode given by its number (`0` to `3`) or its name, where the
    /// words of a two-word name may be joined by a space, `-`, `_` or nothing.
    pub fn parse_str(s: &str) -> (r: Result<FvadMode, ConfigError>)
        ensures
            mode_of(s@) is Some ==> r == Ok::<FvadMode, ConfigError>(mode_of(s@).unwrap()),
            mode_of(s@) is None ==> r == Err::<FvadMode, ConfigError>(ConfigError::InvalidMode),
    {
        if str_equals(s, "0") || str_equals(s, "quality") {
            Ok(FvadMode::Quality)
        } else if str_equals(s, "1") || str_equals(s, "low bitrate") || str_equals(s, "low-bitrate")
            || str_equals(s, "low_bitrate") || str_equals(s, "lowbitrate") {
            Ok(FvadMode::LowBitrate)
        } else if str_equals(s, "2") || str_equals(s, "aggressive") {
            Ok(FvadMode::Aggressive)
        } else if str_equals(s, "3") || str_equals(s, "very aggressive") || str_equals(
            s,
            "very-aggressive",
        ) || str_equals(s, "very_aggressive") || str_equals(s, "veryaggressive") {
            Ok(FvadMode::VeryAggressive)
        } else {
            Err(ConfigError::InvalidMode)
        }
    }
}

impl std::str::FromStr for FvadMode {
    type Err = ConfigError;

    fn from_str(s: &str) -> Result<FvadMode, ConfigError> {
        FvadMode::parse_str(s)
    }
}

impl SampleTier {
    pub open spec fn spec_hz(self) -> nat {
        match self {
            SampleTier::Rate8kHz => 8000,
            SampleTier::Rate16kHz => 16000,
            SampleTier::Rate32kHz => 32000,
            SampleTier::Rate48kHz => 48000,
        }
    }

    /// The tier's rate in Hz.
    pub fn hz(self) -> (r: u32)
        ensures
            r as nat == self.spec_hz(),
    {
        match self {
            SampleTier::Rate8kHz => 8000,
            SampleTier::Rate16kHz => 16000,
            SampleTier::Rate32kHz => 32000,
            SampleTier::Rate48kHz => 48000,
        }
    }
}

/// The tier that an input rate maps to: the ratio of the rate to 8000 Hz,
/// rounded down, picks it; ratios outside 1 to 6 have none.
pub open spec fn tier_of_ratio(ratio: nat) -> Option<SampleTier> {
    if ratio == 1 {
        Some(SampleTier::Rate8kHz)
    } else if ratio == 2 || ratio == 3 {
        Some(SampleTier::Rate16kHz)
    } else if ratio == 4 || ratio == 5 {
        Some(SampleTier::Rate32kHz)
    } else if ratio == 6 {
        Some(SampleTier::Rate48kHz)
    } else {
        None
    }
}

/// Maps an input sample rate down to the classifier tier it runs at.
pub fn tier_for_rate(sample_rate: u32) -> (r: Result<SampleTier, ConfigError>)
    ensures
        tier_of_ratio((sample_rate / 8000) as nat) is Some ==> r == Ok::<SampleTier, ConfigError>(
            tier_of_ratio((sample_rate / 8000) as nat).unwrap(),
        ),
        tier_of_ratio((sample_rate / 8000) as nat) is None ==> r == Err::<SampleTier, ConfigError>(
            ConfigError::UnsupportedSampleRate(sample_rate),
        ),
{
    let ratio = sample_rate / 8000;
    if ratio == 1 {
        Ok(SampleTier::Rate8kHz)
    } else if ratio == 2 || ratio == 3 {
        Ok(SampleTier::Rate16kHz)
    } else if ratio == 4 || ratio == 5 {
        Ok(SampleTier::Rate32kHz)
    } else if ratio == 6 {
        Ok(SampleTier::Rate48kHz)
    } else {
        Err(ConfigError::UnsupportedSampleRate(sample_rate))
    }
}

/// Number of samples in one frame: the duration times the tier's rate.
pub open spec fn spec_frame_sample_count(length: FvadSampleLength, tier: SampleTier) -> nat {
    length.spec_millis() * tier.spec_hz() / 1000
}

/// Samples in one frame of the given duration at the given tier.
pub fn frame_sample_count(length: FvadSampleLength, tier: SampleTier) -> (r: usize)
    ensures
        r as nat == spec_frame_sample_count(length, tier),
        r > 0,
{
    let ms = length.millis();
    let hz = tier.hz();
    let per_ms = hz / 1000;
    proof {
        assert(hz % 1000 == 0);
        assert(ms * hz / 1000 == ms * (hz / 1000)) by (nonlinear_arith)
            requires hz % 1000 == 0;
        assert(ms * per_ms <= 30 * 48) by (nonlinear_arith)
            requires ms <= 30, per_ms <= 48;
    }
    (ms * per_ms) as usize
}

} // verus!
