//! Speech segmentation for a mono 16-bit PCM stream: configuration of the
//! voice classifier, windowing of samples into frames, and the hangover state
//! machine that cuts the classified frames into utterances.

pub mod config;
pub mod laws;
pub mod segmenter;
pub mod windower;

pub use config::{frame_sample_count, tier_for_rate, ConfigError, FvadMode, FvadSampleLength, SampleTier};
pub use segmenter::{ClassificationError, Segmenter, SILENCE_PADDING};
pub use windower::{split_frames, FrameWindower};
