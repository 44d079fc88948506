//! Decoding of raw byte streams as 8-bit PCM-derived audio: bit-level
//! representations, predictive (DPCM-family) reconstruction, the decode
//! session that owns the configuration, and the playback scheduler that feeds
//! an audio device.
pub mod config;
pub mod representation;
pub mod predictor;
pub mod session;
pub mod playback;
