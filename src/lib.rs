//! Loudness-normalization support for music collections: classification of
//! a directory tree into albums and singles, the order in which they are
//! processed, and the decisions of scanning, clip prevention and tagging.
pub mod error;
pub mod fftag;
pub mod formats;
pub mod options;
pub mod order;
pub mod record;
pub mod replay_gain;
pub mod seeders;
pub mod walker;
pub mod worker;
