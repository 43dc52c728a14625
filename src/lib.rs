//! The verified core of a multi-deck DJ audio engine.
//!
//! - `analysis`: the decisions of the decoding loop, and the integer
//!   planning of tempo estimation (framing, envelope downsampling, lag
//!   range, harmonic lags).
//! - `cache`: when a tempo stored in a track's tags can be trusted.
//! - `tags`: what the engine reads and writes in a lofty tag (tempo
//!   sources in lookup order, analysis timestamp, hot-cue payload, title and
//!   artist updates).
//! - `text`: reading tempo texts and key names.
//! - `deck`, `mixer`, `engine`: the playback state machine of each deck, the
//!   mixer, and the set of decks addressed by id.

pub mod analysis;
pub mod cache;
pub mod deck;
pub mod engine;
pub mod mixer;
pub mod tags;
pub mod text;
