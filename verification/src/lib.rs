//! Rendering rules, option handling, frame pacing and subtitle lookup of a
//! console video player.
pub mod decimal;
pub mod modes;
pub mod options;
pub mod playback;
pub mod srtreader;
pub mod text;
