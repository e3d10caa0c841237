//! Verified core of a downloader for the audio submissions of a Newgrounds artist.

pub mod text;
pub mod patterns;
pub mod sidestats;
pub mod crawl;
pub mod download;
pub mod laws;
pub mod panel_laws;

