//! Core logic of the NeuroKaraoke desktop player: playback timing, playlist
//! navigation, the asset cache index, authentication helpers and text formatting.

pub mod text;
pub mod playback;
pub mod api;
pub mod queue;
pub mod cache;
pub mod ids;
pub mod auth;
pub mod media;
pub mod profile;
pub mod ui;
