//! Verified core of sayit: transcript clean-up, settings, the dictation
//! controller's decisions and the menu-bar and settings views.

pub mod chars;
pub mod text;
pub mod stt;
pub mod config;
pub mod daemon;
pub mod models;
pub mod ui;
pub mod audio;
