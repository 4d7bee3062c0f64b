//! The screen recorder: targets, settings, recording timeline and frame processing.
pub mod domain;
pub mod frames;
pub mod config;
pub mod session;
pub mod encode;
pub mod controls;
pub mod shortcuts;
pub mod desktop;
pub mod audio;
pub mod output;
pub mod hotkeys;
pub mod replacement;
pub mod overlay;
