//! The screenshot tool: settings, the global capture shortcut, output files, text
//! recognition results and window geometry.
pub mod hotkey;
pub mod config;
pub mod output;
pub mod geometry;
pub mod ocr;
pub mod startup;
pub mod encoding;
