//! Verified core of the ShiPing screen recorder and the ShiTu screenshot tool:
//! geometry, configuration, parsers, formatters and the recording timeline.
pub mod paths;
pub mod scale;
pub mod text;
pub mod android;
pub mod i18n;
pub mod recorder;
pub mod screenshot;
pub mod bitmap;
pub mod shell;
