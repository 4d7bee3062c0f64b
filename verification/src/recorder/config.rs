//! The settings of the screen recorder and the output formats it writes.
use vstd::prelude::*;
use crate::i18n::LanguageMode;
use crate::paths::{extends_with, join_path, verbatim_path};

verus! {

/// The container that a recording is written to.
#[derive(Clone, Copy, Debug, PartialEq, Eq, Structural)]
pub enum OutputFormat {
    Mp4,
    Gif,
}

impl OutputFormat {
    /// The file extension of the format, as text.
    pub open spec fn extension_text(self) -> Seq<char> {
        match self {
            OutputFormat::Mp4 => "mp4"@,
            OutputFormat::Gif => "gif"@,
        }
    }

    /// The file extension of the format.
    pub fn extension(self) -> (r: &'static str)
        ensures
            r@ == self.extension_text(),
    {
        match self {
            Self::Mp4 => "mp4",
            Self::Gif => "gif",
        }
    }

    /// Whether the format can carry an audio track; GIF cannot.
    pub fn supports_audio(self) -> (r: bool)
        ensures
            r == (self == OutputFormat::Mp4),
    {
        match self {
            Self::Mp4 => true,
            Self::Gif => false,
        }
    }
}

/// The stored settings of the screen recorder.
#[derive(Clone, Debug, PartialEq, Eq)]
pub struct Config {
    pub language: LanguageMode,
    pub source_mode: u8,
    pub quality_preset: u8,
    pub frame_rate: u8,
    pub system_audio: bool,
    pub microphone: bool,
    pub show_cursor: bool,
    pub highlight_clicks: bool,
    pub countdown_seconds: u8,
    pub auto_minimize_after_start: bool,
    pub open_directory_after_stop: bool,
    pub start_hotkey: Option<String>,
    pub pause_hotkey: Option<String>,
    pub stop_hotkey: Option<String>,
    pub save_directory: String,
}

/// `v` limited to at most `max`.
pub open spec fn at_most(v: u8, max: u8) -> u8 {
    if v > max {
        max
    } else {
        v
    }
}

/// A save folder, or `default_directory` in place of an empty one.
pub open spec fn filled_directory(directory: Seq<char>, default_directory: Seq<char>) -> Seq<char> {
    if directory.len() == 0 {
        default_directory
    } else {
        directory
    }
}

/// What validating `before` gives, with `default_directory` in place of an empty save
/// folder: the source mode at most 2, the quality preset at most 3, the frame rate at most
/// 1, the countdown at most 10 seconds, and every other setting as it was.
pub open spec fn validated_from(before: Config, after: Config, default_directory: Seq<char>) -> bool {
    &&& after.source_mode == at_most(before.source_mode, 2)
    &&& after.quality_preset == at_most(before.quality_preset, 3)
    &&& after.frame_rate == at_most(before.frame_rate, 1)
    &&& after.countdown_seconds == at_most(before.countdown_seconds, 10)
    &&& after.save_directory@ == filled_directory(before.save_directory@, default_directory)
    &&& after.language == before.language
    &&& after.system_audio == before.system_audio
    &&& after.microphone == before.microphone
    &&& after.show_cursor == before.show_cursor
    &&& after.highlight_clicks == before.highlight_clicks
    &&& after.auto_minimize_after_start == before.auto_minimize_after_start
    &&& after.open_directory_after_stop == before.open_directory_after_stop
    &&& after.start_hotkey == before.start_hotkey
    &&& after.pause_hotkey == before.pause_hotkey
    &&& after.stop_hotkey == before.stop_hotkey
}

/// Two settings that agree in every field, the save folder by its text.
pub open spec fn same_settings(a: Config, b: Config) -> bool {
    &&& a.language == b.language
    &&& a.source_mode == b.source_mode
    &&& a.quality_preset == b.quality_preset
    &&& a.frame_rate == b.frame_rate
    &&& a.system_audio == b.system_audio
    &&& a.microphone == b.microphone
    &&& a.show_cursor == b.show_cursor
    &&& a.highlight_clicks == b.highlight_clicks
    &&& a.countdown_seconds == b.countdown_seconds
    &&& a.auto_minimize_after_start == b.auto_minimize_after_start
    &&& a.open_directory_after_stop == b.open_directory_after_stop
    &&& a.start_hotkey == b.start_hotkey
    &&& a.pause_hotkey == b.pause_hotkey
    &&& a.stop_hotkey == b.stop_hotkey
    &&& a.save_directory@ == b.save_directory@
}

/// Validating settings a second time changes nothing: values within their limits and a
/// filled-in save folder stay as they are.
pub proof fn lemma_validation_is_idempotent(
    stored: Config,
    once: Config,
    twice: Config,
    default_directory: Seq<char>,
)
    requires
        validated_from(stored, once, default_directory),
        validated_from(once, twice, default_directory),
    ensures
        same_settings(once, twice),
{
}

impl Config {
    /// The settings of a fresh installation, saving recordings to `save_directory`:
    /// English, full screen, 1080p at the lower frame rate, system audio on, cursor shown,
    /// a three-second countdown and F10, F11 and F12 as the shortcuts.
    pub fn default_in(save_directory: String) -> (r: Self)
        ensures
            r.language == LanguageMode::English,
            r.source_mode == 0,
            r.quality_preset == 2,
            r.frame_rate == 0,
            r.system_audio,
            !r.microphone,
            r.show_cursor,
            !r.highlight_clicks,
            r.countdown_seconds == 3,
            !r.auto_minimize_after_start,
            !r.open_directory_after_stop,
            r.start_hotkey.is_some() && r.start_hotkey.unwrap()@ == "F10"@,
            r.pause_hotkey.is_some() && r.pause_hotkey.unwrap()@ == "F11"@,
            r.stop_hotkey.is_some() && r.stop_hotkey.unwrap()@ == "F12"@,
            r.save_directory == save_directory,
    {
        Config {
            language: LanguageMode::English,
            source_mode: 0,
            quality_preset: 2,
            frame_rate: 0,
            system_audio: true,
            microphone: false,
            show_cursor: true,
            highlight_clicks: false,
            countdown_seconds: 3,
            auto_minimize_after_start: false,
            open_directory_after_stop: false,
            start_hotkey: Some("F10".to_owned()),
            pause_hotkey: Some("F11".to_owned()),
            stop_hotkey: Some("F12".to_owned()),
            save_directory,
        }
    }

    /// Where the settings file lives inside the configuration folder of the suite.
    pub fn path(config_root: &str) -> (r: String)
        ensures
            !verbatim_path(config_root@) ==> exists|product: Seq<char>|
                extends_with(config_root@, "ShiPing"@, product) && (!verbatim_path(product)
                    ==> extends_with(product, "config.json"@, r@)),
    {
        proof {
            crate::paths::lemma_fixed_names_are_plain();
        }
        let product = join_path(config_root, "ShiPing");
        join_path(product.as_str(), "config.json")
    }

    /// Brings values stored by older or edited settings back into range: the source mode at
    /// most 2, the quality preset at most 3, the frame rate at most 1 and the countdown at
    /// most 10 seconds; an empty save folder becomes `default_directory`.
    pub fn validate(&mut self, default_directory: String)
        ensures
            validated_from(*old(self), *final(self), default_directory@),
    {
        if self.source_mode > 2 {
            self.source_mode = 2;
        }
        if self.quality_preset > 3 {
            self.quality_preset = 3;
        }
        if self.frame_rate > 1 {
            self.frame_rate = 1;
        }
        if self.countdown_seconds > 10 {
            self.countdown_seconds = 10;
        }
        if self.save_directory.as_str().is_empty() {
            self.save_directory = default_directory;
        }
    }

    /// The start, pause and stop shortcuts, in that order.
    pub fn hotkeys(&self) -> (r: [Option<String>; 3])
        ensures
            r@[0] == self.start_hotkey,
            r@[1] == self.pause_hotkey,
            r@[2] == self.stop_hotkey,
    {
        [copy_text(&self.start_hotkey), copy_text(&self.pause_hotkey), copy_text(&self.stop_hotkey)]
    }

    /// Replaces the start, pause and stop shortcuts, in that order.
    pub fn set_hotkeys(&mut self, hotkeys: [Option<String>; 3])
        ensures
            final(self).start_hotkey == hotkeys@[0],
            final(self).pause_hotkey == hotkeys@[1],
            final(self).stop_hotkey == hotkeys@[2],
            final(self).language == old(self).language,
            final(self).source_mode == old(self).source_mode,
            final(self).quality_preset == old(self).quality_preset,
            final(self).frame_rate == old(self).frame_rate,
            final(self).countdown_seconds == old(self).countdown_seconds,
            final(self).save_directory == old(self).save_directory,
            final(self).system_audio == old(self).system_audio,
            final(self).microphone == old(self).microphone,
            final(self).show_cursor == old(self).show_cursor,
            final(self).highlight_clicks == old(self).highlight_clicks,
            final(self).auto_minimize_after_start == old(self).auto_minimize_after_start,
            final(self).open_directory_after_stop == old(self).open_directory_after_stop,
    {
        self.start_hotkey = copy_text(&hotkeys[0]);
        self.pause_hotkey = copy_text(&hotkeys[1]);
        self.stop_hotkey = copy_text(&hotkeys[2]);
    }
}

/// A copy of an optional text.
pub fn copy_text(value: &Option<String>) -> (r: Option<String>)
    ensures
        r == *value,
{
    match value {
        Some(s) => Some(s.clone()),
        None => None,
    }
}


/// The folder recordings are saved to by default: `Videos/ShiPing` in the home folder.
pub fn default_video_directory(home: &str) -> (r: String)
    ensures
        !verbatim_path(home@) ==> exists|videos: Seq<char>|
            extends_with(home@, "Videos"@, videos) && (!verbatim_path(videos) ==> extends_with(
                videos,
                "ShiPing"@,
                r@,
            )),
{
    proof {
        crate::paths::lemma_fixed_names_are_plain();
    }
    let videos = join_path(home, "Videos");
    join_path(videos.as_str(), "ShiPing")
}

} // verus!
