//! The settings of the screenshot tool and the rules that bring stored values into range.
use vstd::prelude::*;
use crate::i18n::{pick, Language, LanguageMode};
use crate::paths::{extends_with, join_path, roaming_app_data_directory, verbatim_path};
use crate::text::{chars_of, string_of, trim, trimmed};
use crate::screenshot::hotkey::normalized_binding;

verus! {

/// The colour scheme of the windows.
#[derive(Clone, Copy, Debug, PartialEq, Eq, Structural)]
pub enum AppearanceMode {
    System,
    Light,
    Dark,
}

impl Default for AppearanceMode {
    fn default() -> (r: Self)
        ensures
            r == AppearanceMode::System,
    {
        AppearanceMode::System
    }
}

/// The file format screenshots are saved in.
#[derive(Clone, Copy, Debug, PartialEq, Eq, Structural)]
pub enum ImageFormat {
    Png,
    Jpeg,
}

impl Default for ImageFormat {
    fn default() -> (r: Self)
        ensures
            r == ImageFormat::Png,
    {
        ImageFormat::Png
    }
}

/// Which text-recognition engine reads screenshots.
#[derive(Clone, Copy, Debug, PartialEq, Eq, Structural)]
pub enum OcrEngineKind {
    System,
    WindowsAi,
}

impl Default for OcrEngineKind {
    fn default() -> (r: Self)
        ensures
            r == OcrEngineKind::System,
    {
        OcrEngineKind::System
    }
}

/// Text-recognition settings.
#[derive(Clone, Copy, Debug, PartialEq, Eq, Structural)]
pub struct OcrConfig {
    pub engine: OcrEngineKind,
    /// Words recognised with a lower confidence, in percent, are dropped.
    pub minimum_confidence: u8,
}

impl Default for OcrConfig {
    fn default() -> (r: Self)
        ensures
            r.engine == OcrEngineKind::System,
            r.minimum_confidence == 60,
    {
        OcrConfig { engine: OcrEngineKind::System, minimum_confidence: 60 }
    }
}

/// How screenshots are saved.
#[derive(Clone, Debug, PartialEq, Eq)]
pub struct CaptureConfig {
    pub format: ImageFormat,
    pub jpeg_quality: u8,
    pub save_directory: String,
    pub filename_template: String,
    pub auto_save: bool,
    pub save_notification: bool,
}

impl CaptureConfig {
    /// The capture settings of a fresh installation, saving to `save_directory`: PNG, JPEG
    /// quality 90, names from the template `Screenshot_{yyyy-MM-dd_HH-mm-ss}`, no automatic
    /// saving, and a notice after each save.
    pub fn default_in(save_directory: String) -> (r: Self)
        ensures
            r.format == ImageFormat::Png,
            r.jpeg_quality == 90,
            r.save_directory == save_directory,
            r.filename_template@ == "Screenshot_{yyyy-MM-dd_HH-mm-ss}"@,
            !r.auto_save,
            r.save_notification,
    {
        CaptureConfig {
            format: ImageFormat::Png,
            jpeg_quality: 90,
            save_directory,
            filename_template: "Screenshot_{yyyy-MM-dd_HH-mm-ss}".to_owned(),
            auto_save: false,
            save_notification: true,
        }
    }
}

/// How pinned screenshots behave.
#[derive(Clone, Copy, Debug, PartialEq, Eq, Structural)]
pub struct PinConfig {
    pub default_opacity: u8,
    pub shadow: bool,
    pub always_on_top: bool,
    pub wheel_zoom: bool,
    pub zoom_step: u8,
    pub double_click_close: bool,
}

impl Default for PinConfig {
    fn default() -> (r: Self)
        ensures
            r.default_opacity == 100,
            r.shadow,
            r.always_on_top,
            r.wheel_zoom,
            r.zoom_step == 15,
            r.double_click_close,
    {
        PinConfig {
            default_opacity: 100,
            shadow: true,
            always_on_top: true,
            wheel_zoom: true,
            zoom_step: 15,
            double_click_close: true,
        }
    }
}

/// The stored settings of the screenshot tool.
#[derive(Clone, Debug, PartialEq, Eq)]
pub struct Config {
    pub appearance: AppearanceMode,
    pub language: LanguageMode,
    pub launch_at_startup: bool,
    pub hotkey: Option<String>,
    pub capture: CaptureConfig,
    pub ocr: OcrConfig,
    pub pin: PinConfig,
}

/// Why the settings cannot be used.
#[derive(Clone, Copy, Debug, PartialEq, Eq, Structural)]
pub enum ConfigError {
    /// The filename template is blank.
    EmptyTemplate,
    /// The filename template holds a character that Windows does not allow in file names.
    ForbiddenCharacter,
}

impl ConfigError {
    /// The message shown for the error.
    pub fn message(self, language: Language) -> (r: &'static str)
        ensures
            r@ == match self {
                ConfigError::EmptyTemplate => pick(
                    language,
                    "文件名模板不能为空"@,
                    "Filename template cannot be empty"@,
                ),
                ConfigError::ForbiddenCharacter => pick(
                    language,
                    "文件名模板包含 Windows 不允许的字符"@,
                    "Filename template contains characters that Windows does not allow"@,
                ),
            },
    {
        match self {
            ConfigError::EmptyTemplate => crate::i18n::text(
                language,
                "文件名模板不能为空",
                "Filename template cannot be empty",
            ),
            ConfigError::ForbiddenCharacter => crate::i18n::text(
                language,
                "文件名模板包含 Windows 不允许的字符",
                "Filename template contains characters that Windows does not allow",
            ),
        }
    }
}

/// `v` limited to `lo ..= hi`.
pub open spec fn clamped(v: u8, lo: u8, hi: u8) -> u8 {
    if v < lo {
        lo
    } else if v > hi {
        hi
    } else {
        v
    }
}

/// The characters Windows refuses in file names.
pub open spec fn forbidden_in_names(c: char) -> bool {
    c == '<' || c == '>' || c == ':' || c == '"' || c == '/' || c == '\\' || c == '|' || c == '?'
        || c == '*'
}

/// Whether a template holds a character Windows refuses in file names.
pub open spec fn has_forbidden(s: Seq<char>) -> bool {
    exists|i: int| 0 <= i < s.len() && #[trigger] forbidden_in_names(s[i])
}

/// The text of an optional string.
pub open spec fn optional_text(value: Option<String>) -> Option<Seq<char>> {
    match value {
        None => None,
        Some(v) => Some(v@),
    }
}

fn has_forbidden_exec(s: &[char]) -> (r: bool)
    ensures
        r == has_forbidden(s@),
{
    let mut i: usize = 0;
    while i < s.len()
        invariant
            i <= s@.len(),
            forall|k: int| 0 <= k < i ==> !#[trigger] forbidden_in_names(s@[k]),
        decreases s.len() - i,
    {
        let c = s[i];
        if c == '<' || c == '>' || c == ':' || c == '"' || c == '/' || c == '\\' || c == '|' || c
            == '?' || c == '*' {
            assert(forbidden_in_names(s@[i as int]));
            return true;
        }
        i = i + 1;
    }
    false
}

fn clamp_u8(v: u8, lo: u8, hi: u8) -> (r: u8)
    ensures
        r == clamped(v, lo, hi),
{
    if v < lo {
        lo
    } else if v > hi {
        hi
    } else {
        v
    }
}

impl Config {
    /// The settings of a fresh installation, saving screenshots to `picture_directory`:
    /// the system's appearance and language, no start with the system, `Ctrl+Alt+C` as the
    /// capture shortcut, and the default capture, recognition and pin settings.
    pub fn default_in(picture_directory: String) -> (r: Self)
        ensures
            r.appearance == AppearanceMode::System,
            r.language == LanguageMode::System,
            !r.launch_at_startup,
            r.hotkey is Some && r.hotkey->0@ == "Ctrl+Alt+C"@,
            r.capture.format == ImageFormat::Png,
            r.capture.jpeg_quality == 90,
            r.capture.save_directory == picture_directory,
            r.capture.filename_template@ == "Screenshot_{yyyy-MM-dd_HH-mm-ss}"@,
            !r.capture.auto_save,
            r.capture.save_notification,
            r.ocr.engine == OcrEngineKind::System,
            r.ocr.minimum_confidence == 60,
            r.pin.default_opacity == 100,
            r.pin.shadow,
            r.pin.always_on_top,
            r.pin.wheel_zoom,
            r.pin.zoom_step == 15,
            r.pin.double_click_close,
    {
        Config {
            appearance: AppearanceMode::System,
            language: LanguageMode::System,
            launch_at_startup: false,
            hotkey: Some("Ctrl+Alt+C".to_owned()),
            capture: CaptureConfig::default_in(picture_directory),
            ocr: OcrConfig::default(),
            pin: PinConfig::default(),
        }
    }

    /// Brings stored values into range: JPEG quality 1 to 100, confidence at most 100, pin
    /// opacity 25 to 100 and zoom step 5 to 100; a blank shortcut becomes none and others are
    /// trimmed; the filename template is trimmed and must be non-empty and free of characters
    /// Windows refuses; an empty save folder becomes `default_directory`. The ranges, the
    /// shortcut and the template are brought into shape even when an error is returned.
    pub fn validate(&mut self, default_directory: String) -> (r: Result<(), ConfigError>)
        ensures
            validated_from(*old(self), *final(self), r, default_directory@),
    {
        self.capture.jpeg_quality = clamp_u8(self.capture.jpeg_quality, 1, 100);
        self.ocr.minimum_confidence = clamp_u8(self.ocr.minimum_confidence, 0, 100);
        self.pin.default_opacity = clamp_u8(self.pin.default_opacity, 25, 100);
        self.pin.zoom_step = clamp_u8(self.pin.zoom_step, 5, 100);
        let hotkey: Option<String> = match &self.hotkey {
            None => None,
            Some(v) => {
                let t = trimmed(&chars_of(v.as_str()));
                if t.len() == 0 {
                    None
                } else {
                    Some(string_of(&t))
                }
            },
        };
        self.hotkey = hotkey;
        let template = trimmed(&chars_of(self.capture.filename_template.as_str()));
        self.capture.filename_template = string_of(&template);
        if template.len() == 0 {
            return Err(ConfigError::EmptyTemplate);
        }
        if has_forbidden_exec(&template) {
            return Err(ConfigError::ForbiddenCharacter);
        }
        if self.capture.save_directory.as_str().is_empty() {
            self.capture.save_directory = default_directory;
        }
        Ok(())
    }

    /// Where the settings file lives inside the tool's configuration folder.
    pub fn path(config_root: &str) -> (r: String)
        ensures
            !verbatim_path(config_root@) ==> exists|directory: Seq<char>|
                extends_with(config_root@, "GridStart"@, directory) && (!verbatim_path(directory)
                    ==> extends_with(directory, "config.json"@, r@)),
    {
        proof {
            crate::paths::lemma_fixed_names_are_plain();
        }
        let directory = Self::directory(config_root);
        join_path(directory.as_str(), "config.json")
    }

    /// The tool's configuration folder.
    pub fn directory(config_root: &str) -> (r: String)
        ensures
            !verbatim_path(config_root@) ==> extends_with(config_root@, "GridStart"@, r@),
    {
        app_data_directory(config_root)
    }

    /// The folder of the tool's logs, inside its configuration folder.
    pub fn log_directory(config_root: &str) -> (r: String)
        ensures
            !verbatim_path(config_root@) ==> exists|directory: Seq<char>|
                extends_with(config_root@, "GridStart"@, directory) && (!verbatim_path(directory)
                    ==> extends_with(directory, "logs"@, r@)),
    {
        proof {
            crate::paths::lemma_fixed_names_are_plain();
        }
        let directory = Self::directory(config_root);
        join_path(directory.as_str(), "logs")
    }
}

/// The screenshot tool's folder inside the platform's configuration root.
pub fn app_data_directory(config_root: &str) -> (r: String)
    ensures
        !verbatim_path(config_root@) ==> extends_with(config_root@, "GridStart"@, r@),
{
    proof {
        crate::paths::lemma_fixed_names_are_plain();
    }
    roaming_app_data_directory(config_root, "GridStart")
}


/// What validating `before` gives, with `default_directory` in place of an empty save
/// folder: `result` is the outcome and `after` the settings left behind. Ranges are
/// clamped, a blank shortcut becomes none and others are trimmed, the filename template is
/// trimmed and checked, the save folder is filled in when the template passes, and every
/// other setting stays as it was.
pub open spec fn validated_from(
    before: Config,
    after: Config,
    result: Result<(), ConfigError>,
    default_directory: Seq<char>,
) -> bool {
    let template = trim(before.capture.filename_template@);
    &&& after.capture.jpeg_quality == clamped(before.capture.jpeg_quality, 1, 100)
    &&& after.ocr.minimum_confidence == clamped(before.ocr.minimum_confidence, 0, 100)
    &&& after.pin.default_opacity == clamped(before.pin.default_opacity, 25, 100)
    &&& after.pin.zoom_step == clamped(before.pin.zoom_step, 5, 100)
    &&& optional_text(after.hotkey) == normalized_binding(optional_text(before.hotkey))
    &&& after.capture.filename_template@ == template
    &&& result == (if template.len() == 0 {
        Err::<(), ConfigError>(ConfigError::EmptyTemplate)
    } else if has_forbidden(template) {
        Err(ConfigError::ForbiddenCharacter)
    } else {
        Ok(())
    })
    &&& after.capture.save_directory@ == if result is Ok && before.capture.save_directory@.len()
        == 0 {
        default_directory
    } else {
        before.capture.save_directory@
    }
    &&& after.appearance == before.appearance
    &&& after.language == before.language
    &&& after.launch_at_startup == before.launch_at_startup
    &&& after.capture.format == before.capture.format
    &&& after.capture.auto_save == before.capture.auto_save
    &&& after.capture.save_notification == before.capture.save_notification
    &&& after.ocr.engine == before.ocr.engine
    &&& after.pin.shadow == before.pin.shadow
    &&& after.pin.always_on_top == before.pin.always_on_top
    &&& after.pin.wheel_zoom == before.pin.wheel_zoom
    &&& after.pin.double_click_close == before.pin.double_click_close
}

/// Two settings that agree in every field, the texts by their characters.
pub open spec fn same_settings(a: Config, b: Config) -> bool {
    &&& a.appearance == b.appearance
    &&& a.language == b.language
    &&& a.launch_at_startup == b.launch_at_startup
    &&& optional_text(a.hotkey) == optional_text(b.hotkey)
    &&& a.capture.format == b.capture.format
    &&& a.capture.jpeg_quality == b.capture.jpeg_quality
    &&& a.capture.save_directory@ == b.capture.save_directory@
    &&& a.capture.filename_template@ == b.capture.filename_template@
    &&& a.capture.auto_save == b.capture.auto_save
    &&& a.capture.save_notification == b.capture.save_notification
    &&& a.ocr == b.ocr
    &&& a.pin == b.pin
}

/// Validating settings a second time changes nothing: it gives the same outcome, and the
/// clamped values, the trimmed texts and the filled-in save folder stay as they are.
pub proof fn lemma_validation_is_idempotent(
    stored: Config,
    once: Config,
    first: Result<(), ConfigError>,
    twice: Config,
    second: Result<(), ConfigError>,
    default_directory: Seq<char>,
)
    requires
        validated_from(stored, once, first, default_directory),
        validated_from(once, twice, second, default_directory),
    ensures
        second == first,
        same_settings(once, twice),
{
    crate::text::lemma_trim_idempotent(stored.capture.filename_template@);
    match optional_text(stored.hotkey) {
        Some(h) => crate::text::lemma_trim_idempotent(h),
        None => {},
    }
}

} // verus!
