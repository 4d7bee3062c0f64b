//! The rules behind the recorder's window: which target a selection or the settings
//! name, what the platform lets a recording use, where the target frame is drawn, and
//! the texts that report the state of a recording.
use vstd::prelude::*;
use crate::i18n::{Language, LanguageMode, pick, text};
use crate::recorder::config::{Config, OutputFormat};
use crate::recorder::domain::{
    first_primary, Bounds, BoundsError, MonitorCandidate, MonitorCandidates, RecordingTarget,
    WindowCandidates, saturate, saturating_sub,
};
use crate::text::{
    chars_of, extend_chars, labelled, label_message, signed_decimal, signed_decimal_chars,
    string_of, zero_padded, zero_padded_chars, decimal, decimal_chars, trim, trimmed,
};

verus! {

/// What the platform backend can record.
#[derive(Clone, Copy, Debug, PartialEq, Eq, Structural)]
pub struct RecordingCapabilities {
    pub system_audio: bool,
    pub microphone: bool,
    pub highlight_clicks: bool,
}

/// Switches off the settings that the platform cannot honour.
pub fn normalize_recording_capabilities(config: &mut Config, capabilities: RecordingCapabilities)
    ensures
        final(config).system_audio == (old(config).system_audio && capabilities.system_audio),
        final(config).microphone == (old(config).microphone && capabilities.microphone),
        final(config).highlight_clicks == (old(config).highlight_clicks
            && capabilities.highlight_clicks),
        final(config).language == old(config).language,
        final(config).source_mode == old(config).source_mode,
        final(config).quality_preset == old(config).quality_preset,
        final(config).frame_rate == old(config).frame_rate,
        final(config).show_cursor == old(config).show_cursor,
        final(config).countdown_seconds == old(config).countdown_seconds,
        final(config).auto_minimize_after_start == old(config).auto_minimize_after_start,
        final(config).open_directory_after_stop == old(config).open_directory_after_stop,
        final(config).start_hotkey == old(config).start_hotkey,
        final(config).pause_hotkey == old(config).pause_hotkey,
        final(config).stop_hotkey == old(config).stop_hotkey,
        final(config).save_directory == old(config).save_directory,
{
    config.system_audio = config.system_audio && capabilities.system_audio;
    config.microphone = config.microphone && capabilities.microphone;
    config.highlight_clicks = config.highlight_clicks && capabilities.highlight_clicks;
}

/// The position of a language in the preferences list: Chinese is 1, everything else 0.
pub open spec fn position_of(language: LanguageMode) -> i32 {
    if language == LanguageMode::Chinese {
        1i32
    } else {
        0i32
    }
}

/// The language at a position of the preferences list: 1 is Chinese, anything else English.
pub open spec fn language_at(index: i32) -> LanguageMode {
    if index == 1 {
        LanguageMode::Chinese
    } else {
        LanguageMode::English
    }
}

/// The position of a language in the preferences list.
pub fn language_index(language: LanguageMode) -> (r: i32)
    ensures
        r == position_of(language),
{
    match language {
        LanguageMode::Chinese => 1,
        LanguageMode::English | LanguageMode::System => 0,
    }
}

/// The language at a position of the preferences list.
pub fn language_from_index(index: i32) -> (r: LanguageMode)
    ensures
        r == language_at(index),
{
    if index == 1 {
        LanguageMode::Chinese
    } else {
        LanguageMode::English
    }
}

/// The preferences list and the languages correspond: reading back the position of a
/// chosen language gives the position it was chosen at, and a chosen language (English or
/// Chinese) keeps its position.
pub proof fn lemma_language_index_round_trip(index: i32, language: LanguageMode)
    requires
        index == 0 || index == 1,
        language != LanguageMode::System,
    ensures
        position_of(language_at(index)) == index,
        language_at(position_of(language)) == language,
{
}

/// A shortcut typed into the preferences: the trimmed text, or none when it is blank.
pub fn configured_shortcut(value: &str) -> (r: Option<String>)
    ensures
        match r {
            Some(s) => s@ == trim(value@) && s@.len() > 0,
            None => trim(value@).len() == 0,
        },
{
    let t = trimmed(&chars_of(value));
    if t.len() == 0 {
        None
    } else {
        Some(string_of(&t))
    }
}

/// The border drawn around a recording target, in pixels.
pub const TARGET_INDICATOR_BORDER_PIXELS: i32 = 3;

/// The height of the label above a recording target, in pixels.
pub const TARGET_INDICATOR_LABEL_HEIGHT_PIXELS: i32 = 28;

/// The gap between the label and the border, in pixels.
pub const TARGET_INDICATOR_LABEL_GAP_PIXELS: i32 = 4;

/// Where the window that frames a recording target goes.
#[derive(Clone, Copy, Debug, PartialEq, Eq, Structural)]
pub struct TargetIndicatorGeometry {
    pub left: i32,
    pub top: i32,
    pub width: u32,
    pub height: u32,
}

/// Why the frame around a target cannot be placed.
#[derive(Clone, Copy, Debug, PartialEq, Eq, Structural)]
pub enum IndicatorError {
    InvalidWidth,
    InvalidHeight,
    LeftOverflow,
    TopOverflow,
}

/// The frame window around `bounds`: the border on every side and the label and its gap
/// above, so that the captured pixels stay clear of it.
pub open spec fn indicator_geometry(bounds: Bounds) -> Result<TargetIndicatorGeometry, IndicatorError> {
    let width = bounds.width + 2 * TARGET_INDICATOR_BORDER_PIXELS;
    let height = bounds.height + TARGET_INDICATOR_LABEL_HEIGHT_PIXELS
        + TARGET_INDICATOR_LABEL_GAP_PIXELS + 2 * TARGET_INDICATOR_BORDER_PIXELS;
    let left = bounds.left - TARGET_INDICATOR_BORDER_PIXELS;
    let top = bounds.top - (TARGET_INDICATOR_LABEL_HEIGHT_PIXELS + TARGET_INDICATOR_LABEL_GAP_PIXELS
        + TARGET_INDICATOR_BORDER_PIXELS);
    if width > i32::MAX || width < 0 {
        Err(IndicatorError::InvalidWidth)
    } else if height > i32::MAX || height < 0 {
        Err(IndicatorError::InvalidHeight)
    } else if left < i32::MIN {
        Err(IndicatorError::LeftOverflow)
    } else if top < i32::MIN {
        Err(IndicatorError::TopOverflow)
    } else {
        Ok(
            TargetIndicatorGeometry {
                left: left as i32,
                top: top as i32,
                width: width as u32,
                height: height as u32,
            },
        )
    }
}

/// Places the frame window around a recording target.
pub fn target_indicator_geometry(bounds: Bounds) -> (r: Result<TargetIndicatorGeometry, IndicatorError>)
    ensures
        r == indicator_geometry(bounds),
{
    let width = bounds.width as i64 + 2 * TARGET_INDICATOR_BORDER_PIXELS as i64;
    if width > i32::MAX as i64 || width < 0 {
        return Err(IndicatorError::InvalidWidth);
    }
    let height = bounds.height as i64 + TARGET_INDICATOR_LABEL_HEIGHT_PIXELS as i64
        + TARGET_INDICATOR_LABEL_GAP_PIXELS as i64 + 2 * TARGET_INDICATOR_BORDER_PIXELS as i64;
    if height > i32::MAX as i64 || height < 0 {
        return Err(IndicatorError::InvalidHeight);
    }
    let left = bounds.left as i64 - TARGET_INDICATOR_BORDER_PIXELS as i64;
    if left < i32::MIN as i64 {
        return Err(IndicatorError::LeftOverflow);
    }
    let top = bounds.top as i64 - (TARGET_INDICATOR_LABEL_HEIGHT_PIXELS as i64
        + TARGET_INDICATOR_LABEL_GAP_PIXELS as i64 + TARGET_INDICATOR_BORDER_PIXELS as i64);
    if top < i32::MIN as i64 {
        return Err(IndicatorError::TopOverflow);
    }
    Ok(TargetIndicatorGeometry { left: left as i32, top: top as i32, width: width as u32, height: height as u32 })
}

/// The frame keeps the whole target visible inside it: the target starts one border in from
/// the frame's left edge and one label, gap and border down from its top edge, and the frame
/// is wider and taller by exactly those margins.
pub proof fn lemma_indicator_surrounds_target(bounds: Bounds)
    requires
        indicator_geometry(bounds) is Ok,
    ensures
        ({
            let g = indicator_geometry(bounds)->Ok_0;
            &&& bounds.left - g.left == TARGET_INDICATOR_BORDER_PIXELS
            &&& bounds.top - g.top == TARGET_INDICATOR_LABEL_HEIGHT_PIXELS
                + TARGET_INDICATOR_LABEL_GAP_PIXELS + TARGET_INDICATOR_BORDER_PIXELS
            &&& g.width == bounds.width + 2 * TARGET_INDICATOR_BORDER_PIXELS
            &&& g.height == bounds.height + TARGET_INDICATOR_LABEL_HEIGHT_PIXELS
                + TARGET_INDICATOR_LABEL_GAP_PIXELS + 2 * TARGET_INDICATOR_BORDER_PIXELS
        }),
{
}

/// What kind of target the frame window marks.
#[derive(Clone, Copy, Debug, PartialEq, Eq, Structural)]
pub enum TargetIndicatorKind {
    Window,
    Region,
}

impl TargetIndicatorKind {
    /// The label shown above the frame.
    pub fn label(self, language: Language) -> (r: &'static str)
        ensures
            r@ == match self {
                TargetIndicatorKind::Window => pick(language, "录制窗口"@, "Recording window"@),
                TargetIndicatorKind::Region => pick(language, "录制区域"@, "Recording region"@),
            },
    {
        match self {
            Self::Window => text(language, "录制窗口", "Recording window"),
            Self::Region => text(language, "录制区域", "Recording region"),
        }
    }
}

/// A duration in seconds as `HH:MM:SS`, each field at least two digits wide.
pub open spec fn clock_text(seconds: nat) -> Seq<char> {
    zero_padded(seconds / 3600, 2) + seq![':'] + zero_padded(seconds / 60 % 60, 2) + seq![':']
        + zero_padded(seconds % 60, 2)
}

/// Formats a duration in whole seconds as `HH:MM:SS`.
pub fn format_duration(seconds: u64) -> (r: String)
    ensures
        r@ == clock_text(seconds as nat),
{
    let mut v = zero_padded_chars(seconds / 3600, 2);
    v.push(':');
    extend_chars(&mut v, &zero_padded_chars(seconds / 60 % 60, 2));
    v.push(':');
    extend_chars(&mut v, &zero_padded_chars(seconds % 60, 2));
    assert(v@ =~= clock_text(seconds as nat));
    string_of(&v)
}

/// Why a drawn selection does not name a target.
#[derive(Clone, Copy, Debug, PartialEq, Eq, Structural)]
pub enum SelectionError {
    /// The selection window was already closed.
    SessionEnded,
    /// No recordable window lies under the pointer.
    NoWindowAtPointer,
    /// The drawn region is smaller than 16 × 16 pixels.
    RegionTooSmall,
}

/// Division of a signed value by two, rounding toward zero as Rust does.
pub open spec fn half_toward_zero(v: int) -> int {
    if v >= 0 {
        v / 2
    } else {
        -((-v) / 2)
    }
}

/// The target named by a selection drawn from `(left, top)` to `(right, bottom)` in the
/// coordinates of the selection window, which covers `desktop`: in window mode (1) the
/// front-most window under the centre of the selection; otherwise the drawn region, which
/// must be at least 16 × 16 pixels.
pub fn selected_target(
    desktop: Option<Bounds>,
    candidates: Option<&WindowCandidates>,
    mode: i32,
    left: i32,
    top: i32,
    right: i32,
    bottom: i32,
) -> (r: Result<RecordingTarget, SelectionError>)
    requires
        match desktop {
            Some(d) => if mode == 1 {
                i32::MIN <= left + right <= i32::MAX && i32::MIN <= top + bottom <= i32::MAX
                    && i32::MIN <= d.left + half_toward_zero(left + right) <= i32::MAX
                    && i32::MIN <= d.top + half_toward_zero(top + bottom) <= i32::MAX
            } else {
                i32::MIN <= d.left + left <= i32::MAX && i32::MIN <= d.top + top <= i32::MAX
            },
            None => true,
        },
    ensures
        match desktop {
            None => r == Err::<RecordingTarget, SelectionError>(SelectionError::SessionEnded),
            Some(d) => if mode == 1 {
                let x = d.left + half_toward_zero(left + right);
                let y = d.top + half_toward_zero(top + bottom);
                match candidates {
                    None => r == Err::<RecordingTarget, SelectionError>(SelectionError::NoWindowAtPointer),
                    Some(c) => match r {
                        Ok(t) => exists|i: int|
                            0 <= i < c.items().len() && c.items()[i].bounds.holds(x, y)
                                && (forall|k: int| 0 <= k < i ==> !c.items()[k].bounds.holds(x, y))
                                && t == RecordingTarget::Window {
                                id: c.items()[i].id,
                                initial_bounds: c.items()[i].bounds,
                            },
                        Err(e) => e == SelectionError::NoWindowAtPointer && forall|k: int|
                            0 <= k < c.items().len() ==> !c.items()[k].bounds.holds(x, y),
                    },
                }
            } else {
                let bounds = Bounds {
                    left: (d.left + left) as i32,
                    top: (d.top + top) as i32,
                    width: saturate(right - left) as i32,
                    height: saturate(bottom - top) as i32,
                };
                r == if bounds.is_recordable() {
                    Ok::<RecordingTarget, SelectionError>(RecordingTarget::Region(bounds))
                } else {
                    Err(SelectionError::RegionTooSmall)
                }
            },
        },
{
    let desktop = match desktop {
        Some(d) => d,
        None => {
            return Err(SelectionError::SessionEnded);
        },
    };
    if mode == 1 {
        let x = desktop.left + (left + right) / 2;
        let y = desktop.top + (top + bottom) / 2;
        let candidate = match candidates {
            Some(values) => values.target_at(x, y),
            None => None,
        };
        match candidate {
            Some(c) => Ok(RecordingTarget::Window { id: c.id, initial_bounds: c.bounds }),
            None => Err(SelectionError::NoWindowAtPointer),
        }
    } else {
        let bounds = Bounds {
            left: desktop.left + left,
            top: desktop.top + top,
            width: saturating_sub(right, left),
            height: saturating_sub(bottom, top),
        };
        match bounds.validate() {
            Ok(b) => Ok(RecordingTarget::Region(b)),
            Err(BoundsError::TooSmall) => Err(SelectionError::RegionTooSmall),
        }
    }
}

/// Why the settings do not name a target to record.
#[derive(Clone, Copy, Debug, PartialEq, Eq, Structural)]
pub enum TargetChoiceError {
    /// Window mode without a chosen window.
    NoWindowChosen,
    /// Region mode without a chosen region.
    NoRegionChosen,
    /// A source mode other than screen, window or region.
    InvalidSourceMode,
}

/// The target of a new recording: in screen mode (0) the chosen display or, without one,
/// the primary display; in window mode (1) and region mode (2) the target chosen before,
/// which must be of that kind.
pub open spec fn choose_target(
    source_mode: i32,
    selected_screen: Option<Bounds>,
    primary_screen: Bounds,
    chosen: Option<RecordingTarget>,
) -> Result<RecordingTarget, TargetChoiceError> {
    if source_mode == 0 {
        Ok(
            RecordingTarget::Screen(
                match selected_screen {
                    Some(b) => b,
                    None => primary_screen,
                },
            ),
        )
    } else if source_mode == 1 {
        match chosen {
            Some(RecordingTarget::Window { id, initial_bounds }) => Ok(
                RecordingTarget::Window { id, initial_bounds },
            ),
            _ => Err(TargetChoiceError::NoWindowChosen),
        }
    } else if source_mode == 2 {
        match chosen {
            Some(RecordingTarget::Region(b)) => Ok(RecordingTarget::Region(b)),
            _ => Err(TargetChoiceError::NoRegionChosen),
        }
    } else {
        Err(TargetChoiceError::InvalidSourceMode)
    }
}

/// Picks the target of a new recording from the source mode and the earlier choices.
pub fn recording_target(
    source_mode: i32,
    selected_screen: Option<Bounds>,
    primary_screen: Bounds,
    chosen: Option<RecordingTarget>,
) -> (r: Result<RecordingTarget, TargetChoiceError>)
    ensures
        r == choose_target(source_mode, selected_screen, primary_screen, chosen),
{
    match source_mode {
        0 => Ok(
            RecordingTarget::Screen(
                match selected_screen {
                    Some(b) => b,
                    None => primary_screen,
                },
            ),
        ),
        1 => match chosen {
            Some(RecordingTarget::Window { id, initial_bounds }) => Ok(
                RecordingTarget::Window { id, initial_bounds },
            ),
            _ => Err(TargetChoiceError::NoWindowChosen),
        },
        2 => match chosen {
            Some(RecordingTarget::Region(b)) => Ok(RecordingTarget::Region(b)),
            _ => Err(TargetChoiceError::NoRegionChosen),
        },
        _ => Err(TargetChoiceError::InvalidSourceMode),
    }
}

/// The audio and click options that a recording gets: a source is used only when the
/// output format carries audio, the platform can capture it and the user enabled it;
/// clicks are highlighted only when the platform can do it and the user enabled it.
pub fn gated_options(
    format: OutputFormat,
    capabilities: RecordingCapabilities,
    system_audio: bool,
    microphone: bool,
    highlight_clicks: bool,
) -> (r: (bool, bool, bool))
    ensures
        r.0 == (format == OutputFormat::Mp4 && capabilities.system_audio && system_audio),
        r.1 == (format == OutputFormat::Mp4 && capabilities.microphone && microphone),
        r.2 == (capabilities.highlight_clicks && highlight_clicks),
{
    let audio = format.supports_audio();
    (
        audio && capabilities.system_audio && system_audio,
        audio && capabilities.microphone && microphone,
        capabilities.highlight_clicks && highlight_clicks,
    )
}

/// The number shown in the window for each stage of a recording: idle, recording, paused,
/// counting down.
pub open spec fn stage_code(active: bool, paused: bool, counting_down: bool) -> i32 {
    if counting_down {
        3
    } else if !active {
        0
    } else if paused {
        2
    } else {
        1
    }
}

/// The status text while a countdown runs: the seconds left and the words around them.
pub open spec fn countdown_status(language: Language, remaining: nat) -> Seq<char> {
    decimal(remaining) + seq![' '] + pick(language, "秒后开始录制"@, "seconds until recording starts"@)
}

/// The elapsed-time text while a countdown runs.
pub open spec fn countdown_clock(remaining: nat) -> Seq<char> {
    "00:00:"@ + zero_padded(remaining, 2)
}

/// What becomes of the frame window that marks the target once a selection ends.
#[derive(Clone, Copy, Debug, PartialEq, Eq, Structural)]
pub enum IndicatorAction {
    /// Mark the chosen window or region.
    Show(Bounds, TargetIndicatorKind),
    /// A whole display was chosen: no frame is shown.
    Clear,
    /// The selection was cancelled: show the frame of the previous target again.
    Restore,
}

/// What the main window shows and keeps once the target selection window closes.
#[derive(Clone, Debug, PartialEq, Eq)]
pub struct SelectionOutcome {
    /// The source mode the window switches to.
    pub source_mode: i32,
    /// The status text.
    pub message: String,
    pub indicator: IndicatorAction,
    /// The new recording target, when one was chosen.
    pub target: Option<RecordingTarget>,
}

/// Decides how a target selection in `mode` ends: with the chosen target, its size in the
/// status and its frame shown, or, when it was cancelled, back in the stored source mode.
pub fn selection_outcome(
    language: Language,
    mode: i32,
    stored_source_mode: u8,
    target: Option<RecordingTarget>,
) -> (r: SelectionOutcome)
    ensures
        r.target == target,
        match target {
            Some(t) => {
                &&& r.source_mode == mode
                &&& r.message@ == selection_status(
                    language,
                    crate::recorder::domain::target_bounds(t),
                )
                &&& r.indicator == match t {
                    RecordingTarget::Window { initial_bounds, .. } => IndicatorAction::Show(
                        initial_bounds,
                        TargetIndicatorKind::Window,
                    ),
                    RecordingTarget::Region(b) => IndicatorAction::Show(b, TargetIndicatorKind::Region),
                    RecordingTarget::Screen(_) => IndicatorAction::Clear,
                }
            },
            None => {
                &&& r.source_mode == stored_source_mode
                &&& r.message@ == pick(language, "已取消目标选择"@, "Target selection canceled"@)
                &&& r.indicator == IndicatorAction::Restore
            },
        },
{
    match target {
        Some(t) => {
            let bounds = t.initial_bounds();
            let indicator = match t {
                RecordingTarget::Window { initial_bounds, .. } => IndicatorAction::Show(
                    initial_bounds,
                    TargetIndicatorKind::Window,
                ),
                RecordingTarget::Region(b) => IndicatorAction::Show(b, TargetIndicatorKind::Region),
                RecordingTarget::Screen(_) => IndicatorAction::Clear,
            };
            SelectionOutcome {
                source_mode: mode,
                message: selection_message(language, bounds),
                indicator,
                target,
            }
        },
        None => SelectionOutcome {
            source_mode: stored_source_mode as i32,
            message: text(language, "已取消目标选择", "Target selection canceled").to_owned(),
            indicator: IndicatorAction::Restore,
            target: None,
        },
    }
}

/// Why the recording target cannot be changed.
#[derive(Clone, Copy, Debug, PartialEq, Eq, Structural)]
pub enum TargetChangeError {
    /// A recording, or the countdown before one, is under way.
    RecordingActive,
}

impl TargetChangeError {
    /// The message shown for the error.
    pub fn message(self, language: Language) -> (r: &'static str)
        ensures
            r@ == pick(
                language,
                "录制期间不能更改目标"@,
                "The recording target cannot be changed while recording"@,
            ),
    {
        text(language, "录制期间不能更改目标", "The recording target cannot be changed while recording")
    }
}

/// A window or a region can be selected only while no recording is under way.
pub fn check_target_change(recorder_active: bool, stage: i32) -> (r: Result<(), TargetChangeError>)
    ensures
        r == if recorder_active || stage != stage_code(false, false, false) {
            Err::<(), TargetChangeError>(TargetChangeError::RecordingActive)
        } else {
            Ok(())
        },
{
    if recorder_active || stage != 0 {
        Err(TargetChangeError::RecordingActive)
    } else {
        Ok(())
    }
}

/// The status text after the current display was chosen as the target.
pub fn current_display_selected(language: Language) -> (r: &'static str)
    ensures
        r@ == pick(language, "已选择当前显示器"@, "Current display selected"@),
{
    text(language, "已选择当前显示器", "Current display selected")
}

/// The status and clock texts of one countdown step.
pub fn countdown_texts(language: Language, remaining: u8) -> (r: (String, String))
    ensures
        r.0@ == countdown_status(language, remaining as nat),
        r.1@ == countdown_clock(remaining as nat),
{
    let mut status = decimal_chars(remaining as u64);
    status.push(' ');
    extend_chars(&mut status, &chars_of(text(language, "秒后开始录制", "seconds until recording starts")));
    let mut clock = chars_of("00:00:");
    extend_chars(&mut clock, &zero_padded_chars(remaining as u64, 2));
    assert(status@ =~= countdown_status(language, remaining as nat));
    (string_of(&status), string_of(&clock))
}

/// The display selected after the list of displays was read again: the first one with the
/// rectangle selected before, else the primary one.
pub fn refreshed_screen_index(monitors: &MonitorCandidates, previous: Option<Bounds>) -> (r: usize)
    ensures
        match previous {
            Some(b) => if exists|k: int| 0 <= k < monitors.items().len() && monitors.items()[k].bounds == b {
                r < monitors.items().len() && monitors.items()[r as int].bounds == b && forall|k: int|
                    0 <= k < r ==> monitors.items()[k].bounds != b
            } else {
                r == first_primary(monitors.items())
            },
            None => r == first_primary(monitors.items()),
        },
{
    let found = match previous {
        Some(b) => monitors.index_of(b),
        None => None,
    };
    match found {
        Some(i) => i,
        None => monitors.primary_index(),
    }
}

/// The short name of the display at `index`: "Display" and its number, counted from 1.
pub open spec fn display_name(language: Language, index: nat) -> Seq<char> {
    pick(language, "显示器"@, "Display"@) + seq![' '] + decimal(index + 1)
}

/// The short name of a display.
pub fn display_label(language: Language, index: u32) -> (r: String)
    ensures
        r@ == display_name(language, index as nat),
{
    let mut v = chars_of(text(language, "显示器", "Display"));
    v.push(' ');
    extend_chars(&mut v, &decimal_chars(index as u64 + 1));
    string_of(&v)
}

/// Why a display cannot be chosen.
#[derive(Clone, Copy, Debug, PartialEq, Eq, Structural)]
pub enum ScreenChoiceError {
    /// A recording, or the countdown before one, is under way.
    RecordingActive,
    /// The index is negative.
    InvalidIndex,
    /// There is no display at the index any more.
    Gone,
}

impl ScreenChoiceError {
    /// The message shown for the error.
    pub fn message(self, language: Language) -> (r: &'static str)
        ensures
            r@ == match self {
                ScreenChoiceError::RecordingActive => pick(
                    language,
                    "录制期间不能更改显示器"@,
                    "The display cannot be changed while recording"@,
                ),
                ScreenChoiceError::InvalidIndex => pick(
                    language,
                    "显示器索引无效"@,
                    "The display index is invalid"@,
                ),
                ScreenChoiceError::Gone => pick(
                    language,
                    "所选显示器已不存在"@,
                    "The selected display is no longer available"@,
                ),
            },
    {
        match self {
            ScreenChoiceError::RecordingActive => text(
                language,
                "录制期间不能更改显示器",
                "The display cannot be changed while recording",
            ),
            ScreenChoiceError::InvalidIndex => text(
                language,
                "显示器索引无效",
                "The display index is invalid",
            ),
            ScreenChoiceError::Gone => text(
                language,
                "所选显示器已不存在",
                "The selected display is no longer available",
            ),
        }
    }
}

/// The display chosen from the list at `index`, refused while a recording is under way.
pub fn choose_screen(
    recorder_active: bool,
    stage: i32,
    monitors: Option<&MonitorCandidates>,
    index: i32,
) -> (r: Result<MonitorCandidate, ScreenChoiceError>)
    ensures
        r == if recorder_active || stage != stage_code(false, false, false) {
            Err::<MonitorCandidate, ScreenChoiceError>(ScreenChoiceError::RecordingActive)
        } else if index < 0 {
            Err(ScreenChoiceError::InvalidIndex)
        } else {
            match monitors {
                Some(m) => if index < m.items().len() {
                    Ok(m.items()[index as int])
                } else {
                    Err(ScreenChoiceError::Gone)
                },
                None => Err(ScreenChoiceError::Gone),
            }
        },
{
    if recorder_active || stage != 0 {
        return Err(ScreenChoiceError::RecordingActive);
    }
    if index < 0 {
        return Err(ScreenChoiceError::InvalidIndex);
    }
    let found = match monitors {
        Some(m) => m.get(index as usize),
        None => None,
    };
    match found {
        Some(monitor) => Ok(monitor),
        None => Err(ScreenChoiceError::Gone),
    }
}

/// The status text after a display was chosen: its number and size.
pub open spec fn display_selected_status(language: Language, index: nat, bounds: Bounds) -> Seq<char> {
    pick(language, "已选择显示器"@, "Selected display"@) + seq![' '] + decimal(index + 1) + ": "@
        + signed_decimal(bounds.width as int) + " × "@ + signed_decimal(bounds.height as int)
}

/// The status text after a display was chosen.
pub fn display_selected_message(language: Language, index: u32, bounds: Bounds) -> (r: String)
    ensures
        r@ == display_selected_status(language, index as nat, bounds),
{
    let mut v = chars_of(text(language, "已选择显示器", "Selected display"));
    v.push(' ');
    extend_chars(&mut v, &decimal_chars(index as u64 + 1));
    extend_chars(&mut v, &chars_of(": "));
    extend_chars(&mut v, &signed_decimal_chars(bounds.width as i64));
    extend_chars(&mut v, &chars_of(" × "));
    extend_chars(&mut v, &signed_decimal_chars(bounds.height as i64));
    string_of(&v)
}

/// Why a recording cannot be started.
#[derive(Clone, Copy, Debug, PartialEq, Eq, Structural)]
pub enum StartError {
    /// A recording, or the countdown before one, is already under way.
    AlreadyActive,
}

impl StartError {
    /// The message shown for the error.
    pub fn message(self, language: Language) -> (r: &'static str)
        ensures
            r@ == pick(language, "已有录制任务正在进行"@, "A recording task is already active"@),
    {
        text(language, "已有录制任务正在进行", "A recording task is already active")
    }
}

/// A countdown can begin only when no recorder runs and the window is idle.
pub fn check_can_start(recorder_active: bool, stage: i32) -> (r: Result<(), StartError>)
    ensures
        r == if recorder_active || stage != stage_code(false, false, false) {
            Err::<(), StartError>(StartError::AlreadyActive)
        } else {
            Ok(())
        },
{
    if recorder_active || stage != 0 {
        Err(StartError::AlreadyActive)
    } else {
        Ok(())
    }
}

/// The seconds a countdown starts from: the setting, limited to 0 to 10.
pub fn countdown_start(seconds: i32) -> (r: u8)
    ensures
        r == clamp_i32(seconds, 0, 10),
{
    if seconds < 0 {
        0
    } else if seconds > 10 {
        10
    } else {
        seconds as u8
    }
}

/// What one tick of the start countdown does.
#[derive(Clone, Debug, PartialEq, Eq)]
pub enum CountdownStep {
    /// The countdown was cancelled or replaced by a newer one: nothing happens.
    Abandon,
    /// The countdown is over: the recording starts.
    Start,
    /// Show the seconds left, then tick again a second later with `next` seconds left.
    Show { status: String, clock: String, next: u8 },
}

/// Decides one tick of the countdown numbered `tick_token` with `remaining` seconds left,
/// while `current_token` is the newest countdown and `stage` the window's stage code.
pub fn countdown_step(
    language: Language,
    current_token: u64,
    tick_token: u64,
    stage: i32,
    remaining: u8,
) -> (r: CountdownStep)
    ensures
        current_token != tick_token || stage != stage_code(false, false, true) ==> r
            is Abandon,
        current_token == tick_token && stage == stage_code(false, false, true) && remaining == 0
            ==> r is Start,
        current_token == tick_token && stage == stage_code(false, false, true) && remaining > 0
            ==> (r matches CountdownStep::Show { status, clock, next } && status@
            == countdown_status(language, remaining as nat) && clock@ == countdown_clock(
            remaining as nat,
        ) && next == remaining - 1),
{
    if current_token != tick_token || stage != 3 {
        return CountdownStep::Abandon;
    }
    if remaining == 0 {
        return CountdownStep::Start;
    }
    let (status, clock) = countdown_texts(language, remaining);
    CountdownStep::Show { status, clock, next: remaining - 1 }
}

/// The status text while the recording devices start.
pub fn initializing_status(language: Language) -> (r: &'static str)
    ensures
        r@ == pick(language, "正在初始化录制设备..."@, "Initializing recording devices..."@),
{
    text(language, "正在初始化录制设备...", "Initializing recording devices...")
}

/// The status text when a recording could not be started: the error, followed by the
/// failure to clear the target indicator when there was one.
pub fn start_failure_message(error: &str, indicator_error: Option<&str>) -> (r: String)
    ensures
        r@ == match indicator_error {
            Some(i) => error@ + "; "@ + i@,
            None => error@,
        },
{
    match indicator_error {
        Some(i) => {
            let mut v = chars_of(error);
            extend_chars(&mut v, &chars_of("; "));
            extend_chars(&mut v, &chars_of(i));
            string_of(&v)
        },
        None => error.to_owned(),
    }
}

/// The status text after a target was chosen: its size.
pub open spec fn selection_status(language: Language, bounds: Bounds) -> Seq<char> {
    labelled(
        pick(language, "已选择录制目标"@, "Recording target selected"@),
        signed_decimal(bounds.width as int) + " × "@ + signed_decimal(bounds.height as int),
    )
}

/// Reports the size of the chosen target.
pub fn selection_message(language: Language, bounds: Bounds) -> (r: String)
    ensures
        r@ == selection_status(language, bounds),
{
    let mut size = signed_decimal_chars(bounds.width as i64);
    extend_chars(&mut size, &chars_of(" × "));
    extend_chars(&mut size, &signed_decimal_chars(bounds.height as i64));
    let size_text = string_of(&size);
    label_message(text(language, "已选择录制目标", "Recording target selected"), size_text.as_str())
}

/// The status text when a recording starts: "recording", followed by the first warning.
pub open spec fn started_status(language: Language, warnings: Seq<Seq<char>>) -> Seq<char> {
    if warnings.len() > 0 {
        pick(language, "录制中"@, "Recording"@) + "; "@ + warnings[0]
    } else {
        pick(language, "录制中"@, "Recording"@)
    }
}

/// Reports that a recording started.
pub fn started_message(language: Language, warnings: &Vec<String>) -> (r: String)
    ensures
        r@ == started_status(language, warnings@.map_values(|w: String| w@)),
{
    let head = text(language, "录制中", "Recording");
    if warnings.len() > 0 {
        let mut v = chars_of(head);
        extend_chars(&mut v, &chars_of("; "));
        extend_chars(&mut v, &chars_of(warnings[0].as_str()));
        string_of(&v)
    } else {
        head.to_owned()
    }
}

/// The status text after a recording was saved, with the errors of opening its folder and
/// of removing the target frame, if any; the flag tells whether it is shown as an error.
pub open spec fn completed_status(
    language: Language,
    file_name: Seq<char>,
    open_error: Option<Seq<char>>,
    indicator_error: Option<Seq<char>>,
) -> (Seq<char>, bool) {
    let saved = labelled(pick(language, "已保存"@, "Saved"@), file_name);
    let open_failed = pick(language, "打开目录失败"@, "Failed to open the save folder"@);
    match (open_error, indicator_error) {
        (Some(o), Some(i)) => (saved + "; "@ + labelled(open_failed, o) + "; "@ + i, true),
        (Some(o), None) => (saved + "; "@ + labelled(open_failed, o), true),
        (None, Some(i)) => (saved + "; "@ + i, true),
        (None, None) => (saved + seq![' '] + pick(language, "（单击打开）"@, "(click to open)"@), false),
    }
}

/// Reports a saved recording.
pub fn completed_message(
    language: Language,
    file_name: &str,
    open_error: Option<&str>,
    indicator_error: Option<&str>,
) -> (r: (String, bool))
    ensures
        (r.0@, r.1) == completed_status(
            language,
            file_name@,
            match open_error {
                Some(o) => Some(o@),
                None => None,
            },
            match indicator_error {
                Some(i) => Some(i@),
                None => None,
            },
        ),
{
    let saved = label_message(text(language, "已保存", "Saved"), file_name);
    let mut v = chars_of(saved.as_str());
    let open_failed = text(language, "打开目录失败", "Failed to open the save folder");
    match (open_error, indicator_error) {
        (Some(o), Some(i)) => {
            extend_chars(&mut v, &chars_of("; "));
            let detail = label_message(open_failed, o);
            extend_chars(&mut v, &chars_of(detail.as_str()));
            extend_chars(&mut v, &chars_of("; "));
            extend_chars(&mut v, &chars_of(i));
            (string_of(&v), true)
        },
        (Some(o), None) => {
            extend_chars(&mut v, &chars_of("; "));
            let detail = label_message(open_failed, o);
            extend_chars(&mut v, &chars_of(detail.as_str()));
            (string_of(&v), true)
        },
        (None, Some(i)) => {
            extend_chars(&mut v, &chars_of("; "));
            extend_chars(&mut v, &chars_of(i));
            (string_of(&v), true)
        },
        (None, None) => {
            v.push(' ');
            extend_chars(&mut v, &chars_of(text(language, "（单击打开）", "(click to open)")));
            (string_of(&v), false)
        },
    }
}

/// The status text after a recording failed, with the error of removing the target frame,
/// if any.
pub open spec fn failed_status(language: Language, message: Seq<char>, indicator_error: Option<Seq<char>>) -> Seq<char> {
    let head = labelled(pick(language, "录制失败"@, "Recording failed"@), message);
    match indicator_error {
        Some(i) => head + "; "@ + i,
        None => head,
    }
}

/// Reports a failed recording.
pub fn failed_message(language: Language, message: &str, indicator_error: Option<&str>) -> (r: String)
    ensures
        r@ == failed_status(
            language,
            message@,
            match indicator_error {
                Some(i) => Some(i@),
                None => None,
            },
        ),
{
    let head = label_message(text(language, "录制失败", "Recording failed"), message);
    match indicator_error {
        Some(i) => {
            let mut v = chars_of(head.as_str());
            extend_chars(&mut v, &chars_of("; "));
            extend_chars(&mut v, &chars_of(i));
            string_of(&v)
        },
        None => head,
    }
}


/// The values of the preferences dialog.
#[derive(Clone, Debug)]
pub struct PreferenceForm {
    pub language_index: i32,
    pub auto_minimize_after_start: bool,
    pub open_directory_after_stop: bool,
    pub countdown_seconds: i32,
    pub save_directory: String,
    pub quality_preset: i32,
    pub frame_rate: i32,
    pub output_format: OutputFormat,
    pub system_audio: bool,
    pub microphone: bool,
    pub show_cursor: bool,
    pub highlight_clicks: bool,
}

/// Why the preferences cannot be saved.
#[derive(Clone, Copy, Debug, PartialEq, Eq, Structural)]
pub enum PreferenceError {
    RecordingActive,
    EmptySaveDirectory,
}

impl PreferenceError {
    /// The message shown for the error.
    pub fn message(self, language: Language) -> (r: &'static str)
        ensures
            r@ == match self {
                PreferenceError::RecordingActive => pick(
                    language,
                    "录制期间不能保存首选项"@,
                    "Preferences cannot be saved while recording"@,
                ),
                PreferenceError::EmptySaveDirectory => pick(
                    language,
                    "保存目录不能为空"@,
                    "The save folder cannot be empty"@,
                ),
            },
    {
        match self {
            PreferenceError::RecordingActive => text(
                language,
                "录制期间不能保存首选项",
                "Preferences cannot be saved while recording",
            ),
            PreferenceError::EmptySaveDirectory => text(
                language,
                "保存目录不能为空",
                "The save folder cannot be empty",
            ),
        }
    }
}

/// `v` limited to `lo ..= hi`.
pub open spec fn clamp_i32(v: i32, lo: i32, hi: i32) -> i32 {
    if v < lo {
        lo
    } else if v > hi {
        hi
    } else {
        v
    }
}

fn clamp_to_u8(v: i32, lo: i32, hi: i32) -> (r: u8)
    requires
        0 <= lo <= hi <= 255,
    ensures
        r == clamp_i32(v, lo, hi),
{
    let c = if v < lo { lo } else if v > hi { hi } else { v };
    c as u8
}

/// The settings that the preferences dialog asks for, taken over from `old`: refused while
/// recording or with an empty save folder; otherwise the language, countdown (0 to 10),
/// save folder, quality (0 to 3), frame rate (0 or 1) and options of the form, audio only
/// when the output format carries it, then everything the platform cannot record switched
/// off.
pub fn preference_config(
    old: &Config,
    recording_active: bool,
    form: PreferenceForm,
    capabilities: RecordingCapabilities,
) -> (r: Result<Config, PreferenceError>)
    ensures
        recording_active ==> r == Err::<Config, PreferenceError>(PreferenceError::RecordingActive),
        !recording_active && form.save_directory@.len() == 0 ==> r == Err::<Config, PreferenceError>(
            PreferenceError::EmptySaveDirectory,
        ),
        r matches Ok(c) ==> {
            &&& !recording_active && form.save_directory@.len() > 0
            &&& c.language == language_at(form.language_index)
            &&& c.auto_minimize_after_start == form.auto_minimize_after_start
            &&& c.open_directory_after_stop == form.open_directory_after_stop
            &&& c.countdown_seconds == clamp_i32(form.countdown_seconds, 0, 10)
            &&& c.save_directory == form.save_directory
            &&& c.quality_preset == clamp_i32(form.quality_preset, 0, 3)
            &&& c.frame_rate == clamp_i32(form.frame_rate, 0, 1)
            &&& c.system_audio == (form.output_format == OutputFormat::Mp4 && form.system_audio
                && capabilities.system_audio)
            &&& c.microphone == (form.output_format == OutputFormat::Mp4 && form.microphone
                && capabilities.microphone)
            &&& c.show_cursor == form.show_cursor
            &&& c.highlight_clicks == (form.highlight_clicks && capabilities.highlight_clicks)
            &&& c.source_mode == old.source_mode
            &&& c.start_hotkey == old.start_hotkey
            &&& c.pause_hotkey == old.pause_hotkey
            &&& c.stop_hotkey == old.stop_hotkey
        },
        !recording_active && form.save_directory@.len() > 0 ==> r is Ok,
{
    if recording_active {
        return Err(PreferenceError::RecordingActive);
    }
    if form.save_directory.as_str().is_empty() {
        return Err(PreferenceError::EmptySaveDirectory);
    }
    let audio = form.output_format.supports_audio();
    let mut config = Config {
        language: language_from_index(form.language_index),
        source_mode: old.source_mode,
        quality_preset: clamp_to_u8(form.quality_preset, 0, 3),
        frame_rate: clamp_to_u8(form.frame_rate, 0, 1),
        system_audio: audio && form.system_audio,
        microphone: audio && form.microphone,
        show_cursor: form.show_cursor,
        highlight_clicks: form.highlight_clicks,
        countdown_seconds: clamp_to_u8(form.countdown_seconds, 0, 10),
        auto_minimize_after_start: form.auto_minimize_after_start,
        open_directory_after_stop: form.open_directory_after_stop,
        start_hotkey: crate::recorder::config::copy_text(&old.start_hotkey),
        pause_hotkey: crate::recorder::config::copy_text(&old.pause_hotkey),
        stop_hotkey: crate::recorder::config::copy_text(&old.stop_hotkey),
        save_directory: form.save_directory,
    };
    normalize_recording_capabilities(&mut config, capabilities);
    Ok(config)
}

/// How putting the previous shortcuts back went after the settings could not be saved.
#[derive(Clone, Debug, PartialEq, Eq)]
pub enum ShortcutRollback {
    /// There was nothing to put back, or it worked.
    Done,
    /// The previous shortcuts could not be registered again; `disabled` says whether the
    /// new ones could at least be switched off.
    Failed { message: String, disabled: bool },
}

/// The message for settings that could not be saved, with what happened to the shortcuts.
pub open spec fn save_failure_text(language: Language, error: Seq<char>, rollback: ShortcutRollback) -> Seq<char> {
    labelled(pick(language, "保存配置失败"@, "Failed to save settings"@), error) + match rollback {
        ShortcutRollback::Done => Seq::empty(),
        ShortcutRollback::Failed { message, disabled } => pick(language, "；"@, "; "@) + labelled(
            pick(language, "旧快捷键恢复失败"@, "Failed to restore the previous shortcuts"@),
            message@,
        ) + if disabled {
            pick(language, "；已停用本次快捷键"@, "; the new shortcuts were disabled"@)
        } else {
            pick(language, "；停用本次快捷键也失败"@, "; disabling the new shortcuts also failed"@)
        },
    }
}

/// The message for settings that could not be saved.
pub fn save_failure_message(language: Language, error: &str, rollback: &ShortcutRollback) -> (r: String)
    ensures
        r@ == save_failure_text(language, error@, *rollback),
{
    let mut v = chars_of(label_message(text(language, "保存配置失败", "Failed to save settings"), error).as_str());
    match rollback {
        ShortcutRollback::Done => {},
        ShortcutRollback::Failed { message, disabled } => {
            extend_chars(&mut v, &chars_of(text(language, "；", "; ")));
            extend_chars(
                &mut v,
                &chars_of(
                    label_message(
                        text(language, "旧快捷键恢复失败", "Failed to restore the previous shortcuts"),
                        message.as_str(),
                    ).as_str(),
                ),
            );
            if *disabled {
                extend_chars(&mut v, &chars_of(text(language, "；已停用本次快捷键", "; the new shortcuts were disabled")));
            } else {
                extend_chars(
                    &mut v,
                    &chars_of(text(language, "；停用本次快捷键也失败", "; disabling the new shortcuts also failed")),
                );
            }
        },
    }
    assert(v@ =~= save_failure_text(language, error@, *rollback));
    string_of(&v)
}


/// The three shortcuts typed into the preferences, in the order start, pause, stop: each
/// trimmed, or none when blank.
pub fn preference_hotkeys(start: &str, pause: &str, stop: &str) -> (r: [Option<String>; 3])
    ensures
        forall|i: int| 0 <= i < 3 ==> match #[trigger] r@[i] {
            Some(s) => s@ == trim((if i == 0 { start@ } else if i == 1 { pause@ } else { stop@ })) && s@.len() > 0,
            None => trim((if i == 0 { start@ } else if i == 1 { pause@ } else { stop@ })).len() == 0,
        },
{
    [configured_shortcut(start), configured_shortcut(pause), configured_shortcut(stop)]
}

/// The shortcuts that can be saved when no global hot-key manager is available: only a set
/// with every shortcut switched off.
pub fn shortcuts_without_manager(language: Language, requested: [Option<String>; 3]) -> (r: Result<
    [Option<String>; 3],
    crate::recorder::shortcuts::ShortcutIssue,
>)
    ensures
        requested@[0] is None && requested@[1] is None && requested@[2] is None ==> r
            == Ok::<[Option<String>; 3], crate::recorder::shortcuts::ShortcutIssue>(requested),
        !(requested@[0] is None && requested@[1] is None && requested@[2] is None) ==> (r matches Err(
            issue,
        ) && issue.action is None && issue.message@ == pick(
            language,
            "全局快捷键管理器不可用；可以清除全部快捷键后保存其他设置"@,
            "The global shortcut manager is unavailable; clear all shortcuts to save the other settings"@,
        )),
{
    if requested[0].is_none() && requested[1].is_none() && requested[2].is_none() {
        Ok(requested)
    } else {
        Err(
            crate::recorder::shortcuts::ShortcutIssue::general(
                text(
                    language,
                    "全局快捷键管理器不可用；可以清除全部快捷键后保存其他设置",
                    "The global shortcut manager is unavailable; clear all shortcuts to save the other settings",
                ).to_owned(),
            ),
        )
    }
}

/// The build line of the about box: the operating system, the architecture, the UI
/// toolkit's version and the build profile.
pub fn build_information(os: &str, arch: &str, debug: bool) -> (r: String)
    ensures
        r@ == os@ + seq![' '] + arch@ + " · Slint 1.17.0 · "@ + if debug {
            "Debug"@
        } else {
            "Release"@
        },
{
    let mut v = chars_of(os);
    v.push(' ');
    extend_chars(&mut v, &chars_of(arch));
    extend_chars(&mut v, &chars_of(" · Slint 1.17.0 · "));
    if debug {
        extend_chars(&mut v, &chars_of("Debug"));
    } else {
        extend_chars(&mut v, &chars_of("Release"));
    }
    string_of(&v)
}

/// The recording settings shown in the main window.
#[derive(Clone, Copy, Debug)]
pub struct MainWindowSettings {
    pub source_mode: i32,
    pub quality_preset: i32,
    pub frame_rate: i32,
    pub output_format: OutputFormat,
    pub system_audio: bool,
    pub microphone: bool,
    pub show_cursor: bool,
    pub highlight_clicks: bool,
    pub countdown_seconds: i32,
    pub auto_minimize_after_start: bool,
}

/// Takes the main window's recording settings into the stored settings: source mode 0 to
/// 2, quality 0 to 3, frame rate 0 or 1, countdown 0 to 10, audio only when the output
/// format carries it, then everything the platform cannot record switched off.
pub fn update_config_from_main(config: &mut Config, values: MainWindowSettings, capabilities: RecordingCapabilities)
    ensures
        final(config).source_mode == clamp_i32(values.source_mode, 0, 2),
        final(config).quality_preset == clamp_i32(values.quality_preset, 0, 3),
        final(config).frame_rate == clamp_i32(values.frame_rate, 0, 1),
        final(config).system_audio == (values.output_format == OutputFormat::Mp4 && values.system_audio
            && capabilities.system_audio),
        final(config).microphone == (values.output_format == OutputFormat::Mp4 && values.microphone
            && capabilities.microphone),
        final(config).show_cursor == values.show_cursor,
        final(config).highlight_clicks == (values.highlight_clicks && capabilities.highlight_clicks),
        final(config).countdown_seconds == clamp_i32(values.countdown_seconds, 0, 10),
        final(config).auto_minimize_after_start == values.auto_minimize_after_start,
        final(config).language == old(config).language,
        final(config).open_directory_after_stop == old(config).open_directory_after_stop,
        final(config).start_hotkey == old(config).start_hotkey,
        final(config).pause_hotkey == old(config).pause_hotkey,
        final(config).stop_hotkey == old(config).stop_hotkey,
        final(config).save_directory == old(config).save_directory,
{
    let audio = values.output_format.supports_audio();
    config.source_mode = clamp_to_u8(values.source_mode, 0, 2);
    config.quality_preset = clamp_to_u8(values.quality_preset, 0, 3);
    config.frame_rate = clamp_to_u8(values.frame_rate, 0, 1);
    config.system_audio = audio && values.system_audio;
    config.microphone = audio && values.microphone;
    config.show_cursor = values.show_cursor;
    config.highlight_clicks = values.highlight_clicks;
    config.countdown_seconds = clamp_to_u8(values.countdown_seconds, 0, 10);
    config.auto_minimize_after_start = values.auto_minimize_after_start;
    normalize_recording_capabilities(config, capabilities);
}

/// The message of a platform backend that lacks a capability.
pub fn not_implemented(language: Language, capability: &str) -> (r: String)
    ensures
        r@ == labelled(
            pick(
                language,
                "当前平台后端尚未实现此能力"@,
                "The current platform backend does not implement this capability"@,
            ),
            capability@,
        ),
{
    label_message(
        text(
            language,
            "当前平台后端尚未实现此能力",
            "The current platform backend does not implement this capability",
        ),
        capability,
    )
}


/// The window's stage code and status text after the recording was paused or resumed.
pub fn pause_status(language: Language, paused: bool) -> (r: (i32, &'static str))
    ensures
        r.0 == stage_code(true, paused, false),
        r.1@ == if paused {
            pick(language, "录制已暂停"@, "Recording paused"@)
        } else {
            pick(language, "录制已继续"@, "Recording resumed"@)
        },
{
    if paused {
        (2, text(language, "录制已暂停", "Recording paused"))
    } else {
        (1, text(language, "录制已继续", "Recording resumed"))
    }
}

/// The name shown for a saved recording: its file name, or a generic word when the path
/// has none.
pub fn output_file_label(language: Language, file_name: Option<&str>) -> (r: String)
    ensures
        r@ == match file_name {
            Some(f) => f@,
            None => pick(language, "录制文件"@, "recording"@),
        },
{
    match file_name {
        Some(f) => f.to_owned(),
        None => text(language, "录制文件", "recording").to_owned(),
    }
}

} // verus!
