//! The timeline of one recording.
//!
//! The recording thread alternates outside work (reading commands, capturing a frame,
//! mixing audio, sleeping) with decisions. The decisions live here as a state machine:
//! the thread hands it each command and each clock reading, and it answers with what to
//! capture and write next. Times are nanoseconds on the recording clock.
use vstd::prelude::*;
use crate::i18n::{Language, pick, text};
use crate::recorder::config::OutputFormat;
use crate::recorder::domain::{AudioSourceKind, RecordingTarget};
use crate::text::{label_message, labelled};

verus! {

/// The number of audio frames mixed and written at a time.
pub const AUDIO_CHUNK_FRAMES: u64 = 1024;

/// Nanoseconds in a second.
pub const NANOS_PER_SECOND: u64 = 1_000_000_000;

/// How often progress is reported while recording.
pub const PROGRESS_INTERVAL_NANOS: u64 = 200_000_000;

/// How long the thread sleeps between iterations while paused.
pub const PAUSED_SLEEP_MILLIS: u64 = 8;

/// How long the thread sleeps between iterations while recording.
pub const ACTIVE_SLEEP_MILLIS: u64 = 2;

/// What to record and how.
#[derive(Clone, Debug)]
pub struct RecordingOptions {
    pub target: RecordingTarget,
    pub quality_preset: u8,
    pub frames_per_second: u32,
    pub output_format: OutputFormat,
    pub system_audio: bool,
    pub microphone: bool,
    pub show_cursor: bool,
    pub highlight_clicks: bool,
    pub save_directory: String,
}

/// A request sent to a running recording.
#[derive(Clone, Copy, Debug, PartialEq, Eq, Structural)]
pub enum Command {
    TogglePause,
    Stop,
    SystemAudio(bool),
    Microphone(bool),
    ShowCursor(bool),
    HighlightClicks(bool),
}

/// A report sent by a running recording.
#[derive(Clone, Debug)]
pub enum Event {
    Started {
        output_path: String,
        system_available: bool,
        microphone_available: bool,
        warnings: Vec<String>,
    },
    /// The active recording time so far, in nanoseconds.
    Progress(u64),
    Paused(bool),
    AudioRejected(AudioSourceKind, String),
    Completed {
        output_path: String,
        /// The active recording time, in nanoseconds.
        duration_nanos: u64,
    },
    Failed(String),
}

/// What the audio capture reports once it is set up.
#[derive(Clone, Debug)]
pub struct AudioStatus {
    pub system_available: bool,
    pub microphone_available: bool,
    pub has_any_source: bool,
    pub system_error: Option<String>,
    pub microphone_error: Option<String>,
}

/// The reason text of an audio source: the capture's own error, or "unknown reason".
pub open spec fn reason_text(language: Language, error: Option<String>) -> Seq<char> {
    match error {
        Some(e) => e@,
        None => pick(language, "未知原因"@, "Unknown reason"@),
    }
}

/// The error that stops a recording before it starts, when an enabled audio source
/// is unavailable; the system source is checked first.
pub open spec fn audio_setup_error(
    language: Language,
    audio: AudioStatus,
    system_audio: bool,
    microphone: bool,
) -> Option<Seq<char>> {
    if system_audio && !audio.system_available {
        Some(
            labelled(
                pick(
                    language,
                    "系统声音已启用，但采集设备不可用"@,
                    "System audio is enabled, but the capture device is unavailable"@,
                ),
                reason_text(language, audio.system_error),
            ),
        )
    } else if microphone && !audio.microphone_available {
        Some(
            labelled(
                pick(
                    language,
                    "麦克风已启用，但采集设备不可用"@,
                    "The microphone is enabled, but the capture device is unavailable"@,
                ),
                reason_text(language, audio.microphone_error),
            ),
        )
    } else {
        None
    }
}

/// The warnings shown when a recording starts: one per unavailable audio source.
pub open spec fn audio_warnings(language: Language, audio: AudioStatus) -> Seq<Seq<char>> {
    let system: Seq<Seq<char>> = if !audio.system_available {
        seq![
            labelled(
                pick(language, "系统声音不可用"@, "System audio is unavailable"@),
                reason_text(language, audio.system_error),
            ),
        ]
    } else {
        Seq::empty()
    };
    let microphone: Seq<Seq<char>> = if !audio.microphone_available {
        seq![
            labelled(
                pick(language, "麦克风不可用"@, "The microphone is unavailable"@),
                reason_text(language, audio.microphone_error),
            ),
        ]
    } else {
        Seq::empty()
    };
    system + microphone
}

/// The state of a recording between two iterations of the recording thread.
pub struct RecordingSession {
    has_audio: bool,
    system_available: bool,
    microphone_available: bool,
    system_error: Option<String>,
    microphone_error: Option<String>,
    frames_per_second: u32,
    sample_rate: u32,
    active_nanos: u64,
    segment_start: Option<u64>,
    next_video_index: u64,
    audio_frame_index: u64,
    system_audio: bool,
    microphone: bool,
    show_cursor: bool,
    highlight_clicks: bool,
    paused: bool,
    stopping: bool,
    last_progress: u64,
    last_elapsed: u64,
}

/// What a recording that passed its audio checks starts with.
pub struct SessionStart {
    pub session: RecordingSession,
    pub warnings: Vec<String>,
    pub system_available: bool,
    pub microphone_available: bool,
    /// Whether the writer gets an audio track.
    pub include_audio: bool,
}

/// What the thread does in one iteration after the commands are handled.
#[derive(Clone, Copy, Debug, PartialEq, Eq, Structural)]
pub enum TickPlan {
    /// The recording is paused: drop queued audio and sleep.
    Paused,
    /// Capture and write the frame with index `video_frame`, if any; then mix and write
    /// `audio_chunks` chunks of `AUDIO_CHUNK_FRAMES` frames, the first starting at
    /// audio frame `audio_start`.
    Active { elapsed: u64, video_frame: Option<u64>, audio_start: u64, audio_chunks: u64 },
}

/// What a command asks the thread to do.
#[derive(Clone, Debug)]
pub enum Reaction {
    /// Nothing beyond the state change.
    Applied,
    /// Drop queued audio and report the new pause state.
    PauseChanged(bool),
    /// Leave the loop and finish the file.
    Stop,
    /// Report that the audio source could not be switched on.
    Rejected(AudioSourceKind, String),
}

/// A run of audio frames: where it starts on the audio timeline and how many frames it holds.
#[derive(Clone, Copy, Debug, PartialEq, Eq, Structural)]
pub struct AudioSpan {
    pub start: u64,
    pub frames: u64,
}

/// What is left to write when a recording stops.
#[derive(Clone, Copy, Debug, PartialEq, Eq, Structural)]
pub struct FinishPlan {
    /// The active recording time, in nanoseconds.
    pub duration: u64,
    /// The start frame and number of frames of the last, partial audio write, if any.
    pub audio_tail: Option<AudioSpan>,
}

/// `a - b`, floored at zero.
pub open spec fn nanos_since(a: u64, b: u64) -> int {
    if a > b {
        a - b
    } else {
        0
    }
}

/// `floor(elapsed × rate / 10⁹)`, saturated at `u64::MAX`: the number of frames at `rate`
/// per second that fit in `elapsed` nanoseconds.
pub open spec fn frames_in(elapsed: int, rate: int) -> int {
    let n = elapsed * rate / (NANOS_PER_SECOND as int);
    if n > u64::MAX {
        u64::MAX as int
    } else {
        n
    }
}

/// The rejection message of a source that cannot be switched on.
pub open spec fn rejection_text(
    language: Language,
    kind: AudioSourceKind,
    has_audio: bool,
    error: Option<String>,
) -> Seq<char> {
    match kind {
        AudioSourceKind::System => if !has_audio {
            pick(language, "GIF 格式不支持系统声音"@, "GIF output does not support system audio"@)
        } else {
            match error {
                Some(e) => e@,
                None => pick(
                    language,
                    "系统声音设备不可用"@,
                    "The system audio device is unavailable"@,
                ),
            }
        },
        AudioSourceKind::Microphone => if !has_audio {
            pick(
                language,
                "GIF 格式不支持麦克风"@,
                "GIF output does not support microphone audio"@,
            )
        } else {
            match error {
                Some(e) => e@,
                None => pick(language, "麦克风设备不可用"@, "The microphone device is unavailable"@),
            }
        },
    }
}

fn reason(language: Language, error: &Option<String>) -> (r: String)
    ensures
        r@ == reason_text(language, *error),
{
    match error {
        Some(e) => e.clone(),
        None => text(language, "未知原因", "Unknown reason").to_owned(),
    }
}

fn copy_error(error: &Option<String>) -> (r: Option<String>)
    ensures
        r == *error,
{
    match error {
        Some(e) => Some(e.clone()),
        None => None,
    }
}

/// `floor(elapsed × rate / 10⁹)`, saturated at `u64::MAX`.
pub fn frames_elapsed(elapsed: u64, rate: u32) -> (r: u64)
    ensures
        r as int == frames_in(elapsed as int, rate as int),
{
    proof {
        assert((elapsed as int) * (rate as int) <= u64::MAX * u32::MAX) by (nonlinear_arith)
            requires
                elapsed <= u64::MAX,
                rate <= u32::MAX,
        ;
    }
    let n: u128 = (elapsed as u128) * (rate as u128) / (NANOS_PER_SECOND as u128);
    if n > u64::MAX as u128 {
        u64::MAX
    } else {
        n as u64
    }
}

impl RecordingSession {
    /// Whether the session is well formed: a segment is running exactly when the
    /// recording is not paused.
    pub closed spec fn wf(&self) -> bool {
        self.paused <==> self.segment_start is None
    }

    pub closed spec fn is_paused(&self) -> bool {
        self.paused
    }

    pub closed spec fn is_stopping(&self) -> bool {
        self.stopping
    }

    pub closed spec fn with_audio(&self) -> bool {
        self.has_audio
    }

    /// Whether the system audio source was available when the recording started.
    pub closed spec fn system_ready(&self) -> bool {
        self.system_available
    }

    /// Whether the microphone was available when the recording started.
    pub closed spec fn microphone_ready(&self) -> bool {
        self.microphone_available
    }

    /// The error that the audio capture reported for the system source.
    pub closed spec fn system_reason(&self) -> Option<String> {
        self.system_error
    }

    /// The error that the audio capture reported for the microphone.
    pub closed spec fn microphone_reason(&self) -> Option<String> {
        self.microphone_error
    }

    /// The active time of the finished segments, in nanoseconds.
    pub closed spec fn active(&self) -> int {
        self.active_nanos as int
    }

    /// When the running segment started, if one is running.
    pub closed spec fn segment(&self) -> Option<u64> {
        self.segment_start
    }

    /// The index of the next video frame to write.
    pub closed spec fn next_frame(&self) -> int {
        self.next_video_index as int
    }

    /// The audio frame that the next audio write starts at.
    pub closed spec fn audio_written(&self) -> int {
        self.audio_frame_index as int
    }

    pub closed spec fn fps(&self) -> int {
        self.frames_per_second as int
    }

    pub closed spec fn rate(&self) -> int {
        self.sample_rate as int
    }

    pub closed spec fn system_on(&self) -> bool {
        self.system_audio
    }

    pub closed spec fn microphone_on(&self) -> bool {
        self.microphone
    }

    pub closed spec fn cursor_on(&self) -> bool {
        self.show_cursor
    }

    pub closed spec fn clicks_on(&self) -> bool {
        self.highlight_clicks
    }

    pub closed spec fn progress_at(&self) -> int {
        self.last_progress as int
    }

    pub closed spec fn elapsed_seen(&self) -> int {
        self.last_elapsed as int
    }

    /// The active time at clock reading `now`: the finished segments plus the running one.
    pub open spec fn elapsed_at(&self, now: u64) -> int {
        self.active() + match self.segment() {
            Some(start) => nanos_since(now, start),
            None => 0,
        }
    }

    /// Checks the enabled audio sources and starts the timeline at clock reading `now`.
    /// Without an audio capture (GIF output) there is nothing to check. An enabled source
    /// that is unavailable is an error; every unavailable source is a warning.
    pub fn begin(
        language: Language,
        audio: Option<AudioStatus>,
        options_system_audio: bool,
        options_microphone: bool,
        show_cursor: bool,
        highlight_clicks: bool,
        frames_per_second: u32,
        sample_rate: u32,
        now: u64,
    ) -> (r: Result<SessionStart, String>)
        ensures
            match audio {
                Some(a) => match audio_setup_error(
                    language,
                    a,
                    options_system_audio,
                    options_microphone,
                ) {
                    Some(message) => r is Err && r->Err_0@ == message,
                    None => r is Ok && r->Ok_0.warnings@.map_values(|w: String| w@)
                        == audio_warnings(language, a) && r->Ok_0.system_available
                        == a.system_available && r->Ok_0.microphone_available
                        == a.microphone_available && r->Ok_0.include_audio == a.has_any_source,
                },
                None => r is Ok && r->Ok_0.warnings@.len() == 0 && !r->Ok_0.system_available
                    && !r->Ok_0.microphone_available && !r->Ok_0.include_audio,
            },
            r is Ok ==> {
                let s = r->Ok_0.session;
                &&& s.wf()
                &&& !s.is_paused()
                &&& !s.is_stopping()
                &&& s.with_audio() == audio is Some
                &&& s.active() == 0
                &&& s.segment() == Some(now)
                &&& s.next_frame() == 0
                &&& s.audio_written() == 0
                &&& s.fps() == frames_per_second
                &&& s.rate() == sample_rate
                &&& s.system_on() == options_system_audio
                &&& s.microphone_on() == options_microphone
                &&& s.cursor_on() == show_cursor
                &&& s.clicks_on() == highlight_clicks
                &&& s.progress_at() == now
            },
    {
        let mut warnings: Vec<String> = Vec::new();
        let (has_audio, system_available, microphone_available, include_audio, system_error, microphone_error) = match &audio {
            Some(a) => {
                if options_system_audio && !a.system_available {
                    let head = text(
                        language,
                        "系统声音已启用，但采集设备不可用",
                        "System audio is enabled, but the capture device is unavailable",
                    );
                    let why = reason(language, &a.system_error);
                    return Err(label_message(head, why.as_str()));
                }
                if options_microphone && !a.microphone_available {
                    let head = text(
                        language,
                        "麦克风已启用，但采集设备不可用",
                        "The microphone is enabled, but the capture device is unavailable",
                    );
                    let why = reason(language, &a.microphone_error);
                    return Err(label_message(head, why.as_str()));
                }
                if !a.system_available {
                    let head = text(language, "系统声音不可用", "System audio is unavailable");
                    let why = reason(language, &a.system_error);
                    warnings.push(label_message(head, why.as_str()));
                }
                if !a.microphone_available {
                    let head = text(language, "麦克风不可用", "The microphone is unavailable");
                    let why = reason(language, &a.microphone_error);
                    warnings.push(label_message(head, why.as_str()));
                }
                proof {
                    assert(warnings@.map_values(|w: String| w@) =~= audio_warnings(language, *a));
                }
                (
                    true,
                    a.system_available,
                    a.microphone_available,
                    a.has_any_source,
                    copy_error(&a.system_error),
                    copy_error(&a.microphone_error),
                )
            },
            None => (false, false, false, false, None, None),
        };
        let session = RecordingSession {
            has_audio,
            system_available,
            microphone_available,
            system_error,
            microphone_error,
            frames_per_second,
            sample_rate,
            active_nanos: 0,
            segment_start: Some(now),
            next_video_index: 0,
            audio_frame_index: 0,
            system_audio: options_system_audio,
            microphone: options_microphone,
            show_cursor,
            highlight_clicks,
            paused: false,
            stopping: false,
            last_progress: now,
            last_elapsed: 0,
        };
        Ok(SessionStart { session, warnings, system_available, microphone_available, include_audio })
    }

    /// Whether the recording is paused.
    pub fn paused(&self) -> (r: bool)
        ensures
            r == self.is_paused(),
    {
        self.paused
    }

    /// Whether a stop was requested.
    pub fn stopping(&self) -> (r: bool)
        ensures
            r == self.is_stopping(),
    {
        self.stopping
    }

    /// Whether system audio is mixed into the recording.
    pub fn system_audio(&self) -> (r: bool)
        ensures
            r == self.system_on(),
    {
        self.system_audio
    }

    /// Whether the microphone is mixed into the recording.
    pub fn microphone(&self) -> (r: bool)
        ensures
            r == self.microphone_on(),
    {
        self.microphone
    }

    /// Whether the cursor is drawn into captured frames.
    pub fn show_cursor(&self) -> (r: bool)
        ensures
            r == self.cursor_on(),
    {
        self.show_cursor
    }

    /// Whether clicks are highlighted in captured frames.
    pub fn highlight_clicks(&self) -> (r: bool)
        ensures
            r == self.clicks_on(),
    {
        self.highlight_clicks
    }

    /// Whether a command can be applied at clock reading `now`: the active time so far and
    /// the reading add up within the clock's range.
    pub fn can_apply_at(&self, now: u64) -> (r: bool)
        ensures
            r == (self.active() + now <= u64::MAX),
    {
        self.active_nanos as u128 + now as u128 <= u64::MAX as u128
    }

    /// Whether the recording can be finished at clock reading `now`: the active time stays
    /// within the clock's range.
    pub fn can_finish_at(&self, now: u64) -> (r: bool)
        ensures
            r == (self.elapsed_at(now) <= u64::MAX),
    {
        let running: u64 = match self.segment_start {
            Some(start) => if now > start { now - start } else { 0 },
            None => 0,
        };
        self.active_nanos as u128 + running as u128 <= u64::MAX as u128
    }

    /// Whether a tick can be planned at clock reading `now`: the active time, the next
    /// video frame and the frames due all stay within the clock's range.
    pub fn can_plan_tick_at(&self, now: u64) -> (r: bool)
        ensures
            r == (self.elapsed_at(now) <= u64::MAX && self.next_frame() < u64::MAX && frames_in(
                self.elapsed_at(now),
                self.fps(),
            ) < u64::MAX),
    {
        let running: u64 = match self.segment_start {
            Some(start) => if now > start { now - start } else { 0 },
            None => 0,
        };
        let elapsed: u128 = self.active_nanos as u128 + running as u128;
        if elapsed > u64::MAX as u128 || self.next_video_index == u64::MAX {
            return false;
        }
        frames_elapsed(elapsed as u64, self.frames_per_second) < u64::MAX
    }

    /// Applies one command received at clock reading `now`.
    ///
    /// Pausing closes the running segment and adds it to the active time; resuming opens
    /// a new segment at `now`. Switching an audio source on is refused when there is no
    /// audio capture or the source is unavailable; switching it off always succeeds.
    pub fn apply(&mut self, language: Language, command: Command, now: u64) -> (r: Reaction)
        requires
            old(self).wf(),
            old(self).active() + now <= u64::MAX,
        ensures
            applied(*old(self), *final(self), language, command, r, now),
    {
        match command {
            Command::TogglePause => {
                self.paused = !self.paused;
                if self.paused {
                    let start = self.segment_start.unwrap();
                    let span = if now > start { now - start } else { 0 };
                    self.active_nanos = self.active_nanos + span;
                    self.segment_start = None;
                } else {
                    self.segment_start = Some(now);
                }
                Reaction::PauseChanged(self.paused)
            },
            Command::Stop => {
                self.stopping = true;
                Reaction::Stop
            },
            Command::SystemAudio(enabled) => {
                if !self.has_audio {
                    if enabled {
                        let message = text(
                            language,
                            "GIF 格式不支持系统声音",
                            "GIF output does not support system audio",
                        ).to_owned();
                        return Reaction::Rejected(AudioSourceKind::System, message);
                    }
                    return Reaction::Applied;
                }
                if enabled && !self.system_available {
                    let message = match &self.system_error {
                        Some(e) => e.clone(),
                        None => text(
                            language,
                            "系统声音设备不可用",
                            "The system audio device is unavailable",
                        ).to_owned(),
                    };
                    Reaction::Rejected(AudioSourceKind::System, message)
                } else {
                    self.system_audio = enabled;
                    Reaction::Applied
                }
            },
            Command::Microphone(enabled) => {
                if !self.has_audio {
                    if enabled {
                        let message = text(
                            language,
                            "GIF 格式不支持麦克风",
                            "GIF output does not support microphone audio",
                        ).to_owned();
                        return Reaction::Rejected(AudioSourceKind::Microphone, message);
                    }
                    return Reaction::Applied;
                }
                if enabled && !self.microphone_available {
                    let message = match &self.microphone_error {
                        Some(e) => e.clone(),
                        None => text(
                            language,
                            "麦克风设备不可用",
                            "The microphone device is unavailable",
                        ).to_owned(),
                    };
                    Reaction::Rejected(AudioSourceKind::Microphone, message)
                } else {
                    self.microphone = enabled;
                    Reaction::Applied
                }
            },
            Command::ShowCursor(enabled) => {
                self.show_cursor = enabled;
                Reaction::Applied
            },
            Command::HighlightClicks(enabled) => {
                self.highlight_clicks = enabled;
                Reaction::Applied
            },
        }
    }

    /// Plans one iteration of a running (not stopping) recording at clock reading `now`.
    ///
    /// While paused nothing is captured. Otherwise the next video frame is captured when
    /// its index is due at the elapsed active time; when the timeline has fallen more
    /// than two frames behind, it jumps to the frame that is due. Audio is written in whole
    /// chunks up to the audio frames that are due.
    pub fn plan_tick(&mut self, now: u64) -> (r: TickPlan)
        requires
            old(self).wf(),
            old(self).elapsed_at(now) <= u64::MAX,
            old(self).next_frame() < u64::MAX,
            frames_in(old(self).elapsed_at(now), old(self).fps()) < u64::MAX,
        ensures
            ticked(*old(self), *final(self), r, now),
    {
        if self.paused {
            return TickPlan::Paused;
        }
        let start = self.segment_start.unwrap();
        let running = if now > start { now - start } else { 0 };
        let elapsed = self.active_nanos + running;
        self.last_elapsed = elapsed;
        let due = frames_elapsed(elapsed, self.frames_per_second);
        let mut video_frame: Option<u64> = None;
        if self.next_video_index <= due {
            if due as u128 > self.next_video_index as u128 + 2 {
                self.next_video_index = due;
            }
            video_frame = Some(self.next_video_index);
            self.next_video_index = self.next_video_index + 1;
        }
        let audio_start = self.audio_frame_index;
        let mut audio_chunks: u64 = 0;
        if self.has_audio {
            let audio_due = frames_elapsed(elapsed, self.sample_rate);
            if audio_due >= AUDIO_CHUNK_FRAMES && self.audio_frame_index <= audio_due
                - AUDIO_CHUNK_FRAMES {
                audio_chunks = (audio_due - self.audio_frame_index) / AUDIO_CHUNK_FRAMES;
                proof {
                    assert(audio_chunks * AUDIO_CHUNK_FRAMES <= audio_due - self.audio_frame_index)
                        by (nonlinear_arith)
                        requires
                            audio_chunks == (audio_due - self.audio_frame_index)
                                / (AUDIO_CHUNK_FRAMES as int),
                            audio_due >= self.audio_frame_index,
                    ;
                }
                self.audio_frame_index = self.audio_frame_index + audio_chunks * AUDIO_CHUNK_FRAMES;
            }
        }
        TickPlan::Active { elapsed, video_frame, audio_start, audio_chunks }
    }

    /// Whether progress is due at clock reading `now` (200 ms after the last report);
    /// when it is, the elapsed time of the last tick is reported.
    pub fn progress(&mut self, now: u64) -> (r: Option<u64>)
        requires
            old(self).wf(),
        ensures
            final(self).wf(),
            final(self).is_paused() == old(self).is_paused(),
            final(self).is_stopping() == old(self).is_stopping(),
            final(self).with_audio() == old(self).with_audio(),
            final(self).active() == old(self).active(),
            final(self).segment() == old(self).segment(),
            final(self).next_frame() == old(self).next_frame(),
            final(self).audio_written() == old(self).audio_written(),
            final(self).fps() == old(self).fps(),
            final(self).rate() == old(self).rate(),
            final(self).system_on() == old(self).system_on(),
            final(self).microphone_on() == old(self).microphone_on(),
            final(self).cursor_on() == old(self).cursor_on(),
            final(self).clicks_on() == old(self).clicks_on(),
            final(self).elapsed_seen() == old(self).elapsed_seen(),
            r == if nanos_since(now, old(self).progress_at() as u64) >= PROGRESS_INTERVAL_NANOS {
                Some(old(self).elapsed_seen() as u64)
            } else {
                None::<u64>
            },
            final(self).progress_at() == if r is Some {
                now as int
            } else {
                old(self).progress_at()
            },
    {
        let since = if now > self.last_progress { now - self.last_progress } else { 0 };
        if since >= PROGRESS_INTERVAL_NANOS {
            self.last_progress = now;
            Some(self.last_elapsed)
        } else {
            None
        }
    }

    /// Closes the running segment at clock reading `now` and plans the last audio write:
    /// the audio frames due at the total active time that are not written yet.
    pub fn finish(&mut self, now: u64) -> (r: FinishPlan)
        requires
            old(self).wf(),
            old(self).elapsed_at(now) <= u64::MAX,
        ensures
            finished(*old(self), *final(self), r, now),
    {
        if let Some(start) = self.segment_start {
            let span = if now > start { now - start } else { 0 };
            self.active_nanos = self.active_nanos + span;
            self.segment_start = None;
        }
        self.paused = true;
        let mut audio_tail: Option<AudioSpan> = None;
        if self.has_audio {
            let expected = frames_elapsed(self.active_nanos, self.sample_rate);
            if self.audio_frame_index < expected {
                audio_tail = Some(
                    AudioSpan { start: self.audio_frame_index, frames: expected - self.audio_frame_index },
                );
                self.audio_frame_index = expected;
            }
        }
        FinishPlan { duration: self.active_nanos, audio_tail }
    }
}

/// What applying `command` at clock reading `now` does to a session: `before` becomes
/// `after`, and `reaction` is what the thread is asked to do.
pub open spec fn applied(
    before: RecordingSession,
    after: RecordingSession,
    language: Language,
    command: Command,
    reaction: Reaction,
    now: u64,
) -> bool {
    &&& after.wf()
    &&& after.fps() == before.fps()
    &&& after.rate() == before.rate()
    &&& after.with_audio() == before.with_audio()
    &&& after.next_frame() == before.next_frame()
    &&& after.audio_written() == before.audio_written()
    &&& after.progress_at() == before.progress_at()
    &&& after.elapsed_seen() == before.elapsed_seen()
    &&& match command {
            Command::TogglePause => {
                &&& after.is_paused() == !before.is_paused()
                &&& reaction matches Reaction::PauseChanged(p) && p == after.is_paused()
                &&& after.is_stopping() == before.is_stopping()
                &&& if before.is_paused() {
                    after.active() == before.active() && after.segment()
                        == Some(now)
                } else {
                    after.active() == before.elapsed_at(now) && after.segment() is None
                }
                &&& after.system_on() == before.system_on()
                &&& after.microphone_on() == before.microphone_on()
                &&& after.cursor_on() == before.cursor_on()
                &&& after.clicks_on() == before.clicks_on()
            },
            Command::Stop => {
                &&& reaction is Stop
                &&& after.is_stopping()
                &&& after.is_paused() == before.is_paused()
                &&& after.active() == before.active()
                &&& after.segment() == before.segment()
                &&& after.system_on() == before.system_on()
                &&& after.microphone_on() == before.microphone_on()
                &&& after.cursor_on() == before.cursor_on()
                &&& after.clicks_on() == before.clicks_on()
            },
            Command::SystemAudio(enabled) => {
                let refused = enabled && (!before.with_audio()
                    || !before.system_ready());
                &&& after.system_on() == if refused {
                    before.system_on()
                } else if before.with_audio() {
                    enabled
                } else {
                    before.system_on()
                }
                &&& refused ==> (reaction matches Reaction::Rejected(k, m) && k
                    == AudioSourceKind::System && m@ == rejection_text(
                    language,
                    AudioSourceKind::System,
                    before.with_audio(),
                    before.system_reason(),
                ))
                &&& !refused ==> reaction is Applied
                &&& after.is_paused() == before.is_paused()
                &&& after.is_stopping() == before.is_stopping()
                &&& after.active() == before.active()
                &&& after.segment() == before.segment()
                &&& after.microphone_on() == before.microphone_on()
                &&& after.cursor_on() == before.cursor_on()
                &&& after.clicks_on() == before.clicks_on()
            },
            Command::Microphone(enabled) => {
                let refused = enabled && (!before.with_audio()
                    || !before.microphone_ready());
                &&& after.microphone_on() == if refused {
                    before.microphone_on()
                } else if before.with_audio() {
                    enabled
                } else {
                    before.microphone_on()
                }
                &&& refused ==> (reaction matches Reaction::Rejected(k, m) && k
                    == AudioSourceKind::Microphone && m@ == rejection_text(
                    language,
                    AudioSourceKind::Microphone,
                    before.with_audio(),
                    before.microphone_reason(),
                ))
                &&& !refused ==> reaction is Applied
                &&& after.is_paused() == before.is_paused()
                &&& after.is_stopping() == before.is_stopping()
                &&& after.active() == before.active()
                &&& after.segment() == before.segment()
                &&& after.system_on() == before.system_on()
                &&& after.cursor_on() == before.cursor_on()
                &&& after.clicks_on() == before.clicks_on()
            },
            Command::ShowCursor(enabled) => {
                &&& reaction is Applied
                &&& after.cursor_on() == enabled
                &&& after.is_paused() == before.is_paused()
                &&& after.is_stopping() == before.is_stopping()
                &&& after.active() == before.active()
                &&& after.segment() == before.segment()
                &&& after.system_on() == before.system_on()
                &&& after.microphone_on() == before.microphone_on()
                &&& after.clicks_on() == before.clicks_on()
            },
            Command::HighlightClicks(enabled) => {
                &&& reaction is Applied
                &&& after.clicks_on() == enabled
                &&& after.is_paused() == before.is_paused()
                &&& after.is_stopping() == before.is_stopping()
                &&& after.active() == before.active()
                &&& after.segment() == before.segment()
                &&& after.system_on() == before.system_on()
                &&& after.microphone_on() == before.microphone_on()
                &&& after.cursor_on() == before.cursor_on()
            },
        }
}

/// What a tick at clock reading `now` does to a session: `before` becomes `after`, and
/// `plan` is what the thread captures and mixes.
pub open spec fn ticked(before: RecordingSession, after: RecordingSession, plan: TickPlan, now: u64) -> bool {
    &&& after.wf()
    &&& after.is_paused() == before.is_paused()
    &&& after.is_stopping() == before.is_stopping()
    &&& after.with_audio() == before.with_audio()
    &&& after.active() == before.active()
    &&& after.segment() == before.segment()
    &&& after.fps() == before.fps()
    &&& after.rate() == before.rate()
    &&& after.system_on() == before.system_on()
    &&& after.microphone_on() == before.microphone_on()
    &&& after.cursor_on() == before.cursor_on()
    &&& after.clicks_on() == before.clicks_on()
    &&& after.progress_at() == before.progress_at()
    &&& before.is_paused() ==> plan is Paused && after.next_frame() == before.next_frame() && after.audio_written() == before.audio_written()
            && after.elapsed_seen() == before.elapsed_seen()
    &&& !before.is_paused() ==> {
            let elapsed = before.elapsed_at(now);
            let due = frames_in(elapsed, before.fps());
            let next = before.next_frame();
            let audio_due = frames_in(elapsed, before.rate());
            let audio_at = before.audio_written();
            let chunks = if before.with_audio() && audio_at + AUDIO_CHUNK_FRAMES
                <= audio_due {
                (audio_due - audio_at) / (AUDIO_CHUNK_FRAMES as int)
            } else {
                0
            };
            let planned = planned_frame(next, due);
            &&& (plan matches TickPlan::Active { elapsed: e, video_frame, audio_start, audio_chunks }
                && e == elapsed && audio_start == audio_at && audio_chunks == chunks
                && video_frame == planned)
            &&& after.next_frame() == next_after_tick(next, due)
            &&& after.audio_written() == audio_at + chunks * AUDIO_CHUNK_FRAMES
            &&& after.elapsed_seen() == elapsed
        }
}

/// What finishing at clock reading `now` does to a session: `before` becomes `after`, and
/// `plan` says how long the recording ran and which audio is left to write.
pub open spec fn finished(before: RecordingSession, after: RecordingSession, plan: FinishPlan, now: u64) -> bool {
    &&& after.segment() is None
    &&& after.active() == before.elapsed_at(now)
    &&& after.next_frame() == before.next_frame()
    &&& plan.duration == before.elapsed_at(now)
    &&& plan.audio_tail == if before.with_audio() && before.audio_written() < frames_in(
        before.elapsed_at(now),
        before.rate(),
    ) {
        Some(
            AudioSpan {
                start: before.audio_written() as u64,
                frames: (frames_in(before.elapsed_at(now), before.rate()) - before.audio_written()) as u64,
            },
        )
    } else {
        None::<AudioSpan>
    }
    &&& after.audio_written() == match plan.audio_tail {
        Some(span) => span.start + span.frames,
        None => before.audio_written(),
    }
}

/// The video frame a tick captures when the next index is `next` and frames up to `due`
/// are due: none when the next frame is not due yet, else the next frame, or the due frame
/// when the timeline has fallen more than two frames behind.
pub open spec fn planned_frame(next: int, due: int) -> Option<u64> {
    if next <= due {
        Some((if due > next + 2 { due } else { next }) as u64)
    } else {
        None
    }
}

/// The next video index after a tick.
pub open spec fn next_after_tick(next: int, due: int) -> int {
    match planned_frame(next, due) {
        Some(i) => i + 1,
        None => next,
    }
}

/// Video frames never go back and never run ahead: a tick captures no frame below the
/// next index and none that is not due yet, and of two successive ticks that both capture
/// a frame, the second captures a later one, so the frames written have strictly
/// increasing indices.
pub proof fn lemma_video_frames_increase(next: int, due: int, later_due: int)
    requires
        0 <= next <= u64::MAX,
        due <= u64::MAX,
        later_due <= u64::MAX,
    ensures
        planned_frame(next, due) matches Some(a) ==> a >= next && a <= due && next_after_tick(next, due) == a + 1,
        planned_frame(next, due) matches Some(a) ==> (planned_frame(
            next_after_tick(next, due),
            later_due,
        ) matches Some(b) ==> a < b),
{
}

/// The audio written by successive ticks and by the finish is one contiguous timeline:
/// each write starts where the previous one ended, so after any number of writes the
/// frames written are exactly those below the current audio index.
pub open spec fn contiguous(writes: Seq<(int, int)>, start: int, end: int) -> bool
    decreases writes.len(),
{
    if writes.len() == 0 {
        start == end
    } else {
        writes[0].0 == start && contiguous(writes.drop_first(), start + writes[0].1, end)
    }
}

/// Appending a write that starts where the timeline ends keeps it contiguous, up to the
/// end of the new write.
pub proof fn lemma_audio_timeline_extends(writes: Seq<(int, int)>, end: int, frames: int)
    requires
        contiguous(writes, 0, end),
    ensures
        contiguous(writes.push((end, frames)), 0, end + frames),
    decreases writes.len(),
{
    lemma_contiguous_push(writes, 0, end, frames);
}

proof fn lemma_contiguous_push(writes: Seq<(int, int)>, start: int, end: int, frames: int)
    requires
        contiguous(writes, start, end),
    ensures
        contiguous(writes.push((end, frames)), start, end + frames),
    decreases writes.len(),
{
    if writes.len() == 0 {
        assert(writes.push((end, frames)).drop_first() =~= Seq::<(int, int)>::empty());
        reveal_with_fuel(contiguous, 2);
    } else {
        lemma_contiguous_push(writes.drop_first(), start + writes[0].1, end, frames);
        assert(writes.push((end, frames)).drop_first() =~= writes.drop_first().push((end, frames)));
    }
}

/// Whether the audio written so far stays within the audio due by clock reading `now`.
pub open spec fn keeps_pace(session: RecordingSession, now: u64) -> bool {
    session.audio_written() <= frames_in(session.elapsed_at(now), session.rate())
}

proof fn lemma_frames_in_monotone(a: int, b: int, rate: int)
    requires
        0 <= a <= b,
        0 <= rate,
    ensures
        frames_in(a, rate) <= frames_in(b, rate),
{
    assert(a * rate <= b * rate) by (nonlinear_arith)
        requires
            0 <= a <= b,
            0 <= rate,
    ;
    vstd::arithmetic::div_mod::lemma_div_is_ordered(a * rate, b * rate, NANOS_PER_SECOND as int);
}

/// A recording starts in pace with its clock: nothing has been written yet.
pub proof fn lemma_recording_starts_in_pace(session: RecordingSession, now: u64)
    requires
        session.audio_written() == 0,
    ensures
        keeps_pace(session, now),
{
    assert(session.elapsed_at(now) >= 0);
    lemma_frames_in_monotone(0, session.elapsed_at(now), session.rate());
}

/// The active time never shrinks as the clock moves on, so audio in pace with one clock
/// reading is in pace with every later one.
pub proof fn lemma_pace_holds_at_later_readings(session: RecordingSession, now: u64, later: u64)
    requires
        now <= later,
        keeps_pace(session, now),
    ensures
        session.elapsed_at(now) <= session.elapsed_at(later),
        keeps_pace(session, later),
{
    assert(session.elapsed_at(now) >= 0);
    lemma_frames_in_monotone(session.elapsed_at(now), session.elapsed_at(later), session.rate());
}

/// Commands keep the audio in pace: pausing closes the running segment into the active
/// time and resuming opens a new one at the same reading, so the active time at that
/// reading stays what it was, and no command writes audio.
pub proof fn lemma_commands_keep_pace(
    before: RecordingSession,
    after: RecordingSession,
    language: Language,
    command: Command,
    reaction: Reaction,
    now: u64,
)
    requires
        before.wf(),
        keeps_pace(before, now),
        applied(before, after, language, command, reaction, now),
    ensures
        after.elapsed_at(now) == before.elapsed_at(now),
        keeps_pace(after, now),
{
}

/// A tick keeps the audio in pace: it mixes whole chunks only up to the audio due at its
/// clock reading.
pub proof fn lemma_tick_keeps_pace(before: RecordingSession, after: RecordingSession, plan: TickPlan, now: u64)
    requires
        before.wf(),
        keeps_pace(before, now),
        ticked(before, after, plan, now),
    ensures
        keeps_pace(after, now),
{
    if !before.is_paused() && before.with_audio() {
        let audio_due = frames_in(before.elapsed_at(now), before.rate());
        let at = before.audio_written();
        if at + AUDIO_CHUNK_FRAMES <= audio_due {
            let chunks = (audio_due - at) / (AUDIO_CHUNK_FRAMES as int);
            assert(chunks * AUDIO_CHUNK_FRAMES <= audio_due - at) by (nonlinear_arith)
                requires
                    chunks == (audio_due - at) / 1024,
                    audio_due - at >= 0,
            ;
        }
    }
}

/// The audio track covers the active time exactly: finishing a recording whose audio is
/// in pace writes the frames still missing, so the audio timeline then ends at the audio
/// due for the whole active time, which the plan reports as the recording's duration.
pub proof fn lemma_finish_covers_active_time(
    before: RecordingSession,
    after: RecordingSession,
    plan: FinishPlan,
    now: u64,
)
    requires
        before.wf(),
        keeps_pace(before, now),
        finished(before, after, plan, now),
    ensures
        plan.duration == before.elapsed_at(now),
        before.with_audio() ==> after.audio_written() == frames_in(plan.duration as int, before.rate()),
{
}


/// One step of a running recording: a command applied, or a tick.
pub enum SessionStep {
    Command(Language, Command, Reaction),
    Tick(TickPlan),
}

/// What a step at clock reading `now` does to a session.
pub open spec fn session_step(before: RecordingSession, after: RecordingSession, step: SessionStep, now: u64) -> bool {
    match step {
        SessionStep::Command(language, command, reaction) => applied(before, after, language, command, reaction, now),
        SessionStep::Tick(plan) => ticked(before, after, plan, now),
    }
}

/// A run of a recording: `states[i]` becomes `states[i + 1]` by `steps[i]`, taken at clock
/// reading `clock[i]`, and the clock never goes back.
pub open spec fn session_run(states: Seq<RecordingSession>, steps: Seq<SessionStep>, clock: Seq<u64>) -> bool {
    &&& states.len() == steps.len() + 1
    &&& clock.len() == steps.len()
    &&& forall|i: int| 0 <= i < steps.len() ==> session_step(states[i], states[i + 1], #[trigger] steps[i], clock[i])
    &&& forall|i: int, j: int| 0 <= i <= j < clock.len() ==> clock[i] <= clock[j]
}

/// The video frame a step captures, if any.
pub open spec fn captured_frame(step: SessionStep) -> Option<u64> {
    match step {
        SessionStep::Tick(TickPlan::Active { video_frame, .. }) => video_frame,
        _ => None,
    }
}

/// The audio writes of a run's steps, in order: the start frame and number of frames of
/// each tick that writes whole chunks.
pub open spec fn audio_writes(steps: Seq<SessionStep>) -> Seq<(int, int)>
    decreases steps.len(),
{
    if steps.len() == 0 {
        Seq::empty()
    } else {
        let earlier = audio_writes(steps.drop_last());
        match steps.last() {
            SessionStep::Tick(TickPlan::Active { audio_start, audio_chunks, .. }) => if audio_chunks > 0 {
                earlier.push((audio_start as int, audio_chunks * AUDIO_CHUNK_FRAMES))
            } else {
                earlier
            },
            _ => earlier,
        }
    }
}

/// Along a run the next video index never goes back.
proof fn lemma_run_next_frame_grows(states: Seq<RecordingSession>, steps: Seq<SessionStep>, clock: Seq<u64>, i: int, j: int)
    requires
        session_run(states, steps, clock),
        0 <= i <= j < states.len(),
    ensures
        states[i].next_frame() <= states[j].next_frame(),
    decreases j - i,
{
    if i < j {
        lemma_run_next_frame_grows(states, steps, clock, i, j - 1);
        assert(session_step(states[j - 1], states[j], steps[j - 1], clock[j - 1]));
    }
}

/// Over a whole run the frames written have strictly increasing indices: of two steps
/// that capture a frame, the later one captures a later frame.
pub proof fn lemma_run_video_frames_increase(
    states: Seq<RecordingSession>,
    steps: Seq<SessionStep>,
    clock: Seq<u64>,
    i: int,
    j: int,
)
    requires
        session_run(states, steps, clock),
        0 <= i < j < steps.len(),
        captured_frame(steps[i]) is Some,
        captured_frame(steps[j]) is Some,
    ensures
        captured_frame(steps[i])->0 < captured_frame(steps[j])->0,
{
    assert(session_step(states[i], states[i + 1], steps[i], clock[i]));
    assert(session_step(states[j], states[j + 1], steps[j], clock[j]));
    lemma_run_next_frame_grows(states, steps, clock, i + 1, j);
}

/// Along a run that starts with no audio written and in step with its first reading, the
/// audio writes form one contiguous timeline from frame 0 to the frames written so far,
/// and the audio never runs ahead of the active time.
pub proof fn lemma_run_audio_contiguous(states: Seq<RecordingSession>, steps: Seq<SessionStep>, clock: Seq<u64>, k: int)
    requires
        session_run(states, steps, clock),
        states[0].wf(),
        states[0].audio_written() == 0,
        0 <= k <= steps.len(),
    ensures
        contiguous(audio_writes(steps.take(k)), 0, states[k].audio_written()),
        states[k].wf(),
        k > 0 ==> keeps_pace(states[k], clock[k - 1]),
    decreases k,
{
    if k == 0 {
        assert(steps.take(0) =~= Seq::<SessionStep>::empty());
    } else {
        lemma_run_audio_contiguous(states, steps, clock, k - 1);
        let before = states[k - 1];
        let after = states[k];
        let now = clock[k - 1];
        assert(session_step(before, after, steps[k - 1], now));
        if k - 1 == 0 {
            lemma_recording_starts_in_pace(before, now);
        } else {
            assert(clock[k - 2] <= clock[k - 1]);
            lemma_pace_holds_at_later_readings(before, clock[k - 2], now);
        }
        assert(steps.take(k).drop_last() =~= steps.take(k - 1));
        assert(steps.take(k).last() == steps[k - 1]);
        match steps[k - 1] {
            SessionStep::Command(language, command, reaction) => {
                lemma_commands_keep_pace(before, after, language, command, reaction, now);
            },
            SessionStep::Tick(plan) => {
                lemma_tick_keeps_pace(before, after, plan, now);
                if let TickPlan::Active { audio_start, audio_chunks, .. } = plan {
                    if audio_chunks > 0 {
                        lemma_audio_timeline_extends(
                            audio_writes(steps.take(k - 1)),
                            before.audio_written(),
                            audio_chunks * AUDIO_CHUNK_FRAMES,
                        );
                    }
                }
            },
        }
    }
}

/// A recording that starts with no audio written and finishes at a reading no earlier
/// than its last step writes audio covering exactly its active time: the writes of its
/// ticks and the last, partial write form one contiguous timeline from frame 0 to the
/// audio frames of the recording's duration.
pub proof fn lemma_run_audio_covers_recording(
    states: Seq<RecordingSession>,
    steps: Seq<SessionStep>,
    clock: Seq<u64>,
    after: RecordingSession,
    plan: FinishPlan,
    now: u64,
)
    requires
        session_run(states, steps, clock),
        states[0].wf(),
        states[0].audio_written() == 0,
        states[0].with_audio(),
        steps.len() > 0 ==> clock[steps.len() - 1] <= now,
        finished(states[steps.len() as int], after, plan, now),
    ensures
        contiguous(
            match plan.audio_tail {
                Some(span) => audio_writes(steps).push((span.start as int, span.frames as int)),
                None => audio_writes(steps),
            },
            0,
            frames_in(plan.duration as int, states[0].rate()),
        ),
{
    let n = steps.len() as int;
    lemma_run_audio_contiguous(states, steps, clock, n);
    assert(steps.take(n) =~= steps);
    let last = states[n];
    if n == 0 {
        lemma_recording_starts_in_pace(last, now);
    } else {
        lemma_pace_holds_at_later_readings(last, clock[n - 1], now);
    }
    lemma_run_keeps_rate(states, steps, clock, n);
    lemma_finish_covers_active_time(last, after, plan, now);
    if let Some(span) = plan.audio_tail {
        lemma_audio_timeline_extends(audio_writes(steps), last.audio_written(), span.frames as int);
    }
}

/// Along a run the audio rate and whether there is audio stay as they were.
proof fn lemma_run_keeps_rate(states: Seq<RecordingSession>, steps: Seq<SessionStep>, clock: Seq<u64>, k: int)
    requires
        session_run(states, steps, clock),
        0 <= k < states.len(),
    ensures
        states[k].rate() == states[0].rate(),
        states[k].with_audio() == states[0].with_audio(),
    decreases k,
{
    if k > 0 {
        lemma_run_keeps_rate(states, steps, clock, k - 1);
        assert(session_step(states[k - 1], states[k], steps[k - 1], clock[k - 1]));
    }
}

} // verus!
