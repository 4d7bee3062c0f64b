//! State shared between the Android shell and the native side of ShiPing:
//! the screen-capture permission state and the recording status, both
//! exchanged as small integer codes.
use vstd::prelude::*;

verus! {

/// Where the system screen-capture permission request stands.
#[derive(Clone, Copy, Debug, PartialEq, Eq, Structural)]
pub enum PermissionState {
    Idle,
    Requested,
    Granted,
    Denied,
    Error,
}

/// The code of each permission state.
pub open spec fn permission_code(state: PermissionState) -> u8 {
    match state {
        PermissionState::Idle => 0,
        PermissionState::Requested => 1,
        PermissionState::Granted => 2,
        PermissionState::Denied => 3,
        PermissionState::Error => 4,
    }
}

/// The permission state of a code; unknown codes read as `Idle`.
pub open spec fn permission_from_code(value: u8) -> PermissionState {
    if value == 1 {
        PermissionState::Requested
    } else if value == 2 {
        PermissionState::Granted
    } else if value == 3 {
        PermissionState::Denied
    } else if value == 4 {
        PermissionState::Error
    } else {
        PermissionState::Idle
    }
}

/// The user-facing description of each permission state.
pub open spec fn permission_message(state: PermissionState) -> Seq<char> {
    match state {
        PermissionState::Idle => "尚未申请系统录屏权限"@,
        PermissionState::Requested => "正在等待系统录屏授权"@,
        PermissionState::Granted => "系统录屏权限已授权"@,
        PermissionState::Denied => "系统录屏权限被拒绝"@,
        PermissionState::Error => "无法启动系统录屏授权"@,
    }
}

impl Default for PermissionState {
    fn default() -> (r: Self)
        ensures
            r == PermissionState::Idle,
    {
        PermissionState::Idle
    }
}

impl PermissionState {
    /// The message shown for this state.
    pub fn message(self) -> (r: &'static str)
        ensures
            r@ == permission_message(self),
    {
        match self {
            Self::Idle => "尚未申请系统录屏权限",
            Self::Requested => "正在等待系统录屏授权",
            Self::Granted => "系统录屏权限已授权",
            Self::Denied => "系统录屏权限被拒绝",
            Self::Error => "无法启动系统录屏授权",
        }
    }

    /// The code that stands for this state across the JNI boundary.
    pub fn code(self) -> (r: u8)
        ensures
            r == permission_code(self),
    {
        match self {
            Self::Idle => 0,
            Self::Requested => 1,
            Self::Granted => 2,
            Self::Denied => 3,
            Self::Error => 4,
        }
    }

    /// The state of a code; unknown codes read as `Idle`.
    pub fn from_code(value: u8) -> (r: Self)
        ensures
            r == permission_from_code(value),
    {
        match value {
            1 => Self::Requested,
            2 => Self::Granted,
            3 => Self::Denied,
            4 => Self::Error,
            _ => Self::Idle,
        }
    }
}

/// Decoding the code of a permission state gives the state back.
pub proof fn lemma_permission_code_round_trip(state: PermissionState)
    ensures
        permission_from_code(permission_code(state)) == state,
{
}

/// A code decodes to a state whose code is the code itself when it is known, and to `Idle` otherwise.
pub proof fn lemma_permission_code_decodes(value: u8)
    ensures
        value <= 4 ==> permission_code(permission_from_code(value)) == value,
        value > 4 ==> permission_from_code(value) == PermissionState::Idle,
{
}

/// The stages of one Android recording.
#[derive(Clone, Copy, Debug, PartialEq, Eq, Structural)]
pub enum RecordingState {
    Idle,
    Authorizing,
    Recording,
    Finalizing,
    Completed,
    Failed,
}

/// The code of each recording state.
pub open spec fn state_code(state: RecordingState) -> u8 {
    match state {
        RecordingState::Idle => 0,
        RecordingState::Authorizing => 1,
        RecordingState::Recording => 2,
        RecordingState::Finalizing => 3,
        RecordingState::Completed => 4,
        RecordingState::Failed => 5,
    }
}

/// The recording state of a code; unknown codes read as `Idle`.
pub open spec fn state_from_code(value: u8) -> RecordingState {
    if value == 1 {
        RecordingState::Authorizing
    } else if value == 2 {
        RecordingState::Recording
    } else if value == 3 {
        RecordingState::Finalizing
    } else if value == 4 {
        RecordingState::Completed
    } else if value == 5 {
        RecordingState::Failed
    } else {
        RecordingState::Idle
    }
}

impl Default for RecordingState {
    fn default() -> (r: Self)
        ensures
            r == RecordingState::Idle,
    {
        RecordingState::Idle
    }
}

impl RecordingState {
    /// The code that stands for this state across the JNI boundary.
    pub fn code(self) -> (r: u8)
        ensures
            r == state_code(self),
    {
        match self {
            Self::Idle => 0,
            Self::Authorizing => 1,
            Self::Recording => 2,
            Self::Finalizing => 3,
            Self::Completed => 4,
            Self::Failed => 5,
        }
    }

    /// The state of a code; unknown codes read as `Idle`.
    pub fn from_code(value: u8) -> (r: Self)
        ensures
            r == state_from_code(value),
    {
        match value {
            1 => Self::Authorizing,
            2 => Self::Recording,
            3 => Self::Finalizing,
            4 => Self::Completed,
            5 => Self::Failed,
            _ => Self::Idle,
        }
    }
}

/// Decoding the code of a recording state gives the state back.
pub proof fn lemma_state_code_round_trip(state: RecordingState)
    ensures
        state_from_code(state_code(state)) == state,
{
}

/// A code decodes to a state whose code is the code itself when it is known, and to `Idle` otherwise.
pub proof fn lemma_state_code_decodes(value: u8)
    ensures
        value <= 5 ==> state_code(state_from_code(value)) == value,
        value > 5 ==> state_from_code(value) == RecordingState::Idle,
{
}

/// A snapshot of the recording: its stage and how long it has run.
#[derive(Clone, Copy, Debug, PartialEq, Eq, Structural)]
pub struct RecordingStatus {
    pub state: RecordingState,
    pub elapsed_ms: u64,
}

impl Default for RecordingStatus {
    fn default() -> (r: Self)
        ensures
            r.state == RecordingState::Idle,
            r.elapsed_ms == 0,
    {
        RecordingStatus { state: RecordingState::Idle, elapsed_ms: 0 }
    }
}

/// The last status published by the Android shell, kept as the two codes it travels as.
#[derive(Clone, Copy, Debug)]
pub struct StatusBoard {
    state_code: u8,
    elapsed_ms: u64,
}

impl StatusBoard {
    /// The status that a board reports.
    pub closed spec fn status(self) -> RecordingStatus {
        RecordingStatus { state: state_from_code(self.state_code), elapsed_ms: self.elapsed_ms }
    }

    /// A board that reports an idle recording of no length.
    pub fn new() -> (r: Self)
        ensures
            r.status() == (RecordingStatus { state: RecordingState::Idle, elapsed_ms: 0 }),
    {
        StatusBoard { state_code: 0, elapsed_ms: 0 }
    }

    /// Publishes a new stage and elapsed time.
    pub fn update(&mut self, state: RecordingState, elapsed_ms: u64)
        ensures
            final(self).status() == (RecordingStatus { state, elapsed_ms }),
    {
        self.elapsed_ms = elapsed_ms;
        self.state_code = state.code();
    }

    /// The status last published.
    pub fn current(&self) -> (r: RecordingStatus)
        ensures
            r == self.status(),
    {
        RecordingStatus { state: RecordingState::from_code(self.state_code), elapsed_ms: self.elapsed_ms }
    }
}

/// The recording state that a state code sent from Java stands for: the code is first
/// clamped to the byte range.
pub fn state_from_java(value: i32) -> (r: RecordingState)
    ensures
        r == state_from_code(if value < 0 { 0 } else if value > 255 { 255 } else { value as u8 }),
{
    let clamped: i32 = if value < 0 { 0 } else if value > 255 { 255 } else { value };
    RecordingState::from_code(clamped as u8)
}

/// The elapsed time sent from Java, with negative values read as zero.
pub fn elapsed_from_java(value: i64) -> (r: u64)
    ensures
        r == if value < 0 { 0 } else { value as u64 },
{
    if value < 0 { 0 } else { value as u64 }
}

/// The elapsed time handed back to Java, saturated at the largest Java `long`.
pub fn elapsed_to_java(value: u64) -> (r: i64)
    ensures
        r == if value > i64::MAX as u64 { i64::MAX } else { value as i64 },
{
    if value > i64::MAX as u64 { i64::MAX } else { value as i64 }
}


/// The permission state last published by the Android shell, kept as its code.
#[derive(Clone, Copy, Debug)]
pub struct PermissionBoard {
    code: u8,
}

impl PermissionBoard {
    /// The state that a board reports.
    pub closed spec fn state(self) -> PermissionState {
        permission_from_code(self.code)
    }

    /// A board that reports that no permission was asked for yet.
    pub fn new() -> (r: Self)
        ensures
            r.state() == PermissionState::Idle,
    {
        PermissionBoard { code: 0 }
    }

    /// Publishes a new permission state.
    pub fn set(&mut self, state: PermissionState)
        ensures
            final(self).state() == state,
    {
        self.code = state.code();
        proof {
            lemma_permission_code_round_trip(state);
        }
    }

    /// The permission state last published.
    pub fn current(&self) -> (r: PermissionState)
        ensures
            r == self.state(),
    {
        PermissionState::from_code(self.code)
    }
}

} // verus!
