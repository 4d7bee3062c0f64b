//! Geometry and recording targets of the screen recorder.
use vstd::prelude::*;
use crate::i18n::{Language, pick, text};
use crate::scale::{fit_size, fit_within};
use crate::text::{signed_decimal, signed_decimal_chars, decimal_chars, string_of, extend_chars, chars_of};

verus! {

/// The smallest width and height that can be recorded.
pub const MIN_RECORDING_EDGE: i32 = 16;

/// `x` clamped to the range of `i32`, which is what `i32::saturating_add` and
/// `i32::saturating_sub` return for the exact result `x`.
pub open spec fn saturate(x: int) -> int {
    if x > i32::MAX {
        i32::MAX as int
    } else if x < i32::MIN {
        i32::MIN as int
    } else {
        x
    }
}

/// `a + b`, saturated at the bounds of `i32`.
pub fn saturating_add(a: i32, b: i32) -> (r: i32)
    ensures
        r == saturate(a + b),
{
    let wide = a as i64 + b as i64;
    if wide > i32::MAX as i64 {
        i32::MAX
    } else if wide < i32::MIN as i64 {
        i32::MIN
    } else {
        wide as i32
    }
}

/// `a - b`, saturated at the bounds of `i32`.
pub fn saturating_sub(a: i32, b: i32) -> (r: i32)
    ensures
        r == saturate(a - b),
{
    let wide = a as i64 - b as i64;
    if wide > i32::MAX as i64 {
        i32::MAX
    } else if wide < i32::MIN as i64 {
        i32::MIN
    } else {
        wide as i32
    }
}

/// A rectangle on the desktop, in physical pixels.
#[derive(Clone, Copy, Debug, PartialEq, Eq, Structural)]
pub struct Bounds {
    pub left: i32,
    pub top: i32,
    pub width: i32,
    pub height: i32,
}

/// Why a rectangle cannot be recorded.
#[derive(Clone, Copy, Debug, PartialEq, Eq, Structural)]
pub enum BoundsError {
    /// The rectangle is smaller than 16 × 16 pixels.
    TooSmall,
}

impl BoundsError {
    /// The message shown for this error.
    pub fn message(self, language: Language) -> (r: &'static str)
        ensures
            r@ == pick(
                language,
                "录制区域至少需要 16 × 16 像素"@,
                "The recording region must be at least 16 × 16 pixels"@,
            ),
    {
        text(
            language,
            "录制区域至少需要 16 × 16 像素",
            "The recording region must be at least 16 × 16 pixels",
        )
    }
}

impl Bounds {
    /// Whether the rectangle is large enough to record.
    pub open spec fn is_recordable(self) -> bool {
        self.width >= MIN_RECORDING_EDGE && self.height >= MIN_RECORDING_EDGE
    }

    /// Whether the point lies inside the rectangle, with the right and bottom edges
    /// computed with saturating arithmetic.
    pub open spec fn holds(self, x: int, y: int) -> bool {
        &&& x >= self.left
        &&& y >= self.top
        &&& x < saturate(self.left + self.width)
        &&& y < saturate(self.top + self.height)
    }

    /// The rectangle itself when it is at least 16 × 16 pixels.
    pub fn validate(self) -> (r: Result<Self, BoundsError>)
        ensures
            r == if self.is_recordable() {
                Ok::<Bounds, BoundsError>(self)
            } else {
                Err(BoundsError::TooSmall)
            },
    {
        if self.width < MIN_RECORDING_EDGE || self.height < MIN_RECORDING_EDGE {
            return Err(BoundsError::TooSmall);
        }
        Ok(self)
    }

    /// Whether the point `(x, y)` lies inside the rectangle.
    pub fn contains(self, x: i32, y: i32) -> (r: bool)
        ensures
            r == self.holds(x as int, y as int),
    {
        x >= self.left && y >= self.top && x < saturating_add(self.left, self.width) && y
            < saturating_add(self.top, self.height)
    }
}

/// Whether `value` lies entirely inside `container`, edges computed with saturating arithmetic.
pub open spec fn encloses(container: Bounds, value: Bounds) -> bool {
    &&& value.left >= container.left
    &&& value.top >= container.top
    &&& saturate(value.left + value.width) <= saturate(container.left + container.width)
    &&& saturate(value.top + value.height) <= saturate(container.top + container.height)
}

/// Whether `value` lies entirely inside `container`.
pub fn contains_bounds(container: Bounds, value: Bounds) -> (r: bool)
    ensures
        r == encloses(container, value),
{
    value.left >= container.left && value.top >= container.top && saturating_add(
        value.left,
        value.width,
    ) <= saturating_add(container.left, container.width) && saturating_add(value.top, value.height)
        <= saturating_add(container.top, container.height)
}

/// An opaque identifier of a platform window.
#[derive(Clone, Copy, Debug, PartialEq, Eq, Hash, Structural)]
pub struct WindowId {
    value: u64,
}

impl WindowId {
    /// The platform value that the identifier holds.
    pub closed spec fn raw(self) -> u64 {
        self.value
    }

    /// Wraps a platform window value.
    pub fn from_platform_value(value: u64) -> (r: Self)
        ensures
            r.raw() == value,
    {
        WindowId { value }
    }

    /// The platform window value.
    pub fn platform_value(self) -> (r: u64)
        ensures
            r == self.raw(),
    {
        self.value
    }
}

/// Two identifiers are equal exactly when they wrap the same platform value.
pub proof fn lemma_window_id_identity(a: WindowId, b: WindowId)
    ensures
        (a == b) <==> (a.raw() == b.raw()),
{
}

/// What a recording captures.
#[derive(Clone, Copy, Debug, PartialEq, Eq, Structural)]
pub enum RecordingTarget {
    Screen(Bounds),
    Window { id: WindowId, initial_bounds: Bounds },
    Region(Bounds),
}

/// The rectangle that a target covers when it is chosen.
pub open spec fn target_bounds(target: RecordingTarget) -> Bounds {
    match target {
        RecordingTarget::Screen(bounds) => bounds,
        RecordingTarget::Region(bounds) => bounds,
        RecordingTarget::Window { initial_bounds, .. } => initial_bounds,
    }
}

impl RecordingTarget {
    /// The rectangle that the target covers when it is chosen.
    pub fn initial_bounds(self) -> (r: Bounds)
        ensures
            r == target_bounds(self),
    {
        match self {
            Self::Screen(bounds) | Self::Region(bounds) => bounds,
            Self::Window { initial_bounds, .. } => initial_bounds,
        }
    }
}

/// A display that can be recorded.
#[derive(Clone, Copy, Debug, PartialEq, Eq, Structural)]
pub struct MonitorCandidate {
    pub bounds: Bounds,
    pub primary: bool,
}

/// The displays offered for recording, in the order they are shown.
pub struct MonitorCandidates {
    values: Vec<MonitorCandidate>,
}

/// The position of the first primary display, or the number of displays when none is primary.
pub open spec fn primary_position(values: Seq<MonitorCandidate>) -> int
    decreases values.len(),
{
    if values.len() == 0 {
        0
    } else if values[0].primary {
        0
    } else {
        1 + primary_position(values.drop_first())
    }
}

/// The index of the first primary display, or 0 when none is primary.
pub open spec fn first_primary(values: Seq<MonitorCandidate>) -> int {
    if primary_position(values) < values.len() {
        primary_position(values)
    } else {
        0
    }
}

/// The label of the display at `index`: its number, size and whether it is the primary one.
pub open spec fn monitor_label(language: Language, index: int, monitor: MonitorCandidate) -> Seq<
    char,
> {
    pick(language, "显示器"@, "Display"@) + seq![' '] + signed_decimal(index + 1) + " · "@
        + signed_decimal(monitor.bounds.width as int) + " × "@ + signed_decimal(
        monitor.bounds.height as int,
    ) + if monitor.primary {
        pick(language, "（主显示器）"@, " (primary)"@)
    } else {
        Seq::empty()
    }
}

impl MonitorCandidates {
    /// The displays, in order.
    pub closed spec fn items(&self) -> Seq<MonitorCandidate> {
        self.values@
    }

    /// Keeps the displays in the given order.
    pub fn new(values: Vec<MonitorCandidate>) -> (r: Self)
        ensures
            r.items() == values@,
    {
        MonitorCandidates { values }
    }

    /// The display at `index`, if there is one.
    pub fn get(&self, index: usize) -> (r: Option<MonitorCandidate>)
        ensures
            r == if index < self.items().len() {
                Some(self.items()[index as int])
            } else {
                None::<MonitorCandidate>
            },
    {
        if index < self.values.len() {
            Some(self.values[index])
        } else {
            None
        }
    }

    /// The index of the first primary display, or 0 when no display is primary.
    pub fn primary_index(&self) -> (r: usize)
        ensures
            r == first_primary(self.items()),
    {
        let mut i: usize = 0;
        assert(self.values@.skip(0) =~= self.values@);
        while i < self.values.len()
            invariant
                i <= self.values@.len(),
                primary_position(self.values@) == i + primary_position(self.values@.skip(i as int)),
            decreases self.values.len() - i,
        {
            if self.values[i].primary {
                return i;
            }
            assert(self.values@.skip(i as int).drop_first() =~= self.values@.skip(i + 1));
            i = i + 1;
        }
        0
    }

    /// The index of the first display whose rectangle is `bounds`.
    pub fn index_of(&self, bounds: Bounds) -> (r: Option<usize>)
        ensures
            match r {
                Some(i) => i < self.items().len() && self.items()[i as int].bounds == bounds
                    && forall|k: int| 0 <= k < i ==> self.items()[k].bounds != bounds,
                None => forall|k: int|
                    0 <= k < self.items().len() ==> self.items()[k].bounds != bounds,
            },
    {
        let mut i: usize = 0;
        while i < self.values.len()
            invariant
                i <= self.values@.len(),
                forall|k: int| 0 <= k < i ==> self.values@[k].bounds != bounds,
            decreases self.values.len() - i,
        {
            if self.values[i].bounds == bounds {
                return Some(i);
            }
            i = i + 1;
        }
        None
    }

    /// One label per display, numbered from 1.
    pub fn labels(&self, language: Language) -> (r: Vec<String>)
        ensures
            r@.len() == self.items().len(),
            forall|i: int|
                0 <= i < r@.len() ==> #[trigger] r@[i]@ == monitor_label(
                    language,
                    i,
                    self.items()[i],
                ),
    {
        let mut r: Vec<String> = Vec::new();
        let mut i: usize = 0;
        while i < self.values.len()
            invariant
                i <= self.values@.len(),
                r@.len() == i,
                forall|k: int|
                    0 <= k < i ==> #[trigger] r@[k]@ == monitor_label(
                        language,
                        k,
                        self.values@[k],
                    ),
            decreases self.values.len() - i,
        {
            let monitor = self.values[i];
            let ghost expected = monitor_label(language, i as int, monitor);
            let mut line = chars_of(text(language, "显示器", "Display"));
            line.push(' ');
            let ghost part1 = line@;
            let number = decimal_chars((i + 1) as u64);
            assert(signed_decimal(i + 1) == number@);
            extend_chars(&mut line, &number);
            extend_chars(&mut line, &chars_of(" · "));
            extend_chars(&mut line, &signed_decimal_chars(monitor.bounds.width as i64));
            extend_chars(&mut line, &chars_of(" × "));
            extend_chars(&mut line, &signed_decimal_chars(monitor.bounds.height as i64));
            let ghost base = line@;
            assert(base =~= pick(language, "显示器"@, "Display"@) + seq![' '] + signed_decimal(i + 1)
                + " · "@ + signed_decimal(monitor.bounds.width as int) + " × "@ + signed_decimal(
                monitor.bounds.height as int,
            ));
            if monitor.primary {
                extend_chars(&mut line, &chars_of(text(language, "（主显示器）", " (primary)")));
            } else {
                assert(line@ =~= line@ + Seq::<char>::empty());
            }
            let label = string_of(&line);
            proof {
                assert(label@ =~= expected);
            }
            r.push(label);
            i = i + 1;
        }
        r
    }
}

/// A window that can be recorded, with its rectangle clipped to the desktop.
#[derive(Debug, PartialEq, Eq)]
pub struct WindowCandidate {
    pub id: WindowId,
    pub bounds: Bounds,
    pub title: String,
}

impl Clone for WindowCandidate {
    fn clone(&self) -> (r: Self)
        ensures
            r == *self,
    {
        WindowCandidate { id: self.id, bounds: self.bounds, title: self.title.clone() }
    }
}

/// The windows offered for recording, front-most first.
pub struct WindowCandidates {
    values: Vec<WindowCandidate>,
}

impl WindowCandidates {
    /// The windows, front-most first.
    pub closed spec fn items(&self) -> Seq<WindowCandidate> {
        self.values@
    }

    /// Keeps the windows in the given order.
    pub fn new(values: Vec<WindowCandidate>) -> (r: Self)
        ensures
            r.items() == values@,
    {
        WindowCandidates { values }
    }

    /// The front-most window that contains the point `(x, y)`.
    pub fn target_at(&self, x: i32, y: i32) -> (r: Option<WindowCandidate>)
        ensures
            match r {
                Some(c) => exists|i: int|
                    0 <= i < self.items().len() && self.items()[i] == c && c.bounds.holds(
                        x as int,
                        y as int,
                    ) && forall|k: int|
                        0 <= k < i ==> !self.items()[k].bounds.holds(x as int, y as int),
                None => forall|k: int|
                    0 <= k < self.items().len() ==> !self.items()[k].bounds.holds(
                        x as int,
                        y as int,
                    ),
            },
    {
        let mut i: usize = 0;
        while i < self.values.len()
            invariant
                i <= self.values@.len(),
                forall|k: int|
                    0 <= k < i ==> !self.values@[k].bounds.holds(x as int, y as int),
            decreases self.values.len() - i,
        {
            if self.values[i].bounds.contains(x, y) {
                let c = self.values[i].clone();
                assert(0 <= i < self.items().len() && self.items()[i as int] == c
                    && c.bounds.holds(x as int, y as int) && forall|k: int|
                    0 <= k < i ==> !self.items()[k].bounds.holds(x as int, y as int));
                return Some(c);
            }
            i = i + 1;
        }
        None
    }

    /// Drops every window with the identifier `id`, keeping the order of the others.
    pub fn exclude(&mut self, id: WindowId)
        ensures
            final(self).items() == old(self).items().filter(|c: WindowCandidate| c.id != id),
    {
        let mut kept: Vec<WindowCandidate> = Vec::new();
        let ghost all = self.values@;
        let n = self.values.len();
        let mut i: usize = 0;
        proof {
            assert(all.take(0) =~= Seq::<WindowCandidate>::empty());
        }
        while i < n
            invariant
                n == all.len(),
                i <= n,
                self.values@ == all,
                kept@ == all.take(i as int).filter(|c: WindowCandidate| c.id != id),
            decreases n - i,
        {
            let candidate = self.values[i].clone();
            proof {
                assert(all.take(i + 1).drop_last() =~= all.take(i as int));
                reveal_with_fuel(Seq::filter, 1);
            }
            if candidate.id != id {
                kept.push(candidate);
            }
            i = i + 1;
        }
        proof {
            assert(all.take(n as int) =~= all);
        }
        self.values = kept;
    }
}

/// The largest output size of each quality preset: 1 is 720p, 0 and 2 are 1080p, and
/// any other preset keeps the source size.
pub open spec fn preset_limit(quality_preset: u8) -> Option<(nat, nat)> {
    if quality_preset == 1 {
        Some((1280nat, 720nat))
    } else if quality_preset == 0 || quality_preset == 2 {
        Some((1920nat, 1080nat))
    } else {
        None
    }
}

/// `n` rounded down to an even number.
pub open spec fn even_floor(n: nat) -> nat {
    (n - n % 2) as nat
}

/// The size that a recording of `source` is encoded at: the source (at least 16 × 16)
/// scaled down to the preset's limit with its aspect ratio kept, then each side made at
/// least 16 and even.
pub open spec fn output_dimensions(source: Bounds, quality_preset: u8) -> (nat, nat) {
    let sw: nat = if source.width < 16 { 16 } else { source.width as nat };
    let sh: nat = if source.height < 16 { 16 } else { source.height as nat };
    let scaled = match preset_limit(quality_preset) {
        Some(limit) => fit_size(sw, sh, limit.0, limit.1),
        None => (sw, sh),
    };
    (
        even_floor(if scaled.0 < 16 { 16 } else { scaled.0 }),
        even_floor(if scaled.1 < 16 { 16 } else { scaled.1 }),
    )
}

/// The encoded size of a recording of `source` at the quality preset.
pub fn output_size(source: Bounds, quality_preset: u8) -> (r: (u32, u32))
    ensures
        (r.0 as nat, r.1 as nat) == output_dimensions(source, quality_preset),
        r.0 % 2 == 0 && r.1 % 2 == 0,
        r.0 >= 16 && r.1 >= 16,
{
    let source_width: u32 = if source.width < 16 { 16 } else { source.width as u32 };
    let source_height: u32 = if source.height < 16 { 16 } else { source.height as u32 };
    let (width, height) = if quality_preset == 1 {
        fit_within(source_width, source_height, 1280, 720)
    } else if quality_preset == 0 || quality_preset == 2 {
        fit_within(source_width, source_height, 1920, 1080)
    } else {
        (source_width, source_height)
    };
    let width = if width < 16 { 16 } else { width };
    let height = if height < 16 { 16 } else { height };
    (width - width % 2, height - height % 2)
}

/// Which audio source a message is about.
#[derive(Clone, Copy, Debug, PartialEq, Eq, Structural)]
pub enum AudioSourceKind {
    System,
    Microphone,
}

} // verus!
