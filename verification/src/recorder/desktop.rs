//! What the Windows backend of the recorder decides from the desktop it enumerates: the
//! order displays are offered in, and which windows can be recorded.
use vstd::prelude::*;
use crate::i18n::{pick, Language};
use crate::recorder::domain::{
    Bounds, BoundsError, MonitorCandidate, MonitorCandidates, RecordingTarget, saturate,
    saturating_sub, MIN_RECORDING_EDGE,
};

verus! {

broadcast use vstd::seq_lib::group_seq_properties, vstd::seq_lib::to_multiset_build,
    vstd::seq_lib::to_multiset_insert;

/// A rectangle given by its edges, with width and height as saturated differences.
pub open spec fn rect_to_bounds(left: i32, top: i32, right: i32, bottom: i32) -> Bounds {
    Bounds {
        left,
        top,
        width: saturate(right - left) as i32,
        height: saturate(bottom - top) as i32,
    }
}

/// The bounds of a rectangle given by its edges.
pub fn bounds_from_edges(left: i32, top: i32, right: i32, bottom: i32) -> (r: Bounds)
    ensures
        r == rect_to_bounds(left, top, right, bottom),
{
    Bounds {
        left,
        top,
        width: saturating_sub(right, left),
        height: saturating_sub(bottom, top),
    }
}

/// Whether a display can be offered: it is at least 16 × 16 pixels.
pub open spec fn offered(m: MonitorCandidate) -> bool {
    m.bounds.is_recordable()
}

/// Whether display `a` is listed no later than `b`: primary displays first, then from top
/// to bottom, then from left to right.
pub open spec fn listed_before(a: MonitorCandidate, b: MonitorCandidate) -> bool {
    ||| a.primary && !b.primary
    ||| a.primary == b.primary && a.bounds.top < b.bounds.top
    ||| a.primary == b.primary && a.bounds.top == b.bounds.top && a.bounds.left <= b.bounds.left
}

/// Whether displays are in the order they are offered in.
pub open spec fn in_display_order(s: Seq<MonitorCandidate>) -> bool {
    forall|i: int, j: int| 0 <= i < j < s.len() ==> listed_before(#[trigger] s[i], #[trigger] s[j])
}

/// Why no display can be offered.
#[derive(Clone, Copy, Debug, PartialEq, Eq, Structural)]
pub enum MonitorError {
    NoRecordableDisplay,
}

impl MonitorError {
    /// The message shown for the error.
    pub fn message(self, language: Language) -> (r: &'static str)
        ensures
            r@ == pick(language, "未检测到可录制的显示器"@, "No recordable display was detected"@),
    {
        crate::i18n::text(language, "未检测到可录制的显示器", "No recordable display was detected")
    }
}

fn listed_before_exec(a: &MonitorCandidate, b: &MonitorCandidate) -> (r: bool)
    ensures
        r == listed_before(*a, *b),
{
    (a.primary && !b.primary) || (a.primary == b.primary && a.bounds.top < b.bounds.top) || (
    a.primary == b.primary && a.bounds.top == b.bounds.top && a.bounds.left <= b.bounds.left)
}

/// The displays that can be recorded, in the order they are offered: the displays of at
/// least 16 × 16 pixels, primary first, then by top and left edge, displays with equal
/// keys in the order they were found.
pub fn arrange_monitors(values: Vec<MonitorCandidate>) -> (r: Result<MonitorCandidates, MonitorError>)
    ensures
        match r {
            Ok(m) => m.items().len() > 0 && in_display_order(m.items()) && m.items().to_multiset()
                == values@.filter(|c: MonitorCandidate| offered(c)).to_multiset(),
            Err(_) => values@.filter(|c: MonitorCandidate| offered(c)).len() == 0,
        },
{
    let ghost keep = |c: MonitorCandidate| offered(c);
    let mut sorted: Vec<MonitorCandidate> = Vec::new();
    let mut i: usize = 0;
    assert(values@.take(0) =~= Seq::<MonitorCandidate>::empty());
    assert(values@.take(0).filter(keep) =~= Seq::<MonitorCandidate>::empty());
    while i < values.len()
        invariant
            i <= values@.len(),
            keep == (|c: MonitorCandidate| offered(c)),
            in_display_order(sorted@),
            sorted@.to_multiset() == values@.take(i as int).filter(keep).to_multiset(),
            sorted@.len() == values@.take(i as int).filter(keep).len(),
        decreases values.len() - i,
    {
        let candidate = values[i];
        assert(values@.take(i + 1) =~= values@.take(i as int).push(candidate));
        proof {
            values@.take(i as int).lemma_filter_push(candidate, keep);
            assert(keep(candidate) == offered(candidate));
        }
        if candidate.bounds.width >= MIN_RECORDING_EDGE && candidate.bounds.height >= MIN_RECORDING_EDGE {
            let mut p: usize = 0;
            while p < sorted.len() && listed_before_exec(&sorted[p], &candidate)
                invariant
                    p <= sorted@.len(),
                    forall|k: int| 0 <= k < p ==> listed_before(#[trigger] sorted@[k], candidate),
                decreases sorted.len() - p,
            {
                p = p + 1;
            }
            let ghost before = sorted@;
            sorted.insert(p, candidate);
            proof {
                assert(sorted@ == before.insert(p as int, candidate));
                vstd::seq_lib::to_multiset_insert(before, p as int, candidate);
                vstd::seq_lib::to_multiset_build(values@.take(i as int).filter(keep), candidate);
                assert forall|a: int, b: int| 0 <= a < b < sorted@.len() implies listed_before(
                    #[trigger] sorted@[a],
                    #[trigger] sorted@[b],
                ) by {
                    if b < p {
                        assert(listed_before(before[a], before[b]));
                    } else if b == p {
                        assert(listed_before(before[a], candidate));
                    } else if a == p {
                        if p < before.len() {
                            assert(!listed_before(before[p as int], candidate));
                            assert(listed_before(before[p as int], before[b - 1]) || p == b - 1);
                        }
                    } else if a < p {
                        assert(listed_before(before[a], before[b - 1]));
                    } else {
                        assert(listed_before(before[a - 1], before[b - 1]));
                    }
                }
            }
        }
        i = i + 1;
    }
    assert(values@.take(values@.len() as int) =~= values@);
    if sorted.len() == 0 {
        return Err(MonitorError::NoRecordableDisplay);
    }
    Ok(MonitorCandidates::new(sorted))
}

/// A rectangle given by its edges, as Windows reports window frames.
#[derive(Clone, Copy, Debug, PartialEq, Eq, Structural)]
pub struct Edges {
    pub left: i32,
    pub top: i32,
    pub right: i32,
    pub bottom: i32,
}

/// What Windows reports about a top-level window when recordable windows are listed.
#[derive(Clone, Copy, Debug, PartialEq, Eq, Structural)]
pub struct WindowReport {
    pub visible: bool,
    pub minimized: bool,
    /// The extended window style.
    pub extended_style: u32,
    /// The cloaked attribute, when the window manager reported it.
    pub cloaked: Option<u32>,
    /// The extended frame bounds, or else the window rectangle, as its edges, when either
    /// was reported.
    pub frame: Option<Edges>,
}

/// The extended style bit of windows that let clicks through.
pub const WS_EX_TRANSPARENT: u32 = 0x20;

/// The smallest width and height of a window that can be recorded.
pub const MIN_WINDOW_EDGE: i32 = 24;

/// The bounds of a shown window, when it is neither hidden nor minimised and reported a
/// frame.
pub open spec fn shown_window_bounds(report: WindowReport) -> Option<Bounds> {
    if !report.visible || report.minimized {
        None
    } else {
        match report.frame {
            None => None,
            Some(f) => Some(rect_to_bounds(f.left, f.top, f.right, f.bottom)),
        }
    }
}

/// The bounds of a shown window.
pub fn window_bounds(report: WindowReport) -> (r: Option<Bounds>)
    ensures
        r == shown_window_bounds(report),
{
    if !report.visible || report.minimized {
        return None;
    }
    match report.frame {
        None => None,
        Some(f) => Some(bounds_from_edges(f.left, f.top, f.right, f.bottom)),
    }
}

/// The part of a window inside the desktop, when it is at least 24 pixels wide and high.
pub open spec fn clip_to_desktop(bounds: Bounds, desktop: Bounds) -> Option<Bounds> {
    let left = if bounds.left >= desktop.left { bounds.left as int } else { desktop.left as int };
    let top = if bounds.top >= desktop.top { bounds.top as int } else { desktop.top as int };
    let right = if bounds.left + bounds.width <= desktop.left + desktop.width {
        bounds.left + bounds.width
    } else {
        desktop.left + desktop.width
    };
    let bottom = if bounds.top + bounds.height <= desktop.top + desktop.height {
        bounds.top + bounds.height
    } else {
        desktop.top + desktop.height
    };
    let width = saturate(right - left);
    let height = saturate(bottom - top);
    if width >= MIN_WINDOW_EDGE && height >= MIN_WINDOW_EDGE {
        Some(Bounds { left: left as i32, top: top as i32, width: width as i32, height: height as i32 })
    } else {
        None
    }
}

/// The recordable part of a window: none for click-through, cloaked, hidden or minimised
/// windows, else its bounds clipped to the desktop.
pub open spec fn recordable_window(report: WindowReport, desktop: Bounds) -> Option<Bounds> {
    if report.extended_style & WS_EX_TRANSPARENT != 0 {
        None
    } else if report.cloaked matches Some(c) && c != 0 {
        None
    } else {
        match shown_window_bounds(report) {
            None => None,
            Some(b) => clip_to_desktop(b, desktop),
        }
    }
}

/// The recordable part of a window on the desktop.
pub fn clipped_window_bounds(report: WindowReport, desktop: Bounds) -> (r: Option<Bounds>)
    requires
        i32::MIN <= desktop.left + desktop.width <= i32::MAX,
        i32::MIN <= desktop.top + desktop.height <= i32::MAX,
    ensures
        r == recordable_window(report, desktop),
{
    if report.extended_style & WS_EX_TRANSPARENT != 0 {
        return None;
    }
    match report.cloaked {
        Some(c) => if c != 0 {
            return None;
        },
        None => {},
    }
    let bounds = match window_bounds(report) {
        Some(b) => b,
        None => {
            return None;
        },
    };
    let left = if bounds.left >= desktop.left { bounds.left } else { desktop.left };
    let top = if bounds.top >= desktop.top { bounds.top } else { desktop.top };
    let window_right = bounds.left as i64 + bounds.width as i64;
    let window_bottom = bounds.top as i64 + bounds.height as i64;
    let desktop_right = desktop.left + desktop.width;
    let desktop_bottom = desktop.top + desktop.height;
    let right: i32 = if window_right <= desktop_right as i64 { window_right as i32 } else { desktop_right };
    let bottom: i32 = if window_bottom <= desktop_bottom as i64 { window_bottom as i32 } else { desktop_bottom };
    let width = saturating_sub(right, left);
    let height = saturating_sub(bottom, top);
    if width >= MIN_WINDOW_EDGE && height >= MIN_WINDOW_EDGE {
        Some(Bounds { left, top, width, height })
    } else {
        None
    }
}

/// Why the rectangle of a recording target cannot be followed.
#[derive(Clone, Copy, Debug, PartialEq, Eq, Structural)]
pub enum TrackingError {
    /// The recorded window was closed, hidden or minimised.
    WindowGone,
    /// The rectangle is smaller than 16 × 16 pixels.
    TooSmall,
}

impl TrackingError {
    /// The message shown for the error.
    pub fn message(self, language: Language) -> (r: &'static str)
        ensures
            r@ == match self {
                TrackingError::WindowGone => pick(
                    language,
                    "所选窗口已关闭、隐藏或最小化"@,
                    "The selected window was closed, hidden, or minimized"@,
                ),
                TrackingError::TooSmall => pick(
                    language,
                    "录制区域至少需要 16 × 16 像素"@,
                    "The recording region must be at least 16 × 16 pixels"@,
                ),
            },
    {
        match self {
            TrackingError::WindowGone => crate::i18n::text(
                language,
                "所选窗口已关闭、隐藏或最小化",
                "The selected window was closed, hidden, or minimized",
            ),
            TrackingError::TooSmall => BoundsError::TooSmall.message(language),
        }
    }
}

/// The rectangle a target covers now: a display or a region keeps its own, a window has
/// the recordable bounds it was last reported with, when it still has any; either must be
/// at least 16 × 16 pixels.
pub fn current_target_bounds(target: RecordingTarget, window: Option<Bounds>) -> (r: Result<Bounds, TrackingError>)
    ensures
        r == match target {
            RecordingTarget::Screen(b) | RecordingTarget::Region(b) => if b.is_recordable() {
                Ok::<Bounds, TrackingError>(b)
            } else {
                Err(TrackingError::TooSmall)
            },
            RecordingTarget::Window { .. } => match window {
                None => Err(TrackingError::WindowGone),
                Some(b) => if b.is_recordable() {
                    Ok(b)
                } else {
                    Err(TrackingError::TooSmall)
                },
            },
        },
{
    let bounds = match target {
        RecordingTarget::Screen(b) | RecordingTarget::Region(b) => b,
        RecordingTarget::Window { .. } => match window {
            None => {
                return Err(TrackingError::WindowGone);
            },
            Some(b) => b,
        },
    };
    match bounds.validate() {
        Ok(b) => Ok(b),
        Err(_) => Err(TrackingError::TooSmall),
    }
}

/// The rectangle of the primary display: the first display marked primary, else the
/// first display, else none.
pub fn primary_bounds(values: &Vec<MonitorCandidate>) -> (r: Option<Bounds>)
    ensures
        match r {
            Some(b) => exists|i: int|
                0 <= i < values@.len() && values@[i].bounds == b && (values@[i].primary
                    ==> forall|k: int| 0 <= k < i ==> !values@[k].primary) && (!values@[i].primary
                    ==> i == 0 && forall|k: int| 0 <= k < values@.len() ==> !values@[k].primary),
            None => values@.len() == 0,
        },
{
    let mut i: usize = 0;
    while i < values.len()
        invariant
            i <= values@.len(),
            forall|k: int| 0 <= k < i ==> !values@[k].primary,
        decreases values.len() - i,
    {
        if values[i].primary {
            return Some(values[i].bounds);
        }
        i = i + 1;
    }
    if values.len() > 0 {
        Some(values[0].bounds)
    } else {
        None
    }
}

} // verus!
