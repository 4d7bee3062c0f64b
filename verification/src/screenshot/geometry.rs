//! Desktop geometry of the screenshot tool: the windows under the cursor, the region a
//! capture may take, and where the tool's own windows are placed.
use vstd::prelude::*;
use crate::recorder::domain::{saturate, saturating_sub};
use crate::scale::{fit_size, fit_within};

verus! {

/// A rectangle of the virtual desktop, in physical pixels.
#[derive(Clone, Copy, Debug, PartialEq, Eq, Structural)]
pub struct DesktopBounds {
    pub left: i32,
    pub top: i32,
    pub width: i32,
    pub height: i32,
}

/// A rectangle given by its edges, as Windows reports window and monitor areas.
#[derive(Clone, Copy, Debug, PartialEq, Eq, Structural)]
pub struct ScreenRect {
    pub left: i32,
    pub top: i32,
    pub right: i32,
    pub bottom: i32,
}

/// Whether the right and bottom edges of `b` are within the range of `i32`.
pub open spec fn edges_fit(b: DesktopBounds) -> bool {
    i32::MIN <= b.left + b.width <= i32::MAX && i32::MIN <= b.top + b.height <= i32::MAX
}

/// Whether the point `(x, y)` lies in `b`; the right and bottom edges are outside.
pub open spec fn contains_point(b: DesktopBounds, x: int, y: int) -> bool {
    x >= b.left && y >= b.top && x < b.left + b.width && y < b.top + b.height
}

/// Whether the point `(x, y)` lies in `b`.
pub fn contains(bounds: DesktopBounds, x: i32, y: i32) -> (r: bool)
    ensures
        r == contains_point(bounds, x as int, y as int),
{
    let right = bounds.left as i64 + bounds.width as i64;
    let bottom = bounds.top as i64 + bounds.height as i64;
    x >= bounds.left && y >= bounds.top && (x as i64) < right && (y as i64) < bottom
}

/// The smallest width and height of a window that can be picked as a target.
pub const MIN_TARGET_EDGE: i32 = 24;

/// The part of a window rectangle inside the desktop, when it is at least 24 pixels wide and
/// high. Its width and height are the differences of the clipped edges, saturated to `i32`.
pub open spec fn clipped(rect: ScreenRect, desktop: DesktopBounds) -> Option<DesktopBounds> {
    let left = if rect.left >= desktop.left { rect.left as int } else { desktop.left as int };
    let top = if rect.top >= desktop.top { rect.top as int } else { desktop.top as int };
    let right = if rect.right <= desktop.left + desktop.width {
        rect.right as int
    } else {
        desktop.left + desktop.width
    };
    let bottom = if rect.bottom <= desktop.top + desktop.height {
        rect.bottom as int
    } else {
        desktop.top + desktop.height
    };
    let width = saturate(right - left);
    let height = saturate(bottom - top);
    if width >= MIN_TARGET_EDGE && height >= MIN_TARGET_EDGE {
        Some(
            DesktopBounds {
                left: left as i32,
                top: top as i32,
                width: width as i32,
                height: height as i32,
            },
        )
    } else {
        None
    }
}

/// The part of a window rectangle that can be picked as a target.
pub fn clipped_bounds(rect: ScreenRect, desktop: DesktopBounds) -> (r: Option<DesktopBounds>)
    requires
        edges_fit(desktop),
    ensures
        r == clipped(rect, desktop),
        r matches Some(b) ==> edges_fit(b),
{
    let left = if rect.left >= desktop.left { rect.left } else { desktop.left };
    let top = if rect.top >= desktop.top { rect.top } else { desktop.top };
    let desktop_right = desktop.left + desktop.width;
    let desktop_bottom = desktop.top + desktop.height;
    let right = if rect.right <= desktop_right { rect.right } else { desktop_right };
    let bottom = if rect.bottom <= desktop_bottom { rect.bottom } else { desktop_bottom };
    let width = saturating_sub(right, left);
    let height = saturating_sub(bottom, top);
    if width >= MIN_TARGET_EDGE && height >= MIN_TARGET_EDGE {
        Some(DesktopBounds { left, top, width, height })
    } else {
        None
    }
}

/// What Windows reports about a top-level window when the targets are listed.
#[derive(Clone, Copy, Debug, PartialEq, Eq, Structural)]
pub struct WindowFacts {
    pub visible: bool,
    pub minimized: bool,
    /// The extended window style.
    pub extended_style: u32,
    /// The cloaked attribute, when the window manager reported it.
    pub cloaked: Option<u32>,
    /// The extended frame bounds, or else the window rectangle, when either was reported.
    pub frame: Option<ScreenRect>,
}

/// The extended style bit of windows that let clicks through.
pub const WS_EX_TRANSPARENT: u32 = 0x20;

/// The target a window offers: none when it is hidden, minimised, click-through or cloaked,
/// or when no frame was reported; else its frame clipped to the desktop.
pub open spec fn window_target(facts: WindowFacts, desktop: DesktopBounds) -> Option<DesktopBounds> {
    if !facts.visible || facts.minimized {
        None
    } else if facts.extended_style & WS_EX_TRANSPARENT != 0 {
        None
    } else if facts.cloaked matches Some(c) && c != 0 {
        None
    } else {
        match facts.frame {
            None => None,
            Some(rect) => clipped(rect, desktop),
        }
    }
}

/// The target a window offers.
pub fn window_bounds(facts: WindowFacts, desktop: DesktopBounds) -> (r: Option<DesktopBounds>)
    requires
        edges_fit(desktop),
    ensures
        r == window_target(facts, desktop),
        r matches Some(b) ==> edges_fit(b),
{
    if !facts.visible || facts.minimized {
        return None;
    }
    if facts.extended_style & WS_EX_TRANSPARENT != 0 {
        return None;
    }
    match facts.cloaked {
        Some(c) => if c != 0 {
            return None;
        },
        None => {},
    }
    match facts.frame {
        None => None,
        Some(rect) => clipped_bounds(rect, desktop),
    }
}

/// Only a window that is shown offers a target: one that is hidden, minimised, lets clicks
/// through, or is cloaked (present on another virtual desktop, say) offers none, whatever its
/// frame; a shown window with a frame offers that frame clipped to the desktop.
pub proof fn lemma_only_shown_windows_are_targets(facts: WindowFacts, desktop: DesktopBounds)
    ensures
        !facts.visible ==> window_target(facts, desktop) is None,
        facts.minimized ==> window_target(facts, desktop) is None,
        facts.extended_style & WS_EX_TRANSPARENT != 0 ==> window_target(facts, desktop) is None,
        (facts.cloaked matches Some(c) && c != 0) ==> window_target(facts, desktop) is None,
        facts.frame is None ==> window_target(facts, desktop) is None,
        facts.frame matches Some(rect) ==> (facts.visible && !facts.minimized
            && facts.extended_style & WS_EX_TRANSPARENT == 0 && !(facts.cloaked matches Some(c)
            && c != 0) ==> window_target(facts, desktop) == clipped(rect, desktop)),
{
}

/// The index of the first rectangle in `bounds` that holds the point, if any.
pub open spec fn first_containing(bounds: Seq<DesktopBounds>, x: int, y: int) -> Option<int> {
    if exists|i: int| 0 <= i < bounds.len() && #[trigger] contains_point(bounds[i], x, y) {
        Some(
            choose|i: int|
                0 <= i < bounds.len() && #[trigger] contains_point(bounds[i], x, y) && forall|j: int|
                    0 <= j < i ==> !#[trigger] contains_point(bounds[j], x, y),
        )
    } else {
        None
    }
}

/// The windows that can be picked as capture targets, front to back.
pub struct WindowTargets {
    bounds: Vec<DesktopBounds>,
}

impl WindowTargets {
    /// The target rectangles, front to back.
    pub closed spec fn view(&self) -> Seq<DesktopBounds> {
        self.bounds@
    }

    /// Targets listed front to back.
    pub fn new(bounds: Vec<DesktopBounds>) -> (r: Self)
        ensures
            r.view() == bounds@,
    {
        WindowTargets { bounds }
    }

    /// The front-most target under the point `(x, y)`.
    pub fn target_at(&self, x: i32, y: i32) -> (r: Option<DesktopBounds>)
        ensures
            r == match first_containing(self.view(), x as int, y as int) {
                Some(i) => Some(self.view()[i]),
                None => None,
            },
    {
        let mut i: usize = 0;
        while i < self.bounds.len()
            invariant
                i <= self.bounds@.len(),
                forall|j: int| 0 <= j < i ==> !#[trigger] contains_point(self.bounds@[j], x as int, y as int),
            decreases self.bounds.len() - i,
        {
            if contains(self.bounds[i], x, y) {
                proof {
                    let w = i as int;
                    assert(contains_point(self.bounds@[w], x as int, y as int));
                    let c = choose|c: int|
                        0 <= c < self.bounds@.len() && #[trigger] contains_point(self.bounds@[c], x as int, y as int)
                            && forall|j: int| 0 <= j < c ==> !#[trigger] contains_point(self.bounds@[j], x as int, y as int);
                    if c < w {
                        assert(!contains_point(self.bounds@[c], x as int, y as int));
                    } else if c > w {
                        assert(!contains_point(self.bounds@[w], x as int, y as int));
                    }
                }
                return Some(self.bounds[i]);
            }
            i = i + 1;
        }
        None
    }
}

/// Why a region cannot be captured.
#[derive(Clone, Copy, Debug, PartialEq, Eq, Structural)]
pub enum CaptureError {
    /// The virtual desktop has no visible pixels.
    EmptyDesktop,
    /// The region has no visible pixels.
    EmptyRegion,
    /// The region's right or bottom edge is beyond the range of `i32`.
    CoordinateOverflow,
    /// The region reaches outside the virtual desktop.
    OutsideDesktop,
}

impl CaptureError {
    /// The message shown for the error.
    pub fn message(self) -> (r: &'static str)
        ensures
            r@ == match self {
                CaptureError::EmptyDesktop => "虚拟桌面没有可见像素"@,
                CaptureError::EmptyRegion => "截图区域没有可见像素"@,
                CaptureError::CoordinateOverflow => "截图区域坐标溢出"@,
                CaptureError::OutsideDesktop => "截图区域超出虚拟桌面"@,
            },
    {
        match self {
            CaptureError::EmptyDesktop => "虚拟桌面没有可见像素",
            CaptureError::EmptyRegion => "截图区域没有可见像素",
            CaptureError::CoordinateOverflow => "截图区域坐标溢出",
            CaptureError::OutsideDesktop => "截图区域超出虚拟桌面",
        }
    }
}

/// The virtual desktop from the system metrics of its origin and size; it must have
/// visible pixels.
pub fn desktop_from_metrics(left: i32, top: i32, width: i32, height: i32) -> (r: Result<DesktopBounds, CaptureError>)
    ensures
        r == if width <= 0 || height <= 0 {
            Err::<DesktopBounds, CaptureError>(CaptureError::EmptyDesktop)
        } else {
            Ok(DesktopBounds { left, top, width, height })
        },
{
    if width <= 0 || height <= 0 {
        return Err(CaptureError::EmptyDesktop);
    }
    Ok(DesktopBounds { left, top, width, height })
}

/// Whether a region can be captured from the desktop: it must have visible pixels, edges
/// within the range of `i32`, and lie inside the desktop.
pub open spec fn capture_check(bounds: DesktopBounds, desktop: DesktopBounds) -> Result<(), CaptureError> {
    if bounds.width <= 0 || bounds.height <= 0 {
        Err(CaptureError::EmptyRegion)
    } else if !edges_fit(bounds) {
        Err(CaptureError::CoordinateOverflow)
    } else if bounds.left < desktop.left || bounds.top < desktop.top || bounds.left + bounds.width
        > desktop.left + desktop.width || bounds.top + bounds.height > desktop.top + desktop.height {
        Err(CaptureError::OutsideDesktop)
    } else {
        Ok(())
    }
}

/// Checks a region before it is captured.
pub fn check_capture_region(bounds: DesktopBounds, desktop: DesktopBounds) -> (r: Result<(), CaptureError>)
    requires
        edges_fit(desktop),
    ensures
        r == capture_check(bounds, desktop),
{
    if bounds.width <= 0 || bounds.height <= 0 {
        return Err(CaptureError::EmptyRegion);
    }
    let right = match bounds.left.checked_add(bounds.width) {
        Some(v) => v,
        None => {
            return Err(CaptureError::CoordinateOverflow);
        },
    };
    let bottom = match bounds.top.checked_add(bounds.height) {
        Some(v) => v,
        None => {
            return Err(CaptureError::CoordinateOverflow);
        },
    };
    let desktop_right = desktop.left + desktop.width;
    let desktop_bottom = desktop.top + desktop.height;
    if bounds.left < desktop.left || bounds.top < desktop.top || right > desktop_right || bottom
        > desktop_bottom {
        return Err(CaptureError::OutsideDesktop);
    }
    Ok(())
}

/// BGRA pixels as RGBA with full opacity, as a screen capture is stored.
pub open spec fn opaque_rgba(bgra: Seq<u8>) -> Seq<u8> {
    Seq::new(
        ((bgra.len() / 4) * 4) as nat,
        |k: int|
            if k % 4 == 3 {
                255u8
            } else {
                bgra[(k / 4) * 4 + 2 - k % 4]
            },
    )
}

/// Converts captured BGRA pixels to opaque RGBA; a trailing partial pixel is dropped.
pub fn opaque_rgba_from_bgra(bgra: &[u8]) -> (r: Vec<u8>)
    ensures
        r@ == opaque_rgba(bgra@),
{
    let n = bgra.len();
    let pixels = n / 4;
    let mut r: Vec<u8> = Vec::new();
    let mut p: usize = 0;
    while p < pixels
        invariant
            n == bgra@.len(),
            pixels == n / 4,
            p <= pixels,
            r@.len() == p * 4,
            forall|k: int| 0 <= k < p * 4 ==> #[trigger] r@[k] == (if k % 4 == 3 {
                255u8
            } else {
                bgra@[(k / 4) * 4 + 2 - k % 4]
            }),
        decreases pixels - p,
    {
        let base = p * 4;
        let ghost before = r@;
        r.push(bgra[base + 2]);
        r.push(bgra[base + 1]);
        r.push(bgra[base]);
        r.push(255);
        assert forall|k: int| 0 <= k < (p + 1) * 4 implies #[trigger] r@[k] == (if k % 4 == 3 {
            255u8
        } else {
            bgra@[(k / 4) * 4 + 2 - k % 4]
        }) by {
            if k >= p * 4 {
                assert(k / 4 == p);
            } else {
                assert(r@[k] == before[k]);
            }
        }
        p = p + 1;
    }
    assert(r@ =~= opaque_rgba(bgra@));
    r
}

/// The `iw × ih` image scaled by `min(aw / iw, ah / ih, 1)`, each side rounded and at least
/// one pixel.
pub open spec fn fitted(iw: nat, ih: nat, aw: nat, ah: nat) -> (nat, nat) {
    let s = fit_size(iw, ih, aw, ah);
    (if s.0 == 0 { 1 } else { s.0 }, if s.1 == 0 { 1 } else { s.1 })
}

/// The size a pinned image is shown at in a `aw × ah` work area: scaled down to fit,
/// keeping its aspect ratio, and never enlarged.
pub fn fitted_size(image_width: u32, image_height: u32, available_width: u32, available_height: u32) -> (r: (u32, u32))
    ensures
        (r.0 as nat, r.1 as nat) == fitted(
            image_width as nat,
            image_height as nat,
            available_width as nat,
            available_height as nat,
        ),
{
    let (w, h) = fit_within(image_width, image_height, available_width, available_height);
    (if w == 0 { 1 } else { w }, if h == 0 { 1 } else { h })
}

/// `v / 2` rounded toward zero, as integer division does.
pub open spec fn half_toward_zero(v: int) -> int {
    if v >= 0 {
        v / 2
    } else {
        -((-v) / 2)
    }
}

fn half_i64(v: i64) -> (r: i64)
    requires
        v > i64::MIN,
    ensures
        r == half_toward_zero(v as int),
{
    if v >= 0 {
        v / 2
    } else {
        -((-v) / 2)
    }
}

/// Where and how large a pinned image window is placed on a monitor's work area.
#[derive(Clone, Copy, Debug, PartialEq, Eq, Structural)]
pub struct Placement {
    pub x: i32,
    pub y: i32,
    pub width: u32,
    pub height: u32,
}

/// The placement of a `iw × ih` image in a work area: fitted into the area less a 24-pixel
/// margin (at least one pixel), and centred.
pub open spec fn work_area_placement(work: ScreenRect, iw: nat, ih: nat) -> Placement {
    let aw = if work.right - work.left - 24 >= 1 { work.right - work.left - 24 } else { 1 };
    let ah = if work.bottom - work.top - 24 >= 1 { work.bottom - work.top - 24 } else { 1 };
    let size = fitted(iw, ih, aw as nat, ah as nat);
    Placement {
        x: (work.left + half_toward_zero(work.right - work.left - size.0)) as i32,
        y: (work.top + half_toward_zero(work.bottom - work.top - size.1)) as i32,
        width: size.0 as u32,
        height: size.1 as u32,
    }
}

/// Places an image of `image_width × image_height` in the work area `work`.
pub fn fit_to_work_area(work: ScreenRect, image_width: u32, image_height: u32) -> (r: Placement)
    requires
        work.left <= work.right,
        work.top <= work.bottom,
        work.right - work.left <= i32::MAX,
        work.bottom - work.top <= i32::MAX,
    ensures
        r == work_area_placement(work, image_width as nat, image_height as nat),
{
    let span_x = work.right as i64 - work.left as i64;
    let span_y = work.bottom as i64 - work.top as i64;
    let available_width: u32 = if span_x - 24 >= 1 { (span_x - 24) as u32 } else { 1 };
    let available_height: u32 = if span_y - 24 >= 1 { (span_y - 24) as u32 } else { 1 };
    let (width, height) = fitted_size(image_width, image_height, available_width, available_height);
    proof {
        crate::scale::lemma_fit_size_bounded(
            image_width as nat,
            image_height as nat,
            available_width as nat,
            available_height as nat,
        );
    }
    let x = work.left as i64 + half_i64(span_x - width as i64);
    let y = work.top as i64 + half_i64(span_y - height as i64);
    Placement { x: x as i32, y: y as i32, width, height }
}

/// Where a floating window goes below its anchor: centred under it `gap` pixels lower; on
/// a known work area kept inside it horizontally, and above the anchor when it would
/// reach past the bottom.
pub open spec fn below_anchor(
    anchor_x: int,
    anchor_y: int,
    anchor_width: int,
    anchor_height: int,
    width: int,
    height: int,
    gap: int,
    work: Option<ScreenRect>,
) -> (int, int) {
    let x = anchor_x + half_toward_zero(anchor_width - width);
    let below = anchor_y + anchor_height + gap;
    match work {
        None => (x, below),
        Some(w) => {
            let hi = if w.right - width >= w.left { w.right - width } else { w.left as int };
            let cx = if x < w.left { w.left as int } else if x > hi { hi } else { x };
            let above = anchor_y - height - gap;
            let cy = if below + height > w.bottom {
                if above >= w.top { above } else { w.top as int }
            } else {
                below
            };
            (cx, cy)
        },
    }
}

/// The position of a floating window below an anchor window.
pub fn position_below(
    anchor_x: i32,
    anchor_y: i32,
    anchor_width: u32,
    anchor_height: u32,
    width: u32,
    height: u32,
    gap: i32,
    work: Option<ScreenRect>,
) -> (r: (i32, i32))
    requires
        anchor_width <= i32::MAX,
        anchor_height <= i32::MAX,
        width <= i32::MAX,
        height <= i32::MAX,
        i32::MIN <= anchor_x + half_toward_zero(anchor_width - width) <= i32::MAX,
        i32::MIN <= anchor_y + anchor_height + gap <= i32::MAX,
        i32::MIN <= anchor_y - height - gap <= i32::MAX,
        work matches Some(w) ==> i32::MIN <= w.right - width,
    ensures
        (r.0 as int, r.1 as int) == below_anchor(
            anchor_x as int,
            anchor_y as int,
            anchor_width as int,
            anchor_height as int,
            width as int,
            height as int,
            gap as int,
            work,
        ),
{
    let x = anchor_x as i64 + half_i64(anchor_width as i64 - width as i64);
    let below = anchor_y as i64 + anchor_height as i64 + gap as i64;
    match work {
        None => (x as i32, below as i32),
        Some(w) => {
            let hi: i64 = if w.right as i64 - width as i64 >= w.left as i64 {
                w.right as i64 - width as i64
            } else {
                w.left as i64
            };
            let cx = if x < w.left as i64 { w.left as i64 } else if x > hi { hi } else { x };
            let above = anchor_y as i64 - height as i64 - gap as i64;
            let cy = if below + height as i64 > w.bottom as i64 {
                if above >= w.top as i64 { above } else { w.top as i64 }
            } else {
                below
            };
            (cx as i32, cy as i32)
        },
    }
}

/// The window style bits of the minimise and maximise buttons.
pub const WS_MINIMIZEBOX: u32 = 0x0002_0000;
pub const WS_MAXIMIZEBOX: u32 = 0x0001_0000;

/// The extended style bit of windows kept above all others.
pub const WS_EX_TOPMOST: u32 = 0x0000_0008;

/// The extended style bit of windows drawn with an opacity.
pub const WS_EX_LAYERED: u32 = 0x0008_0000;

/// The opacity of a pinned image as the alpha byte of a layered window: the percentage,
/// kept between 25 and 100, of 255, rounded down.
pub fn layered_alpha(opacity_percent: u8) -> (r: u8)
    ensures
        r == crate::screenshot::config::clamped(opacity_percent, 25, 100) * 255 / 100,
{
    let percent: u16 = if opacity_percent < 25 {
        25
    } else if opacity_percent > 100 {
        100
    } else {
        opacity_percent as u16
    };
    ((percent * 255) / 100) as u8
}

/// The style of a pinned image's window: the minimise and maximise buttons removed, every
/// other bit kept.
pub fn without_minimize_maximize(style: u32) -> (r: u32)
    ensures
        r & WS_MINIMIZEBOX == 0,
        r & WS_MAXIMIZEBOX == 0,
        r | WS_MINIMIZEBOX | WS_MAXIMIZEBOX == style | WS_MINIMIZEBOX | WS_MAXIMIZEBOX,
{
    let r = style & !WS_MINIMIZEBOX & !WS_MAXIMIZEBOX;
    assert(r & 0x0002_0000u32 == 0 && r & 0x0001_0000u32 == 0 && r | 0x0002_0000u32 | 0x0001_0000u32
        == style | 0x0002_0000u32 | 0x0001_0000u32) by (bit_vector)
        requires
            r == style & !0x0002_0000u32 & !0x0001_0000u32,
    ;
    r
}

/// The extended style of a window kept above all others, or no longer, with every other
/// bit kept.
pub fn topmost_style(style: u32, enabled: bool) -> (r: u32)
    ensures
        (r & WS_EX_TOPMOST != 0) == enabled,
        r | WS_EX_TOPMOST == style | WS_EX_TOPMOST,
{
    if enabled {
        let r = style | WS_EX_TOPMOST;
        assert(r & 0x8u32 != 0 && r | 0x8u32 == style | 0x8u32) by (bit_vector)
            requires
                r == style | 0x8u32,
        ;
        r
    } else {
        let r = style & !WS_EX_TOPMOST;
        assert(r & 0x8u32 == 0 && r | 0x8u32 == style | 0x8u32) by (bit_vector)
            requires
                r == style & !0x8u32,
        ;
        r
    }
}

/// The extended style of a window drawn with an opacity, every other bit kept.
pub fn layered_style(style: u32) -> (r: u32)
    ensures
        r & WS_EX_LAYERED != 0,
        r & !WS_EX_LAYERED == style & !WS_EX_LAYERED,
{
    let r = style | WS_EX_LAYERED;
    assert(r & 0x0008_0000u32 != 0 && r & !0x0008_0000u32 == style & !0x0008_0000u32) by (bit_vector)
        requires
            r == style | 0x0008_0000u32,
    ;
    r
}

} // verus!
