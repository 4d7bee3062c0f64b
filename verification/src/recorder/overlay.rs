//! Where the cursor and the click highlight are drawn into a captured frame that shows
//! the source rectangle scaled to the frame's size.
//!
//! Scaled positions are exact fractions rounded to the nearest integer, halves away from
//! zero, then saturated to the range of `i32`.
use vstd::prelude::*;
use crate::recorder::domain::Bounds;

verus! {

/// `n / d` rounded to the nearest integer, halves away from zero.
pub open spec fn round_div(n: int, d: int) -> int
    recommends
        d > 0,
{
    if n >= 0 {
        (2 * n + d) / (2 * d)
    } else {
        -((-2 * n + d) / (2 * d))
    }
}

/// `v` saturated to the range of `i32`.
pub open spec fn clamp_i32(v: int) -> int {
    if v > i32::MAX {
        i32::MAX as int
    } else if v < i32::MIN {
        i32::MIN as int
    } else {
        v
    }
}

/// A source coordinate `v` scaled by `num / den` and rounded.
pub open spec fn scaled(v: int, num: int, den: int) -> int {
    clamp_i32(round_div(v * num, den))
}

fn round_div_exec(n: i128, d: i128) -> (r: i128)
    requires
        d > 0,
        -0x1_0000_0000_0000_0000_0000 <= n <= 0x1_0000_0000_0000_0000_0000,
        d <= 0x1_0000_0000,
    ensures
        r == round_div(n as int, d as int),
        -0x1_0000_0000_0000_0000_0001 <= r <= 0x1_0000_0000_0000_0000_0001,
{
    if n >= 0 {
        let q = (2 * n + d) / (2 * d);
        assert(q <= 2 * n + d) by (nonlinear_arith)
            requires
                q == (2 * n + d) / (2 * d),
                d > 0,
                n >= 0,
        ;
        assert(q <= n + 1) by (nonlinear_arith)
            requires
                q == (2 * n + d) / (2 * d),
                d > 0,
                n >= 0,
        ;
        q
    } else {
        let q = (-2 * n + d) / (2 * d);
        assert(0 <= q <= -n + 1) by (nonlinear_arith)
            requires
                q == (-2 * n + d) / (2 * d),
                d > 0,
                n < 0,
        ;
        -q
    }
}

fn saturate_i32(v: i128) -> (r: i32)
    ensures
        r == clamp_i32(v as int),
{
    if v > i32::MAX as i128 {
        i32::MAX
    } else if v < i32::MIN as i128 {
        i32::MIN
    } else {
        v as i32
    }
}

fn scale_exec(v: i64, num: u32, den: u32) -> (r: i32)
    requires
        den > 0,
        -0x1_0000_0000_0000 <= v <= 0x1_0000_0000_0000,
    ensures
        r == scaled(v as int, num as int, den as int),
{
    assert(-0x1_0000_0000_0000_0000_0000 <= (v as int) * (num as int) <= 0x1_0000_0000_0000_0000_0000) by (nonlinear_arith)
        requires
            -0x1_0000_0000_0000 <= v <= 0x1_0000_0000_0000,
            0 <= num <= 0xffff_ffff,
    ;
    let product: i128 = v as i128 * num as i128;
    saturate_i32(round_div_exec(product, den as i128))
}

/// What Windows reports about the cursor when a frame is captured.
#[derive(Clone, Copy, Debug, PartialEq, Eq, Structural)]
pub struct CursorReport {
    /// Whether the cursor is shown and has an image.
    pub showing: bool,
    /// The cursor's position on the desktop.
    pub x: i32,
    pub y: i32,
    /// The hot spot inside the cursor image.
    pub hotspot_x: u32,
    pub hotspot_y: u32,
    /// The system's cursor size.
    pub cursor_width: i32,
    pub cursor_height: i32,
}

/// Where a cursor image is drawn in the frame.
#[derive(Clone, Copy, Debug, PartialEq, Eq, Structural)]
pub struct CursorPlacement {
    pub x: i32,
    pub y: i32,
    pub width: i32,
    pub height: i32,
}

/// Where the cursor goes in a `width × height` frame of `source`: its position relative to
/// the source and its hot spot scaled to the frame, the one less the other, and the cursor
/// size scaled, at least one pixel; none when the cursor is not shown.
pub open spec fn cursor_placement(report: CursorReport, source: Bounds, width: u32, height: u32) -> Option<CursorPlacement> {
    if !report.showing {
        None
    } else {
        let w = scaled(report.cursor_width as int, width as int, source.width as int);
        let h = scaled(report.cursor_height as int, height as int, source.height as int);
        Some(
            CursorPlacement {
                x: (scaled(report.x - source.left, width as int, source.width as int) - scaled(
                    report.hotspot_x as int,
                    width as int,
                    source.width as int,
                )) as i32,
                y: (scaled(report.y - source.top, height as int, source.height as int) - scaled(
                    report.hotspot_y as int,
                    height as int,
                    source.height as int,
                )) as i32,
                width: (if w < 1 { 1 } else { w }) as i32,
                height: (if h < 1 { 1 } else { h }) as i32,
            },
        )
    }
}

/// Where the cursor is drawn in a captured frame.
pub fn place_cursor(report: CursorReport, source: Bounds, width: u32, height: u32) -> (r: Option<CursorPlacement>)
    requires
        source.width > 0,
        source.height > 0,
        report.showing ==> i32::MIN <= scaled(
            report.x - source.left,
            width as int,
            source.width as int,
        ) - scaled(report.hotspot_x as int, width as int, source.width as int) <= i32::MAX,
        report.showing ==> i32::MIN <= scaled(
            report.y - source.top,
            height as int,
            source.height as int,
        ) - scaled(report.hotspot_y as int, height as int, source.height as int) <= i32::MAX,
    ensures
        r == cursor_placement(report, source, width, height),
{
    if !report.showing {
        return None;
    }
    let sw = source.width as u32;
    let sh = source.height as u32;
    let px = scale_exec(report.x as i64 - source.left as i64, width, sw);
    let hx = scale_exec(report.hotspot_x as i64, width, sw);
    let py = scale_exec(report.y as i64 - source.top as i64, height, sh);
    let hy = scale_exec(report.hotspot_y as i64, height, sh);
    let w = scale_exec(report.cursor_width as i64, width, sw);
    let h = scale_exec(report.cursor_height as i64, height, sh);
    Some(
        CursorPlacement {
            x: px - hx,
            y: py - hy,
            width: if w < 1 { 1 } else { w },
            height: if h < 1 { 1 } else { h },
        },
    )
}

/// The circle drawn around the cursor while the left button is down.
#[derive(Clone, Copy, Debug, PartialEq, Eq, Structural)]
pub struct ClickCircle {
    pub left: i32,
    pub top: i32,
    pub right: i32,
    pub bottom: i32,
}

/// The radius of the click highlight: 18 pixels scaled by the smaller of the two scale
/// factors, at least 8.
pub open spec fn highlight_radius(source: Bounds, width: u32, height: u32) -> int {
    let by_width = width * source.height <= height * source.width;
    let r = if by_width {
        scaled(18, width as int, source.width as int)
    } else {
        scaled(18, height as int, source.height as int)
    };
    if r < 8 {
        8
    } else {
        r
    }
}

/// The circle around the cursor at `(x, y)` in a `width × height` frame of `source`,
/// while the left button is down.
pub open spec fn click_circle(pressed: bool, x: i32, y: i32, source: Bounds, width: u32, height: u32) -> Option<ClickCircle> {
    if !pressed {
        None
    } else {
        let cx = scaled(x - source.left, width as int, source.width as int);
        let cy = scaled(y - source.top, height as int, source.height as int);
        let r = highlight_radius(source, width, height);
        Some(
            ClickCircle {
                left: (cx - r) as i32,
                top: (cy - r) as i32,
                right: (cx + r) as i32,
                bottom: (cy + r) as i32,
            },
        )
    }
}

/// The click highlight drawn into a captured frame.
pub fn place_click_highlight(pressed: bool, x: i32, y: i32, source: Bounds, width: u32, height: u32) -> (r: Option<ClickCircle>)
    requires
        source.width > 0,
        source.height > 0,
        pressed ==> i32::MIN <= scaled(x - source.left, width as int, source.width as int)
            - highlight_radius(source, width, height),
        pressed ==> scaled(x - source.left, width as int, source.width as int) + highlight_radius(
            source,
            width,
            height,
        ) <= i32::MAX,
        pressed ==> i32::MIN <= scaled(y - source.top, height as int, source.height as int)
            - highlight_radius(source, width, height),
        pressed ==> scaled(y - source.top, height as int, source.height as int) + highlight_radius(
            source,
            width,
            height,
        ) <= i32::MAX,
    ensures
        r == click_circle(pressed, x, y, source, width, height),
{
    if !pressed {
        return None;
    }
    let sw = source.width as u32;
    let sh = source.height as u32;
    let cx = scale_exec(x as i64 - source.left as i64, width, sw);
    let cy = scale_exec(y as i64 - source.top as i64, height, sh);
    let by_width = crate::scale::wide_product(width, sh) <= crate::scale::wide_product(height, sw);
    let scaled_radius = if by_width { scale_exec(18, width, sw) } else { scale_exec(18, height, sh) };
    let radius = if scaled_radius < 8 { 8 } else { scaled_radius };
    Some(ClickCircle { left: cx - radius, top: cy - radius, right: cx + radius, bottom: cy + radius })
}

} // verus!
