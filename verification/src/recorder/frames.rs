//! Desktop geometry shared by the desktop backends and the conversion of captured
//! video frames into the BGRA frames that the encoders take.
use vstd::prelude::*;
use crate::recorder::domain::{Bounds, BoundsError, RecordingTarget, saturate, saturating_add, saturating_sub};

verus! {

/// Why no desktop rectangle could be formed.
#[derive(Clone, Copy, Debug, PartialEq, Eq, Structural)]
pub enum DesktopError {
    /// No display was given.
    NoDisplay,
    /// The union is smaller than 16 × 16 pixels.
    TooSmall,
}

/// The left, top, right and bottom edges of the union of the rectangles, each edge of a
/// rectangle computed with saturating arithmetic.
pub open spec fn union_edges(values: Seq<Bounds>) -> (int, int, int, int)
    recommends
        values.len() > 0,
    decreases values.len(),
{
    if values.len() <= 1 {
        let b = values[0];
        (b.left as int, b.top as int, saturate(b.left + b.width), saturate(b.top + b.height))
    } else {
        let e = union_edges(values.drop_last());
        let b = values.last();
        (
            if b.left < e.0 { b.left as int } else { e.0 },
            if b.top < e.1 { b.top as int } else { e.1 },
            if saturate(b.left + b.width) > e.2 { saturate(b.left + b.width) } else { e.2 },
            if saturate(b.top + b.height) > e.3 { saturate(b.top + b.height) } else { e.3 },
        )
    }
}

/// The rectangle spanned by the union of the rectangles.
pub open spec fn union_rect(values: Seq<Bounds>) -> Bounds {
    let e = union_edges(values);
    Bounds {
        left: e.0 as i32,
        top: e.1 as i32,
        width: saturate(e.2 - e.0) as i32,
        height: saturate(e.3 - e.1) as i32,
    }
}

proof fn lemma_union_edges_range(values: Seq<Bounds>)
    requires
        values.len() > 0,
    ensures
        i32::MIN <= union_edges(values).0 <= i32::MAX,
        i32::MIN <= union_edges(values).1 <= i32::MAX,
        i32::MIN <= union_edges(values).2 <= i32::MAX,
        i32::MIN <= union_edges(values).3 <= i32::MAX,
    decreases values.len(),
{
    if values.len() > 1 {
        lemma_union_edges_range(values.drop_last());
    }
}

/// Every display lies inside the union of the displays: the union's edges are beyond each
/// display's edges, so when the union's width and height fit in `i32` it encloses every
/// display.
pub proof fn lemma_union_holds_every_display(values: Seq<Bounds>, i: int)
    requires
        0 <= i < values.len(),
    ensures
        union_edges(values).0 <= values[i].left,
        union_edges(values).1 <= values[i].top,
        union_edges(values).2 >= saturate(values[i].left + values[i].width),
        union_edges(values).3 >= saturate(values[i].top + values[i].height),
        union_edges(values).2 - union_edges(values).0 <= i32::MAX && union_edges(values).3
            - union_edges(values).1 <= i32::MAX ==> crate::recorder::domain::encloses(
            union_rect(values),
            values[i],
        ),
    decreases values.len(),
{
    lemma_union_edges_range(values);
    if values.len() > 1 {
        if i < values.len() - 1 {
            lemma_union_holds_every_display(values.drop_last(), i);
            assert(values.drop_last()[i] == values[i]);
        }
    }
}

/// The smallest rectangle that holds every display, which must be at least 16 × 16 pixels.
pub fn union_bounds(values: &[Bounds]) -> (r: Result<Bounds, DesktopError>)
    ensures
        r == if values@.len() == 0 {
            Err::<Bounds, DesktopError>(DesktopError::NoDisplay)
        } else if union_rect(values@).is_recordable() {
            Ok(union_rect(values@))
        } else {
            Err(DesktopError::TooSmall)
        },
{
    if values.len() == 0 {
        return Err(DesktopError::NoDisplay);
    }
    let first = values[0];
    let mut left = first.left;
    let mut top = first.top;
    let mut right = saturating_add(first.left, first.width);
    let mut bottom = saturating_add(first.top, first.height);
    let mut i: usize = 1;
    assert(values@.take(1).len() == 1);
    while i < values.len()
        invariant
            1 <= i <= values@.len(),
            union_edges(values@.take(i as int)) == (
                left as int,
                top as int,
                right as int,
                bottom as int,
            ),
        decreases values.len() - i,
    {
        let b = values[i];
        assert(values@.take(i + 1).drop_last() =~= values@.take(i as int));
        let b_right = saturating_add(b.left, b.width);
        let b_bottom = saturating_add(b.top, b.height);
        if b.left < left {
            left = b.left;
        }
        if b.top < top {
            top = b.top;
        }
        if b_right > right {
            right = b_right;
        }
        if b_bottom > bottom {
            bottom = b_bottom;
        }
        i = i + 1;
    }
    assert(values@.take(values@.len() as int) =~= values@);
    let bounds = Bounds {
        left,
        top,
        width: saturating_sub(right, left),
        height: saturating_sub(bottom, top),
    };
    match bounds.validate() {
        Ok(b) => Ok(b),
        Err(BoundsError::TooSmall) => Err(DesktopError::TooSmall),
    }
}

/// The part of a video frame that a recording keeps.
#[derive(Clone, Copy, Debug, PartialEq, Eq, Structural)]
pub struct Crop {
    pub x: u32,
    pub y: u32,
    pub width: u32,
    pub height: u32,
}

impl Crop {
    /// The whole frame.
    pub fn full(width: u32, height: u32) -> (r: Self)
        ensures
            r == (Crop { x: 0, y: 0, width, height }),
    {
        Crop { x: 0, y: 0, width, height }
    }
}

/// `a - b` for naturals, floored at zero (what `u32::saturating_sub` returns).
pub open spec fn monus(a: int, b: int) -> int {
    if a > b {
        a - b
    } else {
        0
    }
}

/// The crop of a desktop-portal stream of `frame_width × frame_height` pixels that shows the
/// recorded region: the region's offset from the stream's position and its size, scaled
/// from compositor coordinates to frame pixels, clamped to the frame. Any other target,
/// or a stream without a position or a positive size, keeps the whole frame.
pub open spec fn portal_crop_spec(
    target: RecordingTarget,
    position: Option<(i32, i32)>,
    compositor_size: Option<(i32, i32)>,
    frame_width: u32,
    frame_height: u32,
) -> Crop {
    match (target, position, compositor_size) {
        (RecordingTarget::Region(bounds), Some((left, top)), Some((width, height))) => {
            if width <= 0 || height <= 0 {
                Crop { x: 0, y: 0, width: frame_width, height: frame_height }
            } else {
                let dx: int = if bounds.left - left > 0 { bounds.left - left } else { 0 };
                let dy: int = if bounds.top - top > 0 { bounds.top - top } else { 0 };
                let bw: int = if bounds.width > 1 { bounds.width as int } else { 1 };
                let bh: int = if bounds.height > 1 { bounds.height as int } else { 1 };
                let x = ((dx * frame_width / (width as int)) as i64) as u32;
                let y = ((dy * frame_height / (height as int)) as i64) as u32;
                let cw = ((bw * frame_width / (width as int)) as i64) as u32;
                let ch = ((bh * frame_height / (height as int)) as i64) as u32;
                Crop {
                    x: if x < monus(frame_width as int, 1) { x } else { monus(frame_width as int, 1) as u32 },
                    y: if y < monus(frame_height as int, 1) { y } else { monus(frame_height as int, 1) as u32 },
                    width: if (if cw > 1 { cw } else { 1 }) < monus(frame_width as int, x as int) {
                        if cw > 1 { cw } else { 1 }
                    } else {
                        monus(frame_width as int, x as int) as u32
                    },
                    height: if (if ch > 1 { ch } else { 1 }) < monus(frame_height as int, y as int) {
                        if ch > 1 { ch } else { 1 }
                    } else {
                        monus(frame_height as int, y as int) as u32
                    },
                }
            }
        },
        _ => Crop { x: 0, y: 0, width: frame_width, height: frame_height },
    }
}

proof fn lemma_scaled_offset_bound(d: int, f: int, w: int)
    requires
        0 <= d <= i32::MAX,
        0 <= f <= u32::MAX,
        0 < w,
    ensures
        0 <= d * f / w <= d * f,
        d * f <= i32::MAX * u32::MAX,
{
    assert(0 <= d * f) by (nonlinear_arith)
        requires
            0 <= d,
            0 <= f,
    ;
    assert(d * f / w <= d * f) by (nonlinear_arith)
        requires
            0 <= d * f,
            0 < w,
    ;
    assert(0 <= d * f / w) by (nonlinear_arith)
        requires
            0 <= d * f,
            0 < w,
    ;
    assert(d * f <= i32::MAX * u32::MAX) by (nonlinear_arith)
        requires
            0 <= d <= i32::MAX,
            0 <= f <= u32::MAX,
    ;
}

fn scale_offset(d: i32, f: u32, w: i32) -> (r: u32)
    requires
        d >= 0,
        w > 0,
    ensures
        r == ((d * f / (w as int)) as i64) as u32,
{
    proof {
        lemma_scaled_offset_bound(d as int, f as int, w as int);
    }
    let product: i64 = (d as i64) * (f as i64);
    let q: i64 = product / (w as i64);
    q as u32
}

/// The crop of a desktop-portal stream that shows the recorded region.
pub fn portal_crop(
    target: RecordingTarget,
    position: Option<(i32, i32)>,
    compositor_size: Option<(i32, i32)>,
    frame_width: u32,
    frame_height: u32,
) -> (r: Crop)
    requires
        match (target, position) {
            (RecordingTarget::Region(bounds), Some((left, top))) => i32::MIN <= bounds.left - left
                <= i32::MAX && i32::MIN <= bounds.top - top <= i32::MAX,
            _ => true,
        },
    ensures
        r == portal_crop_spec(target, position, compositor_size, frame_width, frame_height),
{
    let bounds = match target {
        RecordingTarget::Region(bounds) => bounds,
        _ => {
            return Crop::full(frame_width, frame_height);
        },
    };
    let (left, top) = match position {
        Some(p) => p,
        None => {
            return Crop::full(frame_width, frame_height);
        },
    };
    let (width, height) = match compositor_size {
        Some(s) => s,
        None => {
            return Crop::full(frame_width, frame_height);
        },
    };
    if width <= 0 || height <= 0 {
        return Crop::full(frame_width, frame_height);
    }
    let dx: i32 = if bounds.left - left > 0 { bounds.left - left } else { 0 };
    let dy: i32 = if bounds.top - top > 0 { bounds.top - top } else { 0 };
    let bw: i32 = if bounds.width > 1 { bounds.width } else { 1 };
    let bh: i32 = if bounds.height > 1 { bounds.height } else { 1 };
    let x = scale_offset(dx, frame_width, width);
    let y = scale_offset(dy, frame_height, height);
    let cw = scale_offset(bw, frame_width, width);
    let ch = scale_offset(bh, frame_height, height);
    let last_column: u32 = if frame_width > 0 { frame_width - 1 } else { 0 };
    let last_row: u32 = if frame_height > 0 { frame_height - 1 } else { 0 };
    let room_x: u32 = if frame_width > x { frame_width - x } else { 0 };
    let room_y: u32 = if frame_height > y { frame_height - y } else { 0 };
    let cw1: u32 = if cw > 1 { cw } else { 1 };
    let ch1: u32 = if ch > 1 { ch } else { 1 };
    Crop {
        x: if x < last_column { x } else { last_column },
        y: if y < last_row { y } else { last_row },
        width: if cw1 < room_x { cw1 } else { room_x },
        height: if ch1 < room_y { ch1 } else { room_y },
    }
}

/// The pixel layouts that the desktop portal may deliver.
#[derive(Clone, Copy, Debug, PartialEq, Eq, Structural)]
pub enum PixelFormat {
    Bgra,
    Bgrx,
    Rgba,
    Rgbx,
    /// A layout that was not negotiated.
    Other,
}

/// A video frame as the desktop portal delivers it.
pub struct RawFrame {
    pub bytes: Vec<u8>,
    pub width: u32,
    pub height: u32,
    pub stride: usize,
    pub format: PixelFormat,
}

/// Why a frame could not be converted.
#[derive(Clone, Copy, Debug, PartialEq, Eq, Structural)]
pub enum FrameError {
    /// The output buffer does not hold the output size, or the frame is empty.
    InvalidDimensions,
    /// The frame holds fewer bytes than its size and stride need.
    TooShort,
    /// A sampled pixel lies beyond the end of the frame.
    InvalidStride,
    /// The frame uses a layout that was not negotiated.
    UnnegotiatedFormat,
}

/// The row stride actually used: the stated stride, but at least four bytes per pixel.
pub open spec fn effective_stride(frame_width: u32, stride: usize) -> int {
    if stride as int > frame_width * 4 {
        stride as int
    } else {
        frame_width * 4
    }
}

/// The number of bytes that a frame of this size and stride needs, saturated at `usize::MAX`.
pub open spec fn needed_bytes(frame_width: u32, frame_height: u32, stride: usize) -> int {
    let rows = effective_stride(frame_width, stride) * monus(frame_height as int, 1);
    let rows_sat = if rows > usize::MAX { usize::MAX as int } else { rows };
    let total = rows_sat + frame_width * 4;
    if total > usize::MAX {
        usize::MAX as int
    } else {
        total
    }
}

/// The byte offset of the frame pixel that output pixel `q` (in row-major order) samples,
/// by nearest-neighbour scaling of the crop onto the output.
pub open spec fn sample_offset(
    frame_width: u32,
    stride: usize,
    crop: Crop,
    output_width: u32,
    output_height: u32,
    q: int,
) -> int {
    let oy = q / (output_width as int);
    let ox = q % (output_width as int);
    let sy = crop.y + oy * crop.height / (output_height as int);
    let sx = crop.x + ox * crop.width / (output_width as int);
    sy * effective_stride(frame_width, stride) + sx * 4
}

/// Whether the pixel that output pixel `q` samples lies inside the frame's bytes.
pub open spec fn sample_in_frame(
    frame: &RawFrame,
    crop: Crop,
    output_width: u32,
    output_height: u32,
    q: int,
) -> bool {
    sample_offset(frame.width, frame.stride, crop, output_width, output_height, q) + 4
        <= frame.bytes@.len()
}

/// Whether the layout is one of the four negotiated ones.
pub open spec fn known_format(format: PixelFormat) -> bool {
    format != PixelFormat::Other
}

/// The blue, green and red bytes of a pixel whose first three bytes are `p`.
pub open spec fn bgr_of(format: PixelFormat, p0: u8, p1: u8, p2: u8) -> (u8, u8, u8) {
    match format {
        PixelFormat::Rgba | PixelFormat::Rgbx => (p2, p1, p0),
        _ => (p0, p1, p2),
    }
}

/// The result that converting a frame gives.
pub open spec fn conversion_outcome(
    frame: &RawFrame,
    crop: Crop,
    output_width: u32,
    output_height: u32,
    output_len: int,
) -> Result<(), FrameError> {
    let count = output_width * output_height;
    if output_len != count * 4 || frame.width == 0 || frame.height == 0 {
        Err(FrameError::InvalidDimensions)
    } else if frame.bytes@.len() < needed_bytes(frame.width, frame.height, frame.stride) {
        Err(FrameError::TooShort)
    } else if count > 0 && !known_format(frame.format) && sample_in_frame(
        frame,
        crop,
        output_width,
        output_height,
        0,
    ) {
        Err(FrameError::UnnegotiatedFormat)
    } else if exists|q: int|
        0 <= q < count && !sample_in_frame(frame, crop, output_width, output_height, q) {
        Err(FrameError::InvalidStride)
    } else {
        Ok(())
    }
}

/// Whether output pixel `q` holds the converted frame pixel that it samples, made opaque.
pub open spec fn pixel_converted(
    frame: &RawFrame,
    crop: Crop,
    output_width: u32,
    output_height: u32,
    out: Seq<u8>,
    q: int,
) -> bool {
    let o = sample_offset(frame.width, frame.stride, crop, output_width, output_height, q);
    let bgr = bgr_of(frame.format, frame.bytes@[o], frame.bytes@[o + 1], frame.bytes@[o + 2]);
    &&& out[4 * q] == bgr.0
    &&& out[4 * q + 1] == bgr.1
    &&& out[4 * q + 2] == bgr.2
    &&& out[4 * q + 3] == 255
}

proof fn lemma_mul_bound(a: int, b: int, ma: int, mb: int)
    requires
        0 <= a <= ma,
        0 <= b <= mb,
    ensures
        0 <= a * b <= ma * mb,
{
    assert(0 <= a * b <= ma * mb) by (nonlinear_arith)
        requires
            0 <= a <= ma,
            0 <= b <= mb,
    ;
}

proof fn lemma_row_col(q: int, oy: int, ox: int, w: int)
    requires
        w > 0,
        0 <= ox < w,
        q == oy * w + ox,
    ensures
        q / w == oy,
        q % w == ox,
{
    vstd::arithmetic::div_mod::lemma_fundamental_div_mod_converse(q, w, oy, ox);
}

proof fn lemma_sample_bound(o: int, len: int, n: int, m: int, c: int)
    requires
        0 <= o < n,
        0 <= c <= m,
        n > 0,
    ensures
        0 <= o * c / n <= c,
{
    assert(0 <= o * c) by (nonlinear_arith)
        requires
            0 <= o,
            0 <= c,
    ;
    assert(o * c / n <= c) by (nonlinear_arith)
        requires
            0 <= o < n,
            0 <= c,
            n > 0,
    ;
    assert(0 <= o * c / n) by (nonlinear_arith)
        requires
            0 <= o * c,
            n > 0,
    ;
}

/// Converts the crop of a frame into a BGRA frame of `output_width × output_height`
/// pixels by nearest-neighbour sampling, with every pixel made opaque.
pub fn convert_and_scale(
    source: &RawFrame,
    crop: Crop,
    output_width: u32,
    output_height: u32,
    output: &mut [u8],
) -> (r: Result<(), FrameError>)
    requires
        crop.x + crop.width <= u32::MAX,
        crop.y + crop.height <= u32::MAX,
    ensures
        final(output)@.len() == old(output)@.len(),
        r == conversion_outcome(source, crop, output_width, output_height, old(output)@.len() as int),
        r is Ok ==> forall|q: int|
            0 <= q < output_width * output_height ==> #[trigger] pixel_converted(
                source,
                crop,
                output_width,
                output_height,
                final(output)@,
                q,
            ),
{
    let out_len = output.len();
    let count: u64 = crate::scale::wide_product(output_width, output_height);
    let bytes_needed: Option<u64> = count.checked_mul(4);
    let dims_ok = match bytes_needed {
        Some(n) => output.len() as u64 == n,
        None => false,
    };
    if !dims_ok || source.width == 0 || source.height == 0 {
        proof {
            if !dims_ok {
                match bytes_needed {
                    Some(n) => {
                        assert(n as int == count * 4);
                        assert(output.len() as u64 != n);
                        assert(output@.len() != count * 4);
                    },
                    None => {
                        assert(count * 4 > u64::MAX);
                        assert(output@.len() == out_len);
                        assert(output@.len() != count * 4);
                    },
                }
            }
        }
        return Err(FrameError::InvalidDimensions);
    }
    proof {
        lemma_mul_bound(source.width as int, 4, u32::MAX as int, 4);
    }
    let wide_stride: u128 = if source.stride as u128 > (source.width as u128) * 4 {
        source.stride as u128
    } else {
        (source.width as u128) * 4
    };
    proof {
        lemma_mul_bound(wide_stride as int, (source.height - 1) as int, u64::MAX as int, u32::MAX as int);
    }
    let rows: u128 = wide_stride * ((source.height - 1) as u128);
    let rows_sat: u128 = if rows > usize::MAX as u128 { usize::MAX as u128 } else { rows };
    let total: u128 = rows_sat + (source.width as u128) * 4;
    let minimum: u128 = if total > usize::MAX as u128 { usize::MAX as u128 } else { total };
    proof {
        assert(minimum as int == needed_bytes(source.width, source.height, source.stride));
    }
    if (source.bytes.len() as u128) < minimum {
        return Err(FrameError::TooShort);
    }
    let len = source.bytes.len();
    if source.format == PixelFormat::Other {
        if count == 0 {
            return Ok(());
        }
        proof {
            lemma_row_col(0, 0, 0, output_width as int);
            lemma_sample_bound(0, 0, output_height as int, crop.height as int, crop.height as int);
        }
        proof {
            lemma_mul_bound(crop.y as int, wide_stride as int, u32::MAX as int, u64::MAX as int);
        }
        let first: u128 = (crop.y as u128) * wide_stride + (crop.x as u128) * 4;
        proof {
            assert(first as int == sample_offset(source.width, source.stride, crop, output_width, output_height, 0));
        }
        if first + 4 > len as u128 {
            return Err(FrameError::InvalidStride);
        }
        return Err(FrameError::UnnegotiatedFormat);
    }
    let mut q: u64 = 0;
    let mut oy: u32 = 0;
    while oy < output_height
        invariant
            0 <= oy <= output_height,
            count as int == output_width * output_height,
            output@.len() == count * 4,
            output@.len() == old(output)@.len(),
            wide_stride <= u64::MAX,
            out_len as int == count * 4,
            old(output)@.len() == count * 4,
            source.width != 0 && source.height != 0,
            source.bytes@.len() >= needed_bytes(source.width, source.height, source.stride),
            len == source.bytes@.len(),
            q as int == oy * output_width,
            wide_stride as int == effective_stride(source.width, source.stride),
            crop.x + crop.width <= u32::MAX,
            crop.y + crop.height <= u32::MAX,
            known_format(source.format),
            forall|k: int| 0 <= k < q ==> sample_in_frame(source, crop, output_width, output_height, k),
            forall|k: int|
                0 <= k < q ==> #[trigger] pixel_converted(
                    source,
                    crop,
                    output_width,
                    output_height,
                    output@,
                    k,
                ),
        decreases output_height - oy,
    {
        let mut ox: u32 = 0;
        proof {
            lemma_sample_bound(oy as int, 0, output_height as int, crop.height as int, crop.height as int);
        }
        let sy: u64 = crop.y as u64 + crate::scale::wide_product(oy, crop.height) / (output_height as u64);
        while ox < output_width
            invariant
                0 <= oy < output_height,
                0 <= ox <= output_width,
                count as int == output_width * output_height,
                output@.len() == count * 4,
                output@.len() == old(output)@.len(),
                wide_stride <= u64::MAX,
                out_len as int == count * 4,
                old(output)@.len() == count * 4,
                source.width != 0 && source.height != 0,
                source.bytes@.len() >= needed_bytes(source.width, source.height, source.stride),
                sy <= u32::MAX,
                len == source.bytes@.len(),
                q as int == oy * output_width + ox,
                sy as int == crop.y + oy * crop.height / (output_height as int),
                wide_stride as int == effective_stride(source.width, source.stride),
                crop.x + crop.width <= u32::MAX,
                crop.y + crop.height <= u32::MAX,
                known_format(source.format),
                forall|k: int| 0 <= k < q ==> sample_in_frame(source, crop, output_width, output_height, k),
                forall|k: int|
                    0 <= k < q ==> #[trigger] pixel_converted(
                        source,
                        crop,
                        output_width,
                        output_height,
                        output@,
                        k,
                    ),
            decreases output_width - ox,
        {
            proof {
                lemma_row_col(q as int, oy as int, ox as int, output_width as int);
                lemma_sample_bound(ox as int, 0, output_width as int, crop.width as int, crop.width as int);
                assert(q < count) by (nonlinear_arith)
                    requires
                        q as int == oy * output_width + ox,
                        ox < output_width,
                        oy < output_height,
                        count as int == output_width * output_height,
                ;
            }
            let sx: u64 = crop.x as u64 + crate::scale::wide_product(ox, crop.width) / (output_width as u64);
            proof {
                lemma_mul_bound(sy as int, wide_stride as int, u32::MAX as int, u64::MAX as int);
            }
            let offset: u128 = (sy as u128) * wide_stride + (sx as u128) * 4;
            proof {
                assert(offset as int == sample_offset(source.width, source.stride, crop, output_width, output_height, q as int));
            }
            if offset + 4 > len as u128 {
                assert(!sample_in_frame(source, crop, output_width, output_height, q as int));
                return Err(FrameError::InvalidStride);
            }
            let o = offset as usize;
            let target = (q * 4) as usize;
            assert(target as int == 4 * q);
            let p0 = source.bytes[o];
            let p1 = source.bytes[o + 1];
            let p2 = source.bytes[o + 2];
            let ghost before = output@;
            if source.format == PixelFormat::Rgba || source.format == PixelFormat::Rgbx {
                output[target] = p2;
                output[target + 1] = p1;
                output[target + 2] = p0;
            } else {
                output[target] = p0;
                output[target + 1] = p1;
                output[target + 2] = p2;
            }
            output[target + 3] = 255;
            proof {
                assert forall|k: int|
                    0 <= k < q + 1 implies #[trigger] pixel_converted(
                    source,
                    crop,
                    output_width,
                    output_height,
                    output@,
                    k,
                ) by {
                    if k < q {
                        assert(pixel_converted(source, crop, output_width, output_height, before, k));
                    }
                }
            }
            q = q + 1;
            ox = ox + 1;
        }
        proof {
            assert(q as int == (oy + 1) * output_width) by (nonlinear_arith)
                requires
                    q as int == oy * output_width + output_width,
            ;
        }
        oy = oy + 1;
    }
    proof {
        assert(q as int == count as int) by (nonlinear_arith)
            requires
                q as int == oy * output_width,
                oy == output_height,
                count as int == output_width * output_height,
        ;
    }
    Ok(())
}

} // verus!
