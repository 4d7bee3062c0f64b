//! Device-independent bitmaps (DIBs): the header that screen captures are created with,
//! and the clipboard's `CF_DIB` form of an image in both directions.
use vstd::prelude::*;

verus! {

/// The fields of a Windows `BITMAPINFOHEADER`.
#[derive(Clone, Copy, Debug, PartialEq, Eq, Structural)]
pub struct BitmapInfoHeader {
    pub bi_size: u32,
    pub bi_width: i32,
    pub bi_height: i32,
    pub bi_planes: u16,
    pub bi_bit_count: u16,
    pub bi_compression: u32,
    pub bi_size_image: u32,
    pub bi_x_pels_per_meter: i32,
    pub bi_y_pels_per_meter: i32,
    pub bi_clr_used: u32,
    pub bi_clr_important: u32,
}

/// A Windows `BITMAPINFO` without a colour table.
#[derive(Clone, Copy, Debug, PartialEq, Eq, Structural)]
pub struct BitmapInfo {
    pub bmi_header: BitmapInfoHeader,
}

/// The size of a `BITMAPINFOHEADER` in bytes.
pub const HEADER_SIZE: u32 = 40;

/// The header of a top-down 32-bit uncompressed bitmap of `width × height` pixels.
pub open spec fn top_down_header(width: i32, height: i32) -> BitmapInfoHeader {
    BitmapInfoHeader {
        bi_size: HEADER_SIZE,
        bi_width: width,
        bi_height: (-height) as i32,
        bi_planes: 1,
        bi_bit_count: 32,
        bi_compression: 0,
        bi_size_image: 0,
        bi_x_pels_per_meter: 0,
        bi_y_pels_per_meter: 0,
        bi_clr_used: 0,
        bi_clr_important: 0,
    }
}

/// The bitmap that screen pixels are copied into: 32-bit uncompressed pixels with top-down
/// rows, which a negative height denotes (the order Media Foundation reads with a positive
/// default stride).
pub fn bitmap_info(width: i32, height: i32) -> (r: BitmapInfo)
    requires
        height > i32::MIN,
    ensures
        r.bmi_header == top_down_header(width, height),
{
    BitmapInfo {
        bmi_header: BitmapInfoHeader {
            bi_size: HEADER_SIZE,
            bi_width: width,
            bi_height: -height,
            bi_planes: 1,
            bi_bit_count: 32,
            bi_compression: 0,
            bi_size_image: 0,
            bi_x_pels_per_meter: 0,
            bi_y_pels_per_meter: 0,
            bi_clr_used: 0,
            bi_clr_important: 0,
        },
    }
}

/// The little-endian bytes of a 32-bit value.
pub open spec fn le32(v: u32) -> Seq<u8> {
    seq![
        (v % 256) as u8,
        ((v / 256) % 256) as u8,
        ((v / 65536) % 256) as u8,
        (v / 16777216) as u8,
    ]
}

/// The little-endian bytes of a 16-bit value.
pub open spec fn le16(v: u16) -> Seq<u8> {
    seq![(v % 256) as u8, (v / 256) as u8]
}

/// The 40 bytes of a header as it is laid out in memory.
pub open spec fn header_layout(h: BitmapInfoHeader) -> Seq<u8> {
    le32(h.bi_size) + le32(h.bi_width as u32) + le32(h.bi_height as u32) + le16(h.bi_planes) + le16(
        h.bi_bit_count,
    ) + le32(h.bi_compression) + le32(h.bi_size_image) + le32(h.bi_x_pels_per_meter as u32) + le32(
        h.bi_y_pels_per_meter as u32,
    ) + le32(h.bi_clr_used) + le32(h.bi_clr_important)
}

fn push_le32(v: &mut Vec<u8>, x: u32)
    ensures
        final(v)@ == old(v)@ + le32(x),
{
    v.push((x % 256) as u8);
    v.push(((x / 256) % 256) as u8);
    v.push(((x / 65536) % 256) as u8);
    v.push((x / 16777216) as u8);
    assert(v@ =~= old(v)@ + le32(x));
}

fn push_le16(v: &mut Vec<u8>, x: u16)
    ensures
        final(v)@ == old(v)@ + le16(x),
{
    v.push((x % 256) as u8);
    v.push((x / 256) as u8);
    assert(v@ =~= old(v)@ + le16(x));
}

/// The bytes of a header as it is laid out in memory.
pub fn header_bytes(h: &BitmapInfoHeader) -> (r: Vec<u8>)
    ensures
        r@ == header_layout(*h),
        r@.len() == 40,
{
    let mut v: Vec<u8> = Vec::new();
    push_le32(&mut v, h.bi_size);
    push_le32(&mut v, h.bi_width as u32);
    push_le32(&mut v, h.bi_height as u32);
    push_le16(&mut v, h.bi_planes);
    push_le16(&mut v, h.bi_bit_count);
    push_le32(&mut v, h.bi_compression);
    push_le32(&mut v, h.bi_size_image);
    push_le32(&mut v, h.bi_x_pels_per_meter as u32);
    push_le32(&mut v, h.bi_y_pels_per_meter as u32);
    push_le32(&mut v, h.bi_clr_used);
    push_le32(&mut v, h.bi_clr_important);
    assert(v@ =~= header_layout(*h));
    v
}

/// RGBA pixels as BGRA, keeping alpha; a trailing partial pixel is dropped.
pub open spec fn swapped_to_bgra(rgba: Seq<u8>) -> Seq<u8> {
    Seq::new(
        ((rgba.len() / 4) * 4) as nat,
        |k: int|
            if k % 4 == 3 {
                rgba[k]
            } else {
                rgba[(k / 4) * 4 + 2 - k % 4]
            },
    )
}

/// The clipboard's `CF_DIB` form of a `width × height` RGBA image: the header of a
/// top-down 32-bit bitmap, then the pixels as BGRA.
pub fn encode_dib(width: i32, height: i32, rgba: &[u8]) -> (r: Vec<u8>)
    requires
        height > i32::MIN,
    ensures
        r@ == header_layout(top_down_header(width, height)) + swapped_to_bgra(rgba@),
{
    let info = bitmap_info(width, height);
    let mut r = header_bytes(&info.bmi_header);
    let ghost head = r@;
    let n = rgba.len();
    let pixels = n / 4;
    let mut p: usize = 0;
    while p < pixels
        invariant
            n == rgba@.len(),
            pixels == n / 4,
            p <= pixels,
            head.len() == 40,
            r@.len() == 40 + p * 4,
            r@.subrange(0, 40) == head,
            forall|k: int| 0 <= k < p * 4 ==> #[trigger] r@[40 + k] == (if k % 4 == 3 {
                rgba@[k]
            } else {
                rgba@[(k / 4) * 4 + 2 - k % 4]
            }),
        decreases pixels - p,
    {
        let base = p * 4;
        let ghost before = r@;
        r.push(rgba[base + 2]);
        r.push(rgba[base + 1]);
        r.push(rgba[base]);
        r.push(rgba[base + 3]);
        assert(r@.subrange(0, 40) =~= before.subrange(0, 40));
        assert forall|k: int| 0 <= k < (p + 1) * 4 implies #[trigger] r@[40 + k] == (if k % 4 == 3 {
            rgba@[k]
        } else {
            rgba@[(k / 4) * 4 + 2 - k % 4]
        }) by {
            if k >= p * 4 {
                assert(k / 4 == p);
            } else {
                assert(r@[40 + k] == before[40 + k]);
            }
        }
        p = p + 1;
    }
    assert(r@ =~= head + swapped_to_bgra(rgba@)) by {
        assert forall|k: int| 0 <= k < r@.len() implies r@[k] == (head + swapped_to_bgra(rgba@))[k] by {
            if k < 40 {
                assert(r@[k] == r@.subrange(0, 40)[k]);
            } else {
                assert(r@[40 + (k - 40)] == r@[k]);
            }
        }
    }
    r
}


/// Why clipboard bytes are not a usable image.
#[derive(Clone, Copy, Debug, PartialEq, Eq, Structural)]
pub enum DibError {
    /// Fewer bytes than a header.
    Invalid,
    /// A zero width or height, or pixels of neither 24 nor 32 bits.
    Unsupported,
    /// The header size is too small or the pixel rows reach past the data.
    Incomplete,
}

impl DibError {
    /// The message shown for the error.
    pub fn message(self) -> (r: &'static str)
        ensures
            r@ == match self {
                DibError::Invalid => "剪贴板图像数据无效"@,
                DibError::Unsupported => "暂不支持该剪贴板图像格式"@,
                DibError::Incomplete => "剪贴板图像数据不完整"@,
            },
    {
        match self {
            DibError::Invalid => "剪贴板图像数据无效",
            DibError::Unsupported => "暂不支持该剪贴板图像格式",
            DibError::Incomplete => "剪贴板图像数据不完整",
        }
    }
}

/// A decoded clipboard image: its size and its pixels as top-down RGBA rows.
#[derive(Clone, Debug)]
pub struct DibImage {
    pub width: u32,
    pub height: u32,
    pub rgba: Vec<u8>,
}

/// The unsigned 16-bit value stored little-endian at `i`.
pub open spec fn le_u16_at(b: Seq<u8>, i: int) -> int {
    b[i] + 256 * b[i + 1]
}

/// The unsigned 32-bit value stored little-endian at `i`.
pub open spec fn le_u32_at(b: Seq<u8>, i: int) -> int {
    b[i] + 256 * b[i + 1] + 65536 * b[i + 2] + 16777216 * b[i + 3]
}

/// The signed 32-bit value stored little-endian at `i`.
pub open spec fn le_i32_at(b: Seq<u8>, i: int) -> int {
    let u = le_u32_at(b, i);
    if u >= 0x8000_0000 {
        u - 0x1_0000_0000
    } else {
        u
    }
}

/// The magnitude of `v`.
pub open spec fn magnitude(v: int) -> int {
    if v < 0 {
        -v
    } else {
        v
    }
}

/// The width of the bitmap in the header at the start of `b`.
pub open spec fn dib_width(b: Seq<u8>) -> int {
    magnitude(le_i32_at(b, 4))
}

/// The height of the bitmap in the header at the start of `b`.
pub open spec fn dib_height(b: Seq<u8>) -> int {
    magnitude(le_i32_at(b, 8))
}

/// The bits per pixel in the header at the start of `b`.
pub open spec fn dib_bits(b: Seq<u8>) -> int {
    le_u16_at(b, 14)
}

/// The size of the header at the start of `b`, as the header states it.
pub open spec fn dib_header_size(b: Seq<u8>) -> int {
    le_u32_at(b, 0)
}

/// The bytes of one pixel row: whole 32-bit words.
pub open spec fn dib_stride(b: Seq<u8>) -> int {
    ((dib_width(b) * dib_bits(b) + 31) / 32) * 4
}

/// `v` saturated at `usize::MAX`.
pub open spec fn usize_saturated(v: int) -> int {
    if v > usize::MAX {
        usize::MAX as int
    } else {
        v
    }
}

/// The bytes that the header and all pixel rows take, saturated at `usize::MAX`.
pub open spec fn dib_required(b: Seq<u8>) -> int {
    usize_saturated(dib_header_size(b) + usize_saturated(dib_stride(b) * dib_height(b)))
}

/// Why `b` is not a usable bitmap, if it is not.
pub open spec fn dib_problem(b: Seq<u8>) -> Option<DibError> {
    if b.len() < 40 {
        Some(DibError::Invalid)
    } else if dib_width(b) == 0 || dib_height(b) == 0 || !(dib_bits(b) == 24 || dib_bits(b) == 32) {
        Some(DibError::Unsupported)
    } else if dib_header_size(b) < 40 || dib_required(b) > b.len() {
        Some(DibError::Incomplete)
    } else {
        None
    }
}

/// Byte `k` of the decoded RGBA pixels: pixel `k / 4` in row-major order from the top, taken
/// from its row (rows are stored bottom-up when the height is positive), with its blue,
/// green and red bytes reordered; 32-bit pixels keep their alpha, except that zero alpha
/// counts as opaque, and 24-bit pixels are opaque.
pub open spec fn dib_channel(b: Seq<u8>, k: int) -> u8 {
    let w = dib_width(b);
    let h = dib_height(b);
    let p = k / 4;
    let y = p / w;
    let x = p % w;
    let c = k % 4;
    let source_y = if le_i32_at(b, 8) > 0 { h - 1 - y } else { y };
    let base = dib_header_size(b) + source_y * dib_stride(b) + x * (dib_bits(b) / 8);
    if c == 0 {
        b[base + 2]
    } else if c == 1 {
        b[base + 1]
    } else if c == 2 {
        b[base]
    } else if dib_bits(b) == 32 {
        if b[base + 3] == 0 {
            255u8
        } else {
            b[base + 3]
        }
    } else {
        255u8
    }
}

fn read_u16(b: &[u8], i: usize) -> (r: u64)
    requires
        i + 2 <= b@.len(),
    ensures
        r == le_u16_at(b@, i as int),
{
    b[i] as u64 + 256 * b[i + 1] as u64
}

fn read_u32(b: &[u8], i: usize) -> (r: u64)
    requires
        i + 4 <= b@.len(),
    ensures
        r == le_u32_at(b@, i as int),
{
    b[i] as u64 + 256 * b[i + 1] as u64 + 65536 * b[i + 2] as u64 + 16777216 * b[i + 3] as u64
}

fn read_magnitude(b: &[u8], i: usize) -> (r: (u64, bool))
    requires
        i + 4 <= b@.len(),
    ensures
        r.0 == magnitude(le_i32_at(b@, i as int)),
        r.0 <= 0x8000_0000,
        r.1 == (le_i32_at(b@, i as int) > 0),
{
    let u = read_u32(b, i);
    if u >= 0x8000_0000 {
        (0x1_0000_0000 - u, false)
    } else {
        (u, u > 0)
    }
}

proof fn lemma_row_fits(source_y: int, h: int, stride: int)
    requires
        0 <= source_y < h,
        stride >= 0,
    ensures
        source_y * stride + stride <= h * stride,
        source_y * stride + stride <= stride * h,
{
    assert(source_y * stride + stride <= h * stride) by (nonlinear_arith)
        requires
            0 <= source_y < h,
            stride >= 0,
    ;
}

proof fn lemma_pixel_fits_row(x: int, w: int, bits: int)
    requires
        0 <= x < w,
        bits == 24 || bits == 32,
    ensures
        x * (bits / 8) + (bits / 8) <= ((w * bits + 31) / 32) * 4,
{
    if bits == 24 {
        assert(x * 3 + 3 <= ((w * 24 + 31) / 32) * 4) by (nonlinear_arith)
            requires
                0 <= x < w,
        ;
    } else {
        assert(x * 4 + 4 <= ((w * 32 + 31) / 32) * 4) by (nonlinear_arith)
            requires
                0 <= x < w,
        ;
    }
}

/// Decodes the clipboard's `CF_DIB` bytes into top-down RGBA pixels.
#[verifier::rlimit(60)]
pub fn decode_dib(bytes: &[u8]) -> (r: Result<DibImage, DibError>)
    requires
        bytes@.len() <= isize::MAX,
    ensures
        match r {
            Err(e) => dib_problem(bytes@) == Some(e),
            Ok(image) => dib_problem(bytes@) is None && image.width == dib_width(bytes@)
                && image.height == dib_height(bytes@) && image.rgba@.len() == image.width
                * image.height * 4 && forall|k: int|
                0 <= k < image.rgba@.len() ==> #[trigger] image.rgba@[k] == dib_channel(bytes@, k),
        },
{
    let n = bytes.len();
    if n < 40 {
        return Err(DibError::Invalid);
    }
    let header_size = read_u32(bytes, 0);
    let (w, _) = read_magnitude(bytes, 4);
    let (h, bottom_up) = read_magnitude(bytes, 8);
    let bits = read_u16(bytes, 14);
    if w == 0 || h == 0 || !(bits == 24 || bits == 32) {
        return Err(DibError::Unsupported);
    }
    assert(w * bits <= 0x8000_0000 * 32) by (nonlinear_arith)
        requires
            w <= 0x8000_0000,
            bits <= 32,
    ;
    let stride: u64 = ((w * bits + 31) / 32) * 4;
    assert(stride * h <= 0x10_0000_0000 * 0x8000_0000) by (nonlinear_arith)
        requires
            stride <= 0x10_0000_0000,
            h <= 0x8000_0000,
    ;
    let rows: u128 = stride as u128 * h as u128;
    let rows_saturated: u128 = if rows > usize::MAX as u128 { usize::MAX as u128 } else { rows };
    let total: u128 = header_size as u128 + rows_saturated;
    let required: u128 = if total > usize::MAX as u128 { usize::MAX as u128 } else { total };
    assert(stride == dib_stride(bytes@));
    assert(required == dib_required(bytes@));
    if header_size < 40 || required > n as u128 {
        return Err(DibError::Incomplete);
    }
    assert(header_size + stride * h <= n);
    let bpp: u64 = bits / 8;
    let mut rgba: Vec<u8> = Vec::new();
    let mut y: u64 = 0;
    let ghost b = bytes@;
    while y < h
        invariant
            b == bytes@,
            n == b.len(),
            n <= isize::MAX,
            dib_problem(b) is None,
            w == dib_width(b),
            h == dib_height(b),
            bits == dib_bits(b),
            bpp == bits / 8,
            stride == dib_stride(b),
            header_size == dib_header_size(b),
            bottom_up == (le_i32_at(b, 8) > 0),
            header_size + stride * h <= n,
            0 < w <= 0x8000_0000,
            0 < h <= 0x8000_0000,
            y <= h,
            rgba@.len() == y * w * 4,
            forall|k: int| 0 <= k < rgba@.len() ==> #[trigger] rgba@[k] == dib_channel(b, k),
        decreases h - y,
    {
        let source_y: u64 = if bottom_up { h - 1 - y } else { y };
        proof {
            lemma_row_fits(source_y as int, h as int, stride as int);
        }
        let row: u64 = header_size + source_y * stride;
        let mut x: u64 = 0;
        while x < w
            invariant
                b == bytes@,
                n == b.len(),
                dib_problem(b) is None,
                w == dib_width(b),
                h == dib_height(b),
                bits == dib_bits(b),
                bits == 24 || bits == 32,
                bpp == bits / 8,
                stride == dib_stride(b),
                header_size == dib_header_size(b),
                source_y == (if le_i32_at(b, 8) > 0 { h - 1 - y } else { y as int }),
                row == header_size + source_y * stride,
                row + stride <= n,
                0 < w <= 0x8000_0000,
                y < h,
                x <= w,
                rgba@.len() == (y * w + x) * 4,
                forall|k: int| 0 <= k < rgba@.len() ==> #[trigger] rgba@[k] == dib_channel(b, k),
            decreases w - x,
        {
            proof {
                lemma_pixel_fits_row(x as int, w as int, bits as int);
            }
            let source = (row + x * bpp) as usize;
            let ghost pos = y * w + x;
            let ghost before = rgba@;
            rgba.push(bytes[source + 2]);
            rgba.push(bytes[source + 1]);
            rgba.push(bytes[source]);
            let alpha: u8 = if bits == 32 {
                let a = bytes[source + 3];
                if a == 0 { 255 } else { a }
            } else {
                255
            };
            rgba.push(alpha);
            proof {
                vstd::arithmetic::div_mod::lemma_fundamental_div_mod_converse(pos, w as int, y as int, x as int);
                assert forall|k: int| 0 <= k < rgba@.len() implies #[trigger] rgba@[k] == dib_channel(b, k) by {
                    if k >= pos * 4 {
                        assert(k / 4 == pos);
                    } else {
                        assert(rgba@[k] == before[k]);
                    }
                }
                assert((y * w + x + 1) * 4 == (y * w + x) * 4 + 4);
            }
            x = x + 1;
        }
        proof {
            assert((y * w + w) * 4 == (y + 1) * w * 4) by (nonlinear_arith);
        }
        y = y + 1;
    }
    assert(h * w * 4 == w * h * 4) by (nonlinear_arith);
    Ok(DibImage { width: w as u32, height: h as u32, rgba })
}


proof fn lemma_le32_reads_back(v: u32)
    ensures
        ((v % 256) as u8) + 256 * (((v / 256) % 256) as u8) + 65536 * (((v / 65536) % 256) as u8)
            + 16777216 * ((v / 16777216) as u8) == v,
{
    assert(((v % 256) as u8) as u32 + 256 * (((v / 256) % 256) as u8) as u32 + 65536 * (((v
        / 65536) % 256) as u8) as u32 + 16777216 * ((v / 16777216) as u8) as u32 == v)
        by (bit_vector);
}

proof fn lemma_negated_height_reads_back(h: i32)
    requires
        0 < h,
    ensures
        (((-h) as i32) as u32) as int == 0x1_0000_0000 - h,
{
    assert(0 < h ==> (((-h) as i32) as u32) as int == 0x1_0000_0000 - h) by (bit_vector);
}

/// Copying an image to the clipboard and reading it back gives the image back: the `CF_DIB`
/// bytes of a `width × height` RGBA image decode to the same size and the same pixels, as
/// long as no pixel is fully transparent (zero alpha reads back as opaque).
pub proof fn lemma_dib_round_trip(width: i32, height: i32, rgba: Seq<u8>)
    requires
        width > 0,
        height > 0,
        rgba.len() == width * height * 4,
        forall|p: int| 0 <= p < width * height ==> #[trigger] rgba[4 * p + 3] != 0,
    ensures
        ({
            let bytes = header_layout(top_down_header(width, height)) + swapped_to_bgra(rgba);
            &&& dib_problem(bytes) is None
            &&& dib_width(bytes) == width
            &&& dib_height(bytes) == height
            &&& forall|k: int| 0 <= k < rgba.len() ==> #[trigger] dib_channel(bytes, k) == rgba[k]
        }),
{
    let h = top_down_header(width, height);
    let head = header_layout(h);
    let pixels = swapped_to_bgra(rgba);
    let bytes = head + pixels;
    assert(head.len() == 40);
    lemma_le32_reads_back(40);
    lemma_le32_reads_back(width as u32);
    lemma_le32_reads_back(((-height) as i32) as u32);
    lemma_negated_height_reads_back(height);
    assert(bytes[0] == head[0] && bytes[1] == head[1] && bytes[2] == head[2] && bytes[3] == head[3]);
    assert(dib_header_size(bytes) == 40);
    assert(bytes[4] == head[4] && bytes[5] == head[5] && bytes[6] == head[6] && bytes[7] == head[7]);
    assert(le_u32_at(bytes, 4) == width);
    assert(dib_width(bytes) == width);
    assert(bytes[8] == head[8] && bytes[9] == head[9] && bytes[10] == head[10] && bytes[11] == head[11]);
    assert(le_u32_at(bytes, 8) == 0x1_0000_0000 - height);
    assert(le_i32_at(bytes, 8) == -height);
    assert(dib_height(bytes) == height);
    assert(bytes[14] == head[14] && bytes[15] == head[15]);
    assert(dib_bits(bytes) == 32);
    assert(((width * 32 + 31) / 32) * 4 == width * 4) by (nonlinear_arith)
        requires
            width > 0,
    ;
    assert(dib_stride(bytes) == width * 4);
    assert((rgba.len() / 4) * 4 == rgba.len());
    assert(bytes.len() == 40 + width * height * 4);
    assert(width * 4 * height == width * height * 4) by (nonlinear_arith);
    assert(dib_required(bytes) <= bytes.len());
    assert(dib_problem(bytes) is None);
    assert forall|k: int| 0 <= k < rgba.len() implies #[trigger] dib_channel(bytes, k) == rgba[k] by {
        let p = k / 4;
        let y = p / (width as int);
        let x = p % (width as int);
        vstd::arithmetic::div_mod::lemma_fundamental_div_mod(p, width as int);
        assert(p == (width as int) * y + x);
        assert(0 <= x < width);
        assert(0 <= p < width * height) by (nonlinear_arith)
            requires
                p == k / 4,
                0 <= k < width * height * 4,
        ;
        assert(y * (width * 4) + x * 4 == 4 * p) by (nonlinear_arith)
            requires
                p == (width as int) * y + x,
        ;
        assert(k == 4 * p + k % 4);
        let base = 40 + 4 * p;
        assert(bytes[base] == pixels[4 * p]);
        assert(bytes[base + 1] == pixels[4 * p + 1]);
        assert(bytes[base + 2] == pixels[4 * p + 2]);
        assert(bytes[base + 3] == pixels[4 * p + 3]);
        assert((4 * p) / 4 == p && (4 * p) % 4 == 0);
        assert((4 * p + 1) / 4 == p && (4 * p + 1) % 4 == 1);
        assert((4 * p + 2) / 4 == p && (4 * p + 2) % 4 == 2);
        assert((4 * p + 3) / 4 == p && (4 * p + 3) % 4 == 3);
        assert(rgba[4 * p + 3] != 0);
    }
}

} // verus!
