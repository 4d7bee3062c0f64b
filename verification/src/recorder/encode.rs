//! What the writers of recorded files decide before any byte is written: the timing of
//! GIF frames, the pixel layout they take, the order of raw video and audio data kept
//! for FFmpeg, and the FFmpeg command that muxes them.
use vstd::prelude::*;
use crate::i18n::{pick, text, Language};
use crate::text::{chars_of, decimal, decimal_chars, extend_chars, labelled, string_of};

verus! {

/// Why a GIF recording cannot be written.
#[derive(Clone, Copy, Debug, PartialEq, Eq, Structural)]
pub enum GifError {
    /// The width does not fit the 16-bit field of the format.
    WidthTooLarge,
    /// The height does not fit the 16-bit field of the format.
    HeightTooLarge,
    /// GIF recordings run at 10 or 20 frames per second only.
    UnsupportedFrameRate,
    /// A frame does not hold `width × height` BGRA pixels.
    InvalidFrameLength { actual: usize, expected: u64 },
    /// Two frames lie too far apart for the 16-bit delay field.
    IntervalTooLong,
}

/// The message shown for a GIF error.
pub open spec fn gif_error_text(error: GifError, language: Language) -> Seq<char> {
    match error {
        GifError::WidthTooLarge => pick(
            language,
            "GIF 宽度超过格式限制"@,
            "The GIF width exceeds the format limit"@,
        ),
        GifError::HeightTooLarge => pick(
            language,
            "GIF 高度超过格式限制"@,
            "The GIF height exceeds the format limit"@,
        ),
        GifError::UnsupportedFrameRate => pick(
            language,
            "GIF 帧率必须为 10 或 20 FPS"@,
            "The GIF frame rate must be 10 or 20 FPS"@,
        ),
        GifError::InvalidFrameLength { actual, expected } => labelled(
            pick(
                language,
                "GIF 输入帧的像素长度无效"@,
                "The GIF input frame has an invalid pixel length"@,
            ),
            decimal(actual as nat) + " != "@ + decimal(expected as nat),
        ),
        GifError::IntervalTooLong => pick(
            language,
            "GIF 相邻帧的时间间隔超过格式限制"@,
            "The interval between GIF frames exceeds the format limit"@,
        ),
    }
}

/// `"{head}: {left}{middle}{right}"` with the two numbers in decimal.
fn numbers_message(head: &str, left: u64, middle: &str, right: u64) -> (r: String)
    ensures
        r@ == labelled(head@, decimal(left as nat) + middle@ + decimal(right as nat)),
{
    let mut v = chars_of(head);
    v.push(':');
    v.push(' ');
    extend_chars(&mut v, &decimal_chars(left));
    extend_chars(&mut v, &chars_of(middle));
    extend_chars(&mut v, &decimal_chars(right));
    proof {
        assert(v@ =~= labelled(head@, decimal(left as nat) + middle@ + decimal(right as nat)));
    }
    string_of(&v)
}

impl GifError {
    /// The message shown for the error.
    pub fn message(self, language: Language) -> (r: String)
        ensures
            r@ == gif_error_text(self, language),
    {
        match self {
            GifError::WidthTooLarge => text(
                language,
                "GIF 宽度超过格式限制",
                "The GIF width exceeds the format limit",
            ).to_owned(),
            GifError::HeightTooLarge => text(
                language,
                "GIF 高度超过格式限制",
                "The GIF height exceeds the format limit",
            ).to_owned(),
            GifError::UnsupportedFrameRate => text(
                language,
                "GIF 帧率必须为 10 或 20 FPS",
                "The GIF frame rate must be 10 or 20 FPS",
            ).to_owned(),
            GifError::InvalidFrameLength { actual, expected } => numbers_message(
                text(
                    language,
                    "GIF 输入帧的像素长度无效",
                    "The GIF input frame has an invalid pixel length",
                ),
                actual as u64,
                " != ",
                expected,
            ),
            GifError::IntervalTooLong => text(
                language,
                "GIF 相邻帧的时间间隔超过格式限制",
                "The interval between GIF frames exceeds the format limit",
            ).to_owned(),
        }
    }
}

/// The delay of one frame, in hundredths of a second, at a supported frame rate.
pub open spec fn gif_frame_delay(frames_per_second: u32) -> Option<u16> {
    if frames_per_second == 10 {
        Some(10u16)
    } else if frames_per_second == 20 {
        Some(5u16)
    } else {
        None
    }
}

/// The RGBA form of BGRA pixels, every pixel made opaque.
pub open spec fn bgra_to_rgba(bgra: Seq<u8>) -> Seq<u8> {
    Seq::new(
        bgra.len(),
        |i: int|
            if i % 4 == 0 {
                bgra[i + 2]
            } else if i % 4 == 1 {
                bgra[i]
            } else if i % 4 == 2 {
                bgra[i - 2]
            } else {
                255u8
            },
    )
}

/// The delay written for a frame that is followed by the frame `gap` indices later:
/// `max(gap, 1)` frame delays, when that fits 16 bits.
pub open spec fn gap_delay(gap: int, frame_delay: u16) -> Option<u16> {
    let frames = if gap < 1 { 1 } else { gap };
    if frames * frame_delay <= u16::MAX {
        Some((frames * frame_delay) as u16)
    } else {
        None
    }
}

/// The frames of a GIF recording, held back one at a time: a frame's delay is known only
/// when the next frame arrives.
pub struct GifTimeline {
    frame_delay: u16,
    width: u16,
    height: u16,
    pending: Option<(u64, Vec<u8>)>,
}

/// A frame ready to be encoded: RGBA pixels and a delay in hundredths of a second.
pub struct GifFrame {
    pub rgba: Vec<u8>,
    pub delay: u16,
}

/// A GIF frame as the `gif` crate stores it: a palette of RGB triples, one palette index
/// per pixel, the index that stands for transparent pixels if any, and the delay.
pub struct GifFrameData {
    pub width: u16,
    pub height: u16,
    pub delay: u16,
    pub palette: Vec<u8>,
    pub indices: Vec<u8>,
    pub transparent: Option<u8>,
}

/// The palette, index buffer and transparent index of `gif::Frame::from_rgba_speed`.
pub uninterp spec fn gif_quantized(width: u16, height: u16, rgba: Seq<u8>, speed: i32) -> (Seq<u8>, Seq<u8>, Option<u8>);

/// `gif::Frame::from_rgba_speed` on a copy of `rgba`, handing out the frame's palette,
/// index buffer and transparent index. The function panics unless `rgba` holds
/// `width × height` pixels and `speed` is in 1 … 30, which `requires` rules out. Its
/// result is a function of its arguments (the exact colours are sorted before they are
/// numbered, and `NeuQuant` is deterministic). It makes one index per pixel, and its
/// palette is the RGB triples of at most 256 colours (the exact colours when there are at
/// most 256, else the 256 colours of `NeuQuant`).
#[verifier::external_body]
fn quantize_rgba(width: u16, height: u16, rgba: &[u8], speed: i32) -> (r: (Vec<u8>, Vec<u8>, Option<u8>))
    requires
        rgba@.len() == width * height * 4,
        1 <= speed <= 30,
    ensures
        (r.0@, r.1@, r.2) == gif_quantized(width, height, rgba@, speed),
        r.1@.len() == width * height,
        r.0@.len() % 3 == 0,
        r.0@.len() <= 768,
{
    let mut pixels = rgba.to_vec();
    let frame = gif::Frame::from_rgba_speed(width, height, &mut pixels, speed);
    (frame.palette.unwrap_or_default(), frame.buffer.into_owned(), frame.transparent)
}

/// Quantizes a frame of the timeline to at most 256 colours with `gif`'s quantizer, at the
/// speed 10 that trades quality against time evenly, keeping its delay.
pub fn gif_frame_data(width: u16, height: u16, frame: &GifFrame) -> (r: GifFrameData)
    requires
        frame.rgba@.len() == width * height * 4,
    ensures
        r.width == width,
        r.height == height,
        r.delay == frame.delay,
        (r.palette@, r.indices@, r.transparent) == gif_quantized(width, height, frame.rgba@, 10),
        r.indices@.len() == width * height,
        r.palette@.len() % 3 == 0,
        r.palette@.len() <= 768,
{
    let (palette, indices, transparent) = quantize_rgba(width, height, frame.rgba.as_slice(), 10);
    GifFrameData { width, height, delay: frame.delay, palette, indices, transparent }
}

impl GifTimeline {
    pub closed spec fn delay_unit(&self) -> u16 {
        self.frame_delay
    }

    pub closed spec fn frame_width(&self) -> u16 {
        self.width
    }

    pub closed spec fn frame_height(&self) -> u16 {
        self.height
    }

    /// The index and pixels of the frame held back, if any.
    pub closed spec fn held(&self) -> Option<(u64, Seq<u8>)> {
        match self.pending {
            Some((index, rgba)) => Some((index, rgba@)),
            None => None,
        }
    }

    /// Starts a GIF of `width × height` pixels at `frames_per_second`. The width is checked
    /// first, then the height, then the frame rate.
    pub fn create(width: u32, height: u32, frames_per_second: u32) -> (r: Result<Self, GifError>)
        ensures
            r == if width > u16::MAX {
                Err::<Self, GifError>(GifError::WidthTooLarge)
            } else if height > u16::MAX {
                Err(GifError::HeightTooLarge)
            } else if gif_frame_delay(frames_per_second) is None {
                Err(GifError::UnsupportedFrameRate)
            } else {
                r
            },
            width <= u16::MAX && height <= u16::MAX && gif_frame_delay(frames_per_second) is Some
                ==> r is Ok,
            r is Ok ==> r->Ok_0.frame_width() == width && r->Ok_0.frame_height() == height
                && Some(r->Ok_0.delay_unit()) == gif_frame_delay(frames_per_second)
                && r->Ok_0.held() is None,
    {
        if width > u16::MAX as u32 {
            return Err(GifError::WidthTooLarge);
        }
        if height > u16::MAX as u32 {
            return Err(GifError::HeightTooLarge);
        }
        let frame_delay: u16 = if frames_per_second == 10 {
            10
        } else if frames_per_second == 20 {
            5
        } else {
            return Err(GifError::UnsupportedFrameRate);
        };
        Ok(GifTimeline { frame_delay, width: width as u16, height: height as u16, pending: None })
    }

    /// Takes the BGRA frame with index `frame_index`. The frame is converted to RGBA and
    /// held back; the frame held before is handed out with a delay covering the frames
    /// between the two indices, so skipped indices keep their time.
    pub fn push_frame(&mut self, frame_index: u64, bgra: &[u8]) -> (r: Result<
        Option<GifFrame>,
        GifError,
    >)
        ensures
            final(self).delay_unit() == old(self).delay_unit(),
            final(self).frame_width() == old(self).frame_width(),
            final(self).frame_height() == old(self).frame_height(),
            bgra@.len() != old(self).frame_width() * old(self).frame_height() * 4 ==> r == Err::<
                Option<GifFrame>,
                GifError,
            >(
                GifError::InvalidFrameLength {
                    actual: bgra@.len() as usize,
                    expected: (old(self).frame_width() * old(self).frame_height() * 4) as u64,
                },
            ) && final(self).held() == old(self).held(),
            bgra@.len() == old(self).frame_width() * old(self).frame_height() * 4 ==> {
                &&& final(self).held() == Some((frame_index, bgra_to_rgba(bgra@)))
                &&& match old(self).held() {
                    None => r matches Ok(None),
                    Some((previous, rgba)) => match gap_delay(
                        frame_index - previous,
                        old(self).delay_unit(),
                    ) {
                        Some(delay) => (r matches Ok(Some(f)) && f.rgba@ == rgba && f.delay
                            == delay),
                        None => r == Err::<Option<GifFrame>, GifError>(GifError::IntervalTooLong),
                    },
                }
            },
    {
        let pixels: u64 = crate::scale::wide_product(self.width as u32, self.height as u32);
        proof {
            assert(pixels <= 65535 * 65535) by (nonlinear_arith)
                requires
                    pixels as int == (self.width as int) * (self.height as int),
                    self.width <= 65535,
                    self.height <= 65535,
            ;
        }
        let expected: u64 = pixels * 4;
        if bgra.len() as u64 != expected {
            return Err(GifError::InvalidFrameLength { actual: bgra.len(), expected });
        }
        let rgba = rgba_from_bgra(bgra);
        let mut previous = Some((frame_index, rgba));
        std::mem::swap(&mut previous, &mut self.pending);
        match previous {
            None => Ok(None),
            Some((previous_index, previous_rgba)) => {
                let gap: u64 = if frame_index > previous_index {
                    frame_index - previous_index
                } else {
                    0
                };
                let frames: u64 = if gap < 1 { 1 } else { gap };
                proof {
                    assert((frames as int) * (self.frame_delay as int) <= u64::MAX * u16::MAX)
                        by (nonlinear_arith)
                        requires
                            frames <= u64::MAX,
                            self.frame_delay <= u16::MAX,
                    ;
                }
                let delay_wide: u128 = (frames as u128) * (self.frame_delay as u128);
                if delay_wide > u16::MAX as u128 {
                    return Err(GifError::IntervalTooLong);
                }
                Ok(Some(GifFrame { rgba: previous_rgba, delay: delay_wide as u16 }))
            },
        }
    }

    /// Hands out the frame held back, with a delay of one frame.
    pub fn finish(self) -> (r: Option<GifFrame>)
        ensures
            match self.held() {
                None => r is None,
                Some((_, rgba)) => r matches Some(f) && f.rgba@ == rgba && f.delay
                    == self.delay_unit(),
            },
    {
        match self.pending {
            Some((_, rgba)) => Some(GifFrame { rgba, delay: self.frame_delay }),
            None => None,
        }
    }
}

/// Converts BGRA pixels to RGBA, every pixel made opaque.
pub fn rgba_from_bgra(bgra: &[u8]) -> (r: Vec<u8>)
    requires
        bgra@.len() % 4 == 0,
    ensures
        r@ == bgra_to_rgba(bgra@),
{
    let n = bgra.len();
    let mut r: Vec<u8> = Vec::new();
    let mut i: usize = 0;
    while i < n
        invariant
            n == bgra@.len(),
            n % 4 == 0,
            i % 4 == 0,
            i <= n,
            r@.len() == i,
            forall|k: int| 0 <= k < i ==> #[trigger] r@[k] == bgra_to_rgba(bgra@)[k],
        decreases n - i,
    {
        let ghost before = r@;
        r.push(bgra[i + 2]);
        r.push(bgra[i + 1]);
        r.push(bgra[i]);
        r.push(255);
        proof {
            let ii = i as int;
            assert(ii % 4 == 0 && (ii + 1) % 4 == 1 && (ii + 2) % 4 == 2 && (ii + 3) % 4 == 3);
            assert forall|k: int| 0 <= k < ii + 4 implies #[trigger] r@[k] == bgra_to_rgba(
                bgra@,
            )[k] by {
                if k < ii {
                    assert(r@[k] == before[k]);
                }
            }
        }
        i = i + 4;
    }
    assert(r@ =~= bgra_to_rgba(bgra@));
    r
}

/// Frames that a GIF writer was handed, in the order they arrived: their indices and the
/// delays it wrote for them. Delays add up to the time between the first and last frame
/// plus one frame, whenever the indices increase: no time is lost when the recording
/// skipped indices to catch up.
pub open spec fn total_delay(indices: Seq<int>, frame_delay: int) -> int
    decreases indices.len(),
{
    if indices.len() == 0 {
        0
    } else if indices.len() == 1 {
        frame_delay
    } else {
        (indices[1] - indices[0]) * frame_delay + total_delay(indices.drop_first(), frame_delay)
    }
}

/// For strictly increasing indices, the delays of a GIF add up to the span of the indices
/// plus one frame.
pub proof fn lemma_gif_delays_cover_span(indices: Seq<int>, frame_delay: int)
    requires
        indices.len() > 0,
        forall|i: int, j: int| 0 <= i < j < indices.len() ==> indices[i] < indices[j],
    ensures
        total_delay(indices, frame_delay) == (indices.last() - indices[0]) * frame_delay
            + frame_delay,
    decreases indices.len(),
{
    if indices.len() == 1 {
        assert(indices.last() == indices[0]);
        assert((indices.last() - indices[0]) * frame_delay == 0);
    } else {
        let rest = indices.drop_first();
        assert forall|i: int, j: int| 0 <= i < j < rest.len() implies rest[i] < rest[j] by {
            assert(indices[i + 1] < indices[j + 1]);
        }
        lemma_gif_delays_cover_span(rest, frame_delay);
        let a = indices[0];
        let b = indices[1];
        let c = indices.last();
        assert(rest.last() == c && rest[0] == b);
        assert(total_delay(indices, frame_delay) == (b - a) * frame_delay + total_delay(rest, frame_delay));
        assert((b - a) * frame_delay + ((c - b) * frame_delay + frame_delay) == (c - a)
            * frame_delay + frame_delay) by (nonlinear_arith);
    }
}

/// Why raw data for FFmpeg cannot be written.
#[derive(Clone, Copy, Debug, PartialEq, Eq, Structural)]
pub enum RawWriteError {
    /// A video frame does not hold `width × height` BGRA pixels.
    FrameSize { expected: u64, actual: usize },
    /// A video frame does not follow the previous one.
    VideoGap { expected: u64, actual: u64 },
    /// Audio does not continue where the previous write ended.
    AudioGap { expected: u64, actual: u64 },
    /// The audio samples do not form whole stereo frames.
    PartialStereoFrame,
}

/// The message shown for a raw data error: what was expected and what came.
pub open spec fn raw_write_error_text(error: RawWriteError, language: Language) -> Seq<char> {
    match error {
        RawWriteError::FrameSize { expected, actual } => labelled(
            pick(language, "视频帧字节数不正确"@, "The video frame byte count is invalid"@),
            "expected "@ + decimal(expected as nat) + ", got "@ + decimal(actual as nat),
        ),
        RawWriteError::VideoGap { expected, actual } => labelled(
            pick(language, "视频帧时间轴不连续"@, "The video frame timeline is not contiguous"@),
            "expected "@ + decimal(expected as nat) + ", got "@ + decimal(actual as nat),
        ),
        RawWriteError::AudioGap { expected, actual } => labelled(
            pick(language, "音频采样时间轴不连续"@, "The audio sample timeline is not contiguous"@),
            "expected "@ + decimal(expected as nat) + ", got "@ + decimal(actual as nat),
        ),
        RawWriteError::PartialStereoFrame => pick(
            language,
            "音频采样不是立体声帧"@,
            "The audio samples do not contain complete stereo frames"@,
        ),
    }
}

fn expected_got(head: &str, expected: u64, actual: u64) -> (r: String)
    ensures
        r@ == labelled(
            head@,
            "expected "@ + decimal(expected as nat) + ", got "@ + decimal(actual as nat),
        ),
{
    let mut v = chars_of(head);
    v.push(':');
    v.push(' ');
    extend_chars(&mut v, &chars_of("expected "));
    extend_chars(&mut v, &decimal_chars(expected));
    extend_chars(&mut v, &chars_of(", got "));
    extend_chars(&mut v, &decimal_chars(actual));
    proof {
        assert(v@ =~= labelled(
            head@,
            "expected "@ + decimal(expected as nat) + ", got "@ + decimal(actual as nat),
        ));
    }
    string_of(&v)
}

impl RawWriteError {
    /// The message shown for the error.
    pub fn message(self, language: Language) -> (r: String)
        ensures
            r@ == raw_write_error_text(self, language),
    {
        match self {
            RawWriteError::FrameSize { expected, actual } => expected_got(
                text(language, "视频帧字节数不正确", "The video frame byte count is invalid"),
                expected,
                actual as u64,
            ),
            RawWriteError::VideoGap { expected, actual } => expected_got(
                text(language, "视频帧时间轴不连续", "The video frame timeline is not contiguous"),
                expected,
                actual,
            ),
            RawWriteError::AudioGap { expected, actual } => expected_got(
                text(language, "音频采样时间轴不连续", "The audio sample timeline is not contiguous"),
                expected,
                actual,
            ),
            RawWriteError::PartialStereoFrame => text(
                language,
                "音频采样不是立体声帧",
                "The audio samples do not contain complete stereo frames",
            ).to_owned(),
        }
    }
}

/// The order in which raw video frames and audio samples are kept for FFmpeg.
pub struct RawTimeline {
    width: u32,
    height: u32,
    has_audio: bool,
    next_video_frame: u64,
    next_audio_frame: u64,
}

/// What to do with a write that the raw timeline accepted.
#[derive(Clone, Copy, Debug, PartialEq, Eq, Structural)]
pub enum AudioWrite {
    /// There is no audio file: the samples are dropped.
    Skip,
    /// Append the samples, as little-endian bytes, to the audio file.
    Append,
}

/// The little-endian bytes of signed 16-bit samples.
pub open spec fn le_bytes(pcm: Seq<i16>) -> Seq<u8> {
    Seq::new(
        pcm.len() * 2,
        |i: int|
            if i % 2 == 0 {
                ((pcm[i / 2] as int) % 256) as u8
            } else {
                ((pcm[i / 2] as int) / 256 % 256) as u8
            },
    )
}

impl RawTimeline {
    pub closed spec fn video_next(&self) -> int {
        self.next_video_frame as int
    }

    pub closed spec fn audio_next(&self) -> int {
        self.next_audio_frame as int
    }

    pub closed spec fn frame_bytes(&self) -> int {
        self.width * self.height * 4
    }

    pub closed spec fn keeps_audio(&self) -> bool {
        self.has_audio
    }

    /// A timeline for frames of `width × height` pixels, with or without audio.
    pub fn new(width: u32, height: u32, include_audio: bool) -> (r: Self)
        ensures
            r.video_next() == 0,
            r.audio_next() == 0,
            r.frame_bytes() == width * height * 4,
            r.keeps_audio() == include_audio,
    {
        RawTimeline { width, height, has_audio: include_audio, next_video_frame: 0, next_audio_frame: 0 }
    }

    /// Accepts the video frame with index `frame_index` when it has the frame size and
    /// comes right after the previous frame.
    pub fn accept_video(&mut self, frame_index: u64, frame_len: usize) -> (r: Result<(), RawWriteError>)
        requires
            old(self).video_next() < u64::MAX,
        ensures
            final(self).frame_bytes() == old(self).frame_bytes(),
            final(self).keeps_audio() == old(self).keeps_audio(),
            final(self).audio_next() == old(self).audio_next(),
            r == if frame_len != old(self).frame_bytes() {
                Err::<(), RawWriteError>(
                    RawWriteError::FrameSize {
                        expected: old(self).frame_bytes() as u64,
                        actual: frame_len,
                    },
                )
            } else if frame_index != old(self).video_next() {
                Err(
                    RawWriteError::VideoGap {
                        expected: old(self).video_next() as u64,
                        actual: frame_index,
                    },
                )
            } else {
                Ok(())
            },
            final(self).video_next() == if r is Ok {
                old(self).video_next() + 1
            } else {
                old(self).video_next()
            },
    {
        let pixels: u64 = crate::scale::wide_product(self.width, self.height);
        if pixels > u64::MAX / 4 || frame_len as u64 != pixels * 4 {
            proof {
                if pixels > u64::MAX / 4 {
                    assert(old(self).frame_bytes() > u64::MAX);
                }
            }
            return Err(RawWriteError::FrameSize { expected: (pixels as u128 * 4) as u64, actual: frame_len });
        }
        if frame_index != self.next_video_frame {
            return Err(RawWriteError::VideoGap { expected: self.next_video_frame, actual: frame_index });
        }
        self.next_video_frame = self.next_video_frame + 1;
        Ok(())
    }

    /// Accepts `sample_count` interleaved stereo samples starting at audio frame
    /// `start_frame` when they continue the audio written so far; without an audio file
    /// every write is dropped.
    pub fn accept_audio(&mut self, start_frame: u64, sample_count: usize) -> (r: Result<
        AudioWrite,
        RawWriteError,
    >)
        requires
            old(self).audio_next() + sample_count / 2 <= u64::MAX,
        ensures
            final(self).frame_bytes() == old(self).frame_bytes(),
            final(self).keeps_audio() == old(self).keeps_audio(),
            final(self).video_next() == old(self).video_next(),
            r == if !old(self).keeps_audio() {
                Ok::<AudioWrite, RawWriteError>(AudioWrite::Skip)
            } else if start_frame != old(self).audio_next() {
                Err(
                    RawWriteError::AudioGap {
                        expected: old(self).audio_next() as u64,
                        actual: start_frame,
                    },
                )
            } else if sample_count % 2 != 0 {
                Err(RawWriteError::PartialStereoFrame)
            } else {
                Ok(AudioWrite::Append)
            },
            final(self).audio_next() == if r == Ok::<AudioWrite, RawWriteError>(AudioWrite::Append) {
                old(self).audio_next() + sample_count / 2
            } else {
                old(self).audio_next()
            },
    {
        if !self.has_audio {
            return Ok(AudioWrite::Skip);
        }
        if start_frame != self.next_audio_frame {
            return Err(RawWriteError::AudioGap { expected: self.next_audio_frame, actual: start_frame });
        }
        if sample_count % 2 != 0 {
            return Err(RawWriteError::PartialStereoFrame);
        }
        self.next_audio_frame = self.next_audio_frame + (sample_count / 2) as u64;
        Ok(AudioWrite::Append)
    }
}

/// The little-endian bytes of signed 16-bit samples.
pub fn pcm_bytes(pcm: &[i16]) -> (r: Vec<u8>)
    ensures
        r@ == le_bytes(pcm@),
{
    let mut r: Vec<u8> = Vec::new();
    let mut i: usize = 0;
    while i < pcm.len()
        invariant
            i <= pcm@.len(),
            r@.len() == 2 * i,
            forall|k: int| 0 <= k < 2 * i ==> #[trigger] r@[k] == le_bytes(pcm@)[k],
        decreases pcm.len() - i,
    {
        let v: i32 = pcm[i] as i32;
        let low: i32 = v % 256;
        let low_byte: u8 = if low < 0 { (low + 256) as u8 } else { low as u8 };
        let high: i32 = (if v < 0 { (v - 255) / 256 } else { v / 256 }) % 256;
        let high_byte: u8 = if high < 0 { (high + 256) as u8 } else { high as u8 };
        proof {
            let p = pcm@[i as int] as int;
            assert(low_byte as int == p % 256);
            assert(high_byte as int == p / 256 % 256);
        }
        r.push(low_byte);
        r.push(high_byte);
        i = i + 1;
    }
    assert(r@ =~= le_bytes(pcm@));
    r
}

/// The name of a data file kept next to `output_name` while recording: the output's file
/// name (or `shiping` when it has none), a dot and `suffix`.
pub open spec fn sidecar_name_spec(output_name: Option<Seq<char>>, suffix: Seq<char>) -> Seq<char> {
    match output_name {
        Some(n) => n + seq!['.'] + suffix,
        None => "shiping"@ + seq!['.'] + suffix,
    }
}

/// The file name of a data file kept next to the output.
pub fn sidecar_name(output_name: Option<&str>, suffix: &str) -> (r: String)
    ensures
        r@ == sidecar_name_spec(
            match output_name {
                Some(n) => Some(n@),
                None => None,
            },
            suffix@,
        ),
{
    let mut v = match output_name {
        Some(n) => chars_of(n),
        None => chars_of("shiping"),
    };
    v.push('.');
    extend_chars(&mut v, &chars_of(suffix));
    string_of(&v)
}

/// The path of a data file kept next to `output_path` while recording: the output's path
/// with its file name followed by a dot and `suffix`.
pub fn sidecar_path(output_path: &str, suffix: &str) -> (r: String)
    ensures
        forall|name: Seq<char>|
            crate::paths::plain_name(name) && #[trigger] crate::paths::ends_with_component(
                output_path@,
                name,
            ) && crate::paths::portable_path(output_path@) && crate::paths::plain_name(
                sidecar_name_spec(Some(name), suffix@),
            ) ==> exists|prefix: Seq<char>| r@ == prefix + sidecar_name_spec(Some(name), suffix@),
{
    let output_name = crate::paths::file_name(output_path);
    let name = match &output_name {
        Some(n) => sidecar_name(Some(n.as_str()), suffix),
        None => sidecar_name(None, suffix),
    };
    let ghost chosen = match output_name {
        Some(n) => Some(n@),
        None => None::<Seq<char>>,
    };
    assert(name@ == sidecar_name_spec(chosen, suffix@));
    crate::paths::with_file_name(output_path, name.as_str())
}

/// The sample rate of recorded audio.
pub const AUDIO_SAMPLE_RATE: u32 = 48_000;

/// The number of audio channels.
pub const AUDIO_CHANNELS: u32 = 2;

/// The FFmpeg arguments that mux raw BGRA video (and raw 16-bit stereo audio at 48 kHz,
/// when there is any) into an H.264/AAC MP4 file.
pub open spec fn ffmpeg_arguments_spec(
    video_path: Seq<char>,
    audio_path: Option<Seq<char>>,
    output_path: Seq<char>,
    width: u32,
    height: u32,
    frames_per_second: u32,
) -> Seq<Seq<char>> {
    let input = seq![
        "-hide_banner"@,
        "-loglevel"@,
        "error"@,
        "-y"@,
        "-f"@,
        "rawvideo"@,
        "-pixel_format"@,
        "bgra"@,
        "-video_size"@,
        decimal(width as nat) + seq!['x'] + decimal(height as nat),
        "-framerate"@,
        decimal(frames_per_second as nat),
        "-i"@,
        video_path,
    ];
    let audio_input = match audio_path {
        Some(a) => seq![
            "-f"@,
            "s16le"@,
            "-ar"@,
            decimal(AUDIO_SAMPLE_RATE as nat),
            "-ac"@,
            decimal(AUDIO_CHANNELS as nat),
            "-i"@,
            a,
        ],
        None => Seq::empty(),
    };
    let video_codec = seq!["-c:v"@, "libx264"@, "-pix_fmt"@, "yuv420p"@, "-preset"@, "veryfast"@];
    let audio_codec = match audio_path {
        Some(_) => seq!["-c:a"@, "aac"@, "-shortest"@],
        None => Seq::empty(),
    };
    input + audio_input + video_codec + audio_codec + seq!["-movflags"@, "+faststart"@, output_path]
}

fn push_one(args: &mut Vec<String>, item: String)
    ensures
        final(args)@.map_values(|s: String| s@) == old(args)@.map_values(|s: String| s@).push(
            item@,
        ),
{
    args.push(item);
    assert(args@.map_values(|s: String| s@) =~= old(args)@.map_values(|s: String| s@).push(
        item@,
    ));
}

/// The FFmpeg arguments that mux the raw data files into the MP4 output.
pub fn ffmpeg_arguments(
    video_path: &str,
    audio_path: Option<&str>,
    output_path: &str,
    width: u32,
    height: u32,
    frames_per_second: u32,
) -> (r: Vec<String>)
    ensures
        r@.map_values(|s: String| s@) == ffmpeg_arguments_spec(
            video_path@,
            match audio_path {
                Some(a) => Some(a@),
                None => None,
            },
            output_path@,
            width,
            height,
            frames_per_second,
        ),
{
    let mut args: Vec<String> = Vec::new();
    push_one(&mut args, "-hide_banner".to_owned());
    push_one(&mut args, "-loglevel".to_owned());
    push_one(&mut args, "error".to_owned());
    push_one(&mut args, "-y".to_owned());
    push_one(&mut args, "-f".to_owned());
    push_one(&mut args, "rawvideo".to_owned());
    push_one(&mut args, "-pixel_format".to_owned());
    push_one(&mut args, "bgra".to_owned());
    push_one(&mut args, "-video_size".to_owned());
    let mut size = decimal_chars(width as u64);
    size.push('x');
    extend_chars(&mut size, &decimal_chars(height as u64));
    assert(size@ =~= decimal(width as nat) + seq!['x'] + decimal(height as nat));
    push_one(&mut args, string_of(&size));
    push_one(&mut args, "-framerate".to_owned());
    push_one(&mut args, string_of(&decimal_chars(frames_per_second as u64)));
    push_one(&mut args, "-i".to_owned());
    push_one(&mut args, video_path.to_owned());
    let ghost input = args@.map_values(|s: String| s@);
    assert(input =~= seq![
        "-hide_banner"@,
        "-loglevel"@,
        "error"@,
        "-y"@,
        "-f"@,
        "rawvideo"@,
        "-pixel_format"@,
        "bgra"@,
        "-video_size"@,
        decimal(width as nat) + seq!['x'] + decimal(height as nat),
        "-framerate"@,
        decimal(frames_per_second as nat),
        "-i"@,
        video_path@,
    ]);
    match audio_path {
        Some(a) => {
            push_one(&mut args, "-f".to_owned());
            push_one(&mut args, "s16le".to_owned());
            push_one(&mut args, "-ar".to_owned());
            push_one(&mut args, string_of(&decimal_chars(AUDIO_SAMPLE_RATE as u64)));
            push_one(&mut args, "-ac".to_owned());
            push_one(&mut args, string_of(&decimal_chars(AUDIO_CHANNELS as u64)));
            push_one(&mut args, "-i".to_owned());
            push_one(&mut args, a.to_owned());
        },
        None => {},
    }
    let ghost with_audio_input = args@.map_values(|s: String| s@);
    push_one(&mut args, "-c:v".to_owned());
    push_one(&mut args, "libx264".to_owned());
    push_one(&mut args, "-pix_fmt".to_owned());
    push_one(&mut args, "yuv420p".to_owned());
    push_one(&mut args, "-preset".to_owned());
    push_one(&mut args, "veryfast".to_owned());
    let ghost with_video_codec = args@.map_values(|s: String| s@);
    if audio_path.is_some() {
        push_one(&mut args, "-c:a".to_owned());
        push_one(&mut args, "aac".to_owned());
        push_one(&mut args, "-shortest".to_owned());
    }
    let ghost with_audio_codec = args@.map_values(|s: String| s@);
    push_one(&mut args, "-movflags".to_owned());
    push_one(&mut args, "+faststart".to_owned());
    push_one(&mut args, output_path.to_owned());
    proof {
        let audio_view = match audio_path {
            Some(a) => Some(a@),
            None => None,
        };
        let audio_input = match audio_view {
            Some(a) => seq![
                "-f"@,
                "s16le"@,
                "-ar"@,
                decimal(AUDIO_SAMPLE_RATE as nat),
                "-ac"@,
                decimal(AUDIO_CHANNELS as nat),
                "-i"@,
                a,
            ],
            None => Seq::<Seq<char>>::empty(),
        };
        assert(with_audio_input =~= input + audio_input);
        let video_codec = seq!["-c:v"@, "libx264"@, "-pix_fmt"@, "yuv420p"@, "-preset"@, "veryfast"@];
        assert(with_video_codec =~= input + audio_input + video_codec);
        let audio_codec = match audio_view {
            Some(_) => seq!["-c:a"@, "aac"@, "-shortest"@],
            None => Seq::<Seq<char>>::empty(),
        };
        assert(with_audio_codec =~= input + audio_input + video_codec + audio_codec);
        assert(args@.map_values(|s: String| s@) =~= ffmpeg_arguments_spec(
            video_path@,
            audio_view,
            output_path@,
            width,
            height,
            frames_per_second,
        ));
    }
    args
}

/// The audio input is read as what the sidecar holds: signed 16-bit little-endian PCM at
/// 48 000 Hz with two interleaved channels (`-f s16le -ar 48000 -ac 2 -i <audio>`), right
/// after the video input; the channel count is the one by which the raw timeline counts
/// samples into audio frames.
pub proof fn lemma_ffmpeg_reads_stereo_pcm(
    video_path: Seq<char>,
    audio_path: Seq<char>,
    output_path: Seq<char>,
    width: u32,
    height: u32,
    frames_per_second: u32,
)
    ensures
        ({
            let args = ffmpeg_arguments_spec(
                video_path,
                Some(audio_path),
                output_path,
                width,
                height,
                frames_per_second,
            );
            &&& args[12] == "-i"@
            &&& args[13] == video_path
            &&& args.subrange(14, 22) == seq![
                "-f"@,
                "s16le"@,
                "-ar"@,
                "48000"@,
                "-ac"@,
                "2"@,
                "-i"@,
                audio_path,
            ]
        }),
        AUDIO_CHANNELS == 2,
        AUDIO_SAMPLE_RATE == 48_000,
        decimal(AUDIO_CHANNELS as nat) == "2"@,
        decimal(AUDIO_SAMPLE_RATE as nat) == "48000"@,
{
    reveal_strlit("2");
    reveal_strlit("48000");
    reveal_with_fuel(decimal, 6);
    assert(decimal(2) =~= "2"@);
    assert(decimal(48000) =~= "48000"@);
    let args = ffmpeg_arguments_spec(
        video_path,
        Some(audio_path),
        output_path,
        width,
        height,
        frames_per_second,
    );
    assert(args.subrange(14, 22) =~= seq![
        "-f"@,
        "s16le"@,
        "-ar"@,
        "48000"@,
        "-ac"@,
        "2"@,
        "-i"@,
        audio_path,
    ]);
}

/// The video input is read as what the raw timeline accepts: headerless frames of
/// `width × height` pixels, four bytes (B, G, R, A) each, at the recording's frame rate,
/// with or without audio.
pub proof fn lemma_ffmpeg_reads_bgra_frames(
    video_path: Seq<char>,
    audio_path: Option<Seq<char>>,
    output_path: Seq<char>,
    width: u32,
    height: u32,
    frames_per_second: u32,
)
    ensures
        ({
            let args = ffmpeg_arguments_spec(
                video_path,
                audio_path,
                output_path,
                width,
                height,
                frames_per_second,
            );
            &&& args.subrange(4, 14) == seq![
                "-f"@,
                "rawvideo"@,
                "-pixel_format"@,
                "bgra"@,
                "-video_size"@,
                decimal(width as nat) + seq!['x'] + decimal(height as nat),
                "-framerate"@,
                decimal(frames_per_second as nat),
                "-i"@,
                video_path,
            ]
            &&& args.last() == output_path
        }),
{
    let args = ffmpeg_arguments_spec(
        video_path,
        audio_path,
        output_path,
        width,
        height,
        frames_per_second,
    );
    assert(args.subrange(4, 14) =~= seq![
        "-f"@,
        "rawvideo"@,
        "-pixel_format"@,
        "bgra"@,
        "-video_size"@,
        decimal(width as nat) + seq!['x'] + decimal(height as nat),
        "-framerate"@,
        decimal(frames_per_second as nat),
        "-i"@,
        video_path,
    ]);
}

/// Two 32-bit values packed into one 64-bit attribute value, the first in the high half
/// (how Media Foundation stores a frame size or a frame rate).
pub fn pack_pair(first: u32, second: u32) -> (r: u64)
    ensures
        r == first * 0x1_0000_0000 + second,
{
    (first as u64) * 0x1_0000_0000 + second as u64
}

/// Media Foundation's time unit: a tenth of a microsecond.
pub const HUNDRED_NS_PER_SECOND: i64 = 10_000_000;

/// The average bit rate of the H.264 stream: one bit for every eighth pixel of every frame
/// in a second, kept between 2 and 25 Mbit/s.
pub open spec fn bitrate_for(width: u32, height: u32, frames_per_second: u32) -> int {
    let raw = (width as int) * (height as int) * (frames_per_second as int) / 8;
    if raw < 2_000_000 {
        2_000_000
    } else if raw > 25_000_000 {
        25_000_000
    } else {
        raw
    }
}

/// The H.264 bit rate of a recording.
pub fn video_bitrate(width: u32, height: u32, frames_per_second: u32) -> (r: u32)
    ensures
        r == bitrate_for(width, height, frames_per_second),
{
    proof {
        assert((width as int) * (height as int) <= 0xffff_ffff * 0xffff_ffff) by (nonlinear_arith)
            requires
                width <= 0xffff_ffff,
                height <= 0xffff_ffff,
        ;
    }
    let pixels: u128 = (width as u128) * (height as u128);
    proof {
        assert(pixels * (frames_per_second as int) <= 0xffff_ffff * 0xffff_ffff * 0xffff_ffff)
            by (nonlinear_arith)
            requires
                pixels <= 0xffff_ffff * 0xffff_ffff,
                frames_per_second <= 0xffff_ffff,
        ;
    }
    let raw: u128 = pixels * (frames_per_second as u128) / 8;
    if raw < 2_000_000 {
        2_000_000
    } else if raw > 25_000_000 {
        25_000_000
    } else {
        raw as u32
    }
}

/// The duration of one video frame in Media Foundation time.
pub fn frame_duration(frames_per_second: u32) -> (r: i64)
    requires
        frames_per_second > 0,
    ensures
        r == (HUNDRED_NS_PER_SECOND as int) / (frames_per_second as int),
        r >= 0,
{
    HUNDRED_NS_PER_SECOND / (frames_per_second as i64)
}

/// The presentation time of the video frame with index `frame_index`.
pub fn video_sample_time(frame_index: u64, frame_duration: i64) -> (r: i64)
    requires
        0 <= frame_duration,
        frame_index * frame_duration <= i64::MAX,
    ensures
        r == frame_index * frame_duration,
{
    proof {
        if frame_duration > 0 {
            assert(frame_index <= frame_index * frame_duration) by (nonlinear_arith)
                requires
                    frame_duration >= 1,
            ;
        }
    }
    if frame_duration == 0 {
        0
    } else {
        (frame_index as i64) * frame_duration
    }
}

/// The start and the duration, in Media Foundation time, of `sample_count` interleaved
/// stereo samples starting at audio frame `start_frame`; none when they hold no whole
/// frame, which is then not written.
pub fn audio_sample_span(start_frame: u64, sample_count: usize) -> (r: Option<(i64, i64)>)
    requires
        start_frame * HUNDRED_NS_PER_SECOND <= i64::MAX,
    ensures
        r == if sample_count / 2 == 0 {
            None::<(i64, i64)>
        } else {
            Some(
                (
                    (start_frame * (HUNDRED_NS_PER_SECOND as int) / (AUDIO_SAMPLE_RATE as int)) as i64,
                    ((sample_count / 2) * (HUNDRED_NS_PER_SECOND as int) / (AUDIO_SAMPLE_RATE as int)) as i64,
                ),
            )
        },
{
    let frames: u64 = (sample_count / 2) as u64;
    if frames == 0 {
        return None;
    }
    let time: u128 = (start_frame as u128) * (HUNDRED_NS_PER_SECOND as u128) / (AUDIO_SAMPLE_RATE as u128);
    proof {
        assert(frames * HUNDRED_NS_PER_SECOND <= 0xffff_ffff_ffff_ffff * 10_000_000)
            by (nonlinear_arith)
            requires
                frames <= 0xffff_ffff_ffff_ffff,
        ;
        assert(time <= start_frame * HUNDRED_NS_PER_SECOND) by (nonlinear_arith)
            requires
                time == start_frame * HUNDRED_NS_PER_SECOND / 48_000,
                start_frame >= 0,
        ;
    }
    let duration: u128 = (frames as u128) * (HUNDRED_NS_PER_SECOND as u128) / (AUDIO_SAMPLE_RATE as u128);
    proof {
        assert(duration <= 0xffff_ffff_ffff_ffff * 10_000_000 / 48_000) by (nonlinear_arith)
            requires
                duration == frames * 10_000_000 / 48_000,
                frames <= 0xffff_ffff_ffff_ffff,
        ;
    }
    Some((time as i64, duration as i64))
}

} // verus!
