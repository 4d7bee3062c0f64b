//! Audio input of the recorder: the queue of microphone samples read from `pw-record`, and
//! the sample formats that capture devices report.
use vstd::prelude::*;
use crate::i18n::{pick, Language};
use crate::text::{chars_of, decimal, decimal_chars, extend_chars, string_of};

verus! {

/// The signed 16-bit sample stored little-endian in `lo` and `hi`.
pub open spec fn le_i16(lo: u8, hi: u8) -> i16 {
    let u = lo + 256 * hi;
    (if u >= 32768 { u - 65536 } else { u }) as i16
}

/// Bytes read as little-endian 16-bit samples; a trailing odd byte is ignored.
pub open spec fn le_samples(bytes: Seq<u8>) -> Seq<i16> {
    Seq::new(bytes.len() / 2, |k: int| le_i16(bytes[2 * k], bytes[2 * k + 1]))
}

/// The sample stored little-endian in `lo` and `hi`.
pub fn sample_from_le(lo: u8, hi: u8) -> (r: i16)
    ensures
        r == le_i16(lo, hi),
{
    let u: u32 = lo as u32 + 256 * hi as u32;
    if u >= 32768 {
        (u as i32 - 65536) as i16
    } else {
        u as i16
    }
}

/// The samples of `frames` stereo frames taken from the front of `queue`: the taken
/// samples when they are kept, then zeros up to two samples per frame.
pub open spec fn mixed_samples(queue: Seq<i16>, frames: nat, keep: bool) -> Seq<i16> {
    let count = 2 * frames;
    let take = if count < queue.len() { count } else { queue.len() };
    let kept = if keep { queue.take(take as int) } else { Seq::empty() };
    kept + Seq::new((count - kept.len()) as nat, |i: int| 0i16)
}

/// What is left of `queue` after `frames` stereo frames were taken.
pub open spec fn after_mix(queue: Seq<i16>, frames: nat) -> Seq<i16> {
    let count = 2 * frames;
    if count < queue.len() {
        queue.skip(count as int)
    } else {
        Seq::empty()
    }
}

/// Samples leave the queue in the order they arrived: when samples are appended to a queue,
/// taking frames that the older samples cover hands out the oldest samples, and the rest
/// stays behind, followed by the new ones.
pub proof fn lemma_queue_is_first_in_first_out(queue: Seq<i16>, pushed: Seq<i16>, frames: nat)
    requires
        2 * frames <= queue.len(),
    ensures
        mixed_samples(queue + pushed, frames, true) == queue.take(2 * frames as int),
        after_mix(queue + pushed, frames) == queue.skip(2 * frames as int) + pushed,
{
    let all = queue + pushed;
    let count = 2 * frames;
    if count < all.len() {
        assert(all.take(count as int) =~= queue.take(count as int));
        assert(all.skip(count as int) =~= queue.skip(count as int) + pushed);
    } else {
        assert(all.take(count as int) =~= queue.take(count as int));
        assert(queue.skip(count as int) + pushed =~= Seq::<i16>::empty());
    }
    assert(mixed_samples(all, frames, true) =~= queue.take(count as int));
}

/// Microphone samples read from `pw-record`, waiting to be mixed into the recording:
/// interleaved stereo, oldest first.
pub struct MicrophoneQueue {
    samples: Vec<i16>,
}

impl MicrophoneQueue {
    /// The waiting samples, oldest first.
    pub closed spec fn view(&self) -> Seq<i16> {
        self.samples@
    }

    /// An empty queue.
    pub fn new() -> (r: Self)
        ensures
            r.view() == Seq::<i16>::empty(),
    {
        MicrophoneQueue { samples: Vec::new() }
    }

    /// Appends the samples of a block of bytes from the microphone stream.
    pub fn push_bytes(&mut self, bytes: &[u8])
        ensures
            final(self).view() == old(self).view() + le_samples(bytes@),
    {
        let ghost start = self.samples@;
        let len = bytes.len();
        let n = len / 2;
        let mut k: usize = 0;
        while k < n
            invariant
                len == bytes@.len(),
                n == len / 2,
                k <= n,
                self.samples@ == start + le_samples(bytes@).take(k as int),
            decreases n - k,
        {
            assert(2 * k + 1 < bytes@.len()) by {
                assert(2 * (bytes@.len() / 2) <= bytes@.len());
            }
            let sample = sample_from_le(bytes[2 * k], bytes[2 * k + 1]);
            self.samples.push(sample);
            assert(le_samples(bytes@).take(k + 1) =~= le_samples(bytes@).take(k as int).push(sample));
            k = k + 1;
        }
        assert(le_samples(bytes@).take(n as int) =~= le_samples(bytes@));
    }

    /// Drops every waiting sample.
    pub fn discard(&mut self)
        ensures
            final(self).view() == Seq::<i16>::empty(),
    {
        self.samples.clear();
    }

    /// Takes `frames` stereo frames from the front of the queue. The taken samples are
    /// returned when the microphone is recorded and dropped otherwise; missing samples are
    /// silence, so the result always holds two samples per frame.
    pub fn mix(&mut self, frames: usize, microphone_enabled: bool) -> (r: Vec<i16>)
        requires
            frames * 2 <= usize::MAX,
        ensures
            r@ == mixed_samples(old(self).view(), frames as nat, microphone_enabled),
            final(self).view() == after_mix(old(self).view(), frames as nat),
    {
        let count = frames * 2;
        let take = if count < self.samples.len() { count } else { self.samples.len() };
        let mut out: Vec<i16> = Vec::new();
        if microphone_enabled {
            let mut k: usize = 0;
            while k < take
                invariant
                    take <= self.samples@.len(),
                    k <= take,
                    out@ == self.samples@.take(k as int),
                decreases take - k,
            {
                out.push(self.samples[k]);
                assert(self.samples@.take(k + 1) =~= self.samples@.take(k as int).push(self.samples@[k as int]));
                k = k + 1;
            }
        }
        let ghost kept = out@;
        while out.len() < count
            invariant
                kept.len() <= count,
                out@.len() <= count,
                out@.subrange(0, kept.len() as int) == kept,
                out@.len() >= kept.len(),
                forall|i: int| kept.len() <= i < out@.len() ==> #[trigger] out@[i] == 0i16,
            decreases count - out.len(),
        {
            out.push(0);
            assert(out@.subrange(0, kept.len() as int) =~= kept);
        }
        let mut rest: Vec<i16> = Vec::new();
        let mut k: usize = take;
        while k < self.samples.len()
            invariant
                take <= k <= self.samples@.len(),
                rest@ == self.samples@.subrange(take as int, k as int),
            decreases self.samples.len() - k,
        {
            rest.push(self.samples[k]);
            assert(rest@ =~= self.samples@.subrange(take as int, k + 1));
            k = k + 1;
        }
        let ghost old_samples = self.samples@;
        self.samples = rest;
        assert(out@ =~= mixed_samples(old_samples, frames as nat, microphone_enabled)) by {
            assert(out@ =~= out@.subrange(0, kept.len() as int) + out@.subrange(
                kept.len() as int,
                out@.len() as int,
            ));
        }
        assert(self.samples@ =~= after_mix(old_samples, frames as nat));
        out
    }
}

/// How the samples of a capture device are stored.
#[derive(Clone, Copy, Debug, PartialEq, Eq, Structural)]
pub enum SampleFormat {
    Float32,
    Pcm16,
    Pcm24,
    Pcm32,
}

/// The sub-format of an extensible wave format, as far as it matters here.
#[derive(Clone, Copy, Debug, PartialEq, Eq, Structural)]
pub enum SubFormat {
    IeeeFloat,
    Pcm,
    Other,
}

/// The wave format tag of integer PCM.
pub const WAVE_FORMAT_PCM: u32 = 1;
/// The wave format tag of IEEE floating-point samples.
pub const WAVE_FORMAT_IEEE_FLOAT: u32 = 3;
/// The wave format tag of an extensible format, whose sub-format says the rest.
pub const WAVE_FORMAT_EXTENSIBLE: u32 = 0xFFFE;

/// The capture format of a device.
#[derive(Clone, Copy, Debug, PartialEq, Eq, Structural)]
pub struct InputFormat {
    pub channels: u16,
    pub sample_rate: u32,
    pub block_align: u16,
    pub bytes_per_sample: u16,
    pub sample_format: SampleFormat,
}

/// Why a device's capture format cannot be used.
#[derive(Clone, Copy, Debug, PartialEq, Eq, Structural)]
pub enum AudioFormatError {
    /// No channels, no sample rate or no block alignment.
    Invalid,
    /// Neither 32-bit floats nor 16-, 24- or 32-bit integer PCM.
    Unsupported { format_tag: u32, bits: u16 },
}

impl AudioFormatError {
    /// The message shown for the error.
    pub fn message(self) -> (r: String)
        ensures
            r@ == match self {
                AudioFormatError::Invalid => "音频设备格式无效"@,
                AudioFormatError::Unsupported { format_tag, bits } => "不支持的音频设备格式：tag="@
                    + decimal(format_tag as nat) + ", bits="@ + decimal(bits as nat),
            },
    {
        match self {
            AudioFormatError::Invalid => "音频设备格式无效".to_owned(),
            AudioFormatError::Unsupported { format_tag, bits } => {
                let mut v = chars_of("不支持的音频设备格式：tag=");
                extend_chars(&mut v, &decimal_chars(format_tag as u64));
                extend_chars(&mut v, &chars_of(", bits="));
                extend_chars(&mut v, &decimal_chars(bits as u64));
                string_of(&v)
            },
        }
    }
}

/// The sample format of a wave format: floats when the tag or the sub-format says IEEE
/// float and samples have 32 bits; integer PCM of 16, 24 or 32 bits when the tag or the
/// sub-format says PCM.
pub open spec fn sample_format_of(format_tag: u32, bits: u16, sub_format: Option<SubFormat>) -> Option<SampleFormat> {
    let subtype = if format_tag == WAVE_FORMAT_EXTENSIBLE { sub_format } else { None };
    let is_float = format_tag == WAVE_FORMAT_IEEE_FLOAT || subtype == Some(SubFormat::IeeeFloat);
    let is_pcm = format_tag == WAVE_FORMAT_PCM || subtype == Some(SubFormat::Pcm);
    if is_float && bits == 32 {
        Some(SampleFormat::Float32)
    } else if is_pcm && bits == 16 {
        Some(SampleFormat::Pcm16)
    } else if is_pcm && bits == 24 {
        Some(SampleFormat::Pcm24)
    } else if is_pcm && bits == 32 {
        Some(SampleFormat::Pcm32)
    } else {
        None
    }
}

/// The capture format that a device's wave format describes; `sub_format` is read only
/// for extensible formats.
pub fn input_format(
    format_tag: u32,
    channels: u16,
    sample_rate: u32,
    block_align: u16,
    bits: u16,
    sub_format: Option<SubFormat>,
) -> (r: Result<InputFormat, AudioFormatError>)
    ensures
        channels == 0 || sample_rate == 0 || block_align == 0 ==> r == Err::<
            InputFormat,
            AudioFormatError,
        >(AudioFormatError::Invalid),
        !(channels == 0 || sample_rate == 0 || block_align == 0) ==> match sample_format_of(
            format_tag,
            bits,
            sub_format,
        ) {
            None => r == Err::<InputFormat, AudioFormatError>(
                AudioFormatError::Unsupported { format_tag, bits },
            ),
            Some(f) => r == Ok::<InputFormat, AudioFormatError>(
                InputFormat {
                    channels,
                    sample_rate,
                    block_align,
                    bytes_per_sample: ((bits + 7) / 8) as u16,
                    sample_format: f,
                },
            ),
        },
{
    if channels == 0 || sample_rate == 0 || block_align == 0 {
        return Err(AudioFormatError::Invalid);
    }
    let subtype = if format_tag == WAVE_FORMAT_EXTENSIBLE { sub_format } else { None };
    let sub_float = match subtype {
        Some(SubFormat::IeeeFloat) => true,
        _ => false,
    };
    let sub_pcm = match subtype {
        Some(SubFormat::Pcm) => true,
        _ => false,
    };
    let is_float = format_tag == WAVE_FORMAT_IEEE_FLOAT || sub_float;
    let is_pcm = format_tag == WAVE_FORMAT_PCM || sub_pcm;
    let sample_format = if is_float && bits == 32 {
        SampleFormat::Float32
    } else if is_pcm && bits == 16 {
        SampleFormat::Pcm16
    } else if is_pcm && bits == 24 {
        SampleFormat::Pcm24
    } else if is_pcm && bits == 32 {
        SampleFormat::Pcm32
    } else {
        return Err(AudioFormatError::Unsupported { format_tag, bits });
    };
    let bytes_per_sample: u16 = ((bits as u32 + 7) / 8) as u16;
    Ok(InputFormat { channels, sample_rate, block_align, bytes_per_sample, sample_format })
}

/// The signed 24-bit sample stored little-endian in three bytes.
pub open spec fn pcm24(b0: u8, b1: u8, b2: u8) -> int {
    let raw = b0 + 256 * b1 + 65536 * b2;
    if raw >= 0x80_0000 {
        raw - 0x100_0000
    } else {
        raw
    }
}

/// Reads a signed 24-bit little-endian sample.
pub fn pcm24_value(b0: u8, b1: u8, b2: u8) -> (r: i32)
    ensures
        r == pcm24(b0, b1, b2),
{
    let raw: i32 = b0 as i32 + 256 * b1 as i32 + 65536 * b2 as i32;
    if raw >= 0x80_0000 {
        raw - 0x100_0000
    } else {
        raw
    }
}

} // verus!
