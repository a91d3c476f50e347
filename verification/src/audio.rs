//! The capture engine: the lifecycle of one recording session and the
//! accumulation of mono samples into its buffer. The device itself lives
//! outside this crate; it negotiates a native sample rate and channel count,
//! hands raw frames to `append_frames_i16`, and the stop path turns the
//! buffer into an encoded WAV artifact at the fixed target rate.

use crate::num::{lemma_trunc_div_bounds, trunc_div, trunc_div_i64};
use crate::resample::{downsample, downsampled, resample_len, TARGET_SAMPLE_RATE};
use crate::wav::{wav_bytes, wav_encode};
use vstd::arithmetic::div_mod::lemma_fundamental_div_mod;
use vstd::arithmetic::mul::{lemma_mul_inequality, lemma_mul_is_commutative};
use vstd::prelude::*;
use vstd::string::*;

verus! {

/// Everything that can go wrong while capturing or encoding audio.
#[derive(Debug)]
pub enum AudioError {
    NoInputDevice,
    ConfigError(String),
    StreamError(String),
    EncodingError(String),
    AlreadyRecording,
    NotRecording,
}

impl AudioError {
    /// The user-visible description of this error.
    pub open spec fn spec_message(self) -> Seq<char> {
        match self {
            AudioError::NoInputDevice => "No input device available"@,
            AudioError::ConfigError(m) => "Failed to get default input config: "@ + m@,
            AudioError::StreamError(m) => "Failed to build input stream: "@ + m@,
            AudioError::EncodingError(m) => "Failed to encode WAV: "@ + m@,
            AudioError::AlreadyRecording => "Recording already in progress"@,
            AudioError::NotRecording => "Not currently recording"@,
        }
    }

    /// Renders the description.
    pub fn message(&self) -> (r: String)
        ensures
            r@ == self.spec_message(),
    {
        match self {
            AudioError::NoInputDevice => String::from_str("No input device available"),
            AudioError::ConfigError(m) => String::from_str(
                "Failed to get default input config: ",
            ).concat(m.as_str()),
            AudioError::StreamError(m) => String::from_str("Failed to build input stream: ").concat(
                m.as_str(),
            ),
            AudioError::EncodingError(m) => String::from_str("Failed to encode WAV: ").concat(
                m.as_str(),
            ),
            AudioError::AlreadyRecording => String::from_str("Recording already in progress"),
            AudioError::NotRecording => String::from_str("Not currently recording"),
        }
    }
}

/// One recording session: whether the callback may write, the mono samples
/// gathered so far, and the native format the device negotiated.
pub struct RecordingState {
    pub is_recording: bool,
    pub samples: Vec<i16>,
    pub actual_sample_rate: u32,
    pub actual_channels: u16,
}

impl RecordingState {
    /// The negotiated format is usable: neither rate nor channel count is zero.
    pub open spec fn wf(self) -> bool {
        1 <= self.actual_sample_rate && 1 <= self.actual_channels
    }

    /// An idle session with an empty buffer, defaulting to the target rate
    /// and mono until a device reports its own format.
    pub fn new() -> (s: RecordingState)
        ensures
            s.is_recording == false,
            s.samples@ == Seq::<i16>::empty(),
            s.actual_sample_rate == 16000u32,
            s.actual_channels == 1u16,
            s.wf(),
    {
        RecordingState {
            is_recording: false,
            samples: Vec::new(),
            actual_sample_rate: 16000,
            actual_channels: 1,
        }
    }
}

impl Default for RecordingState {
    fn default() -> (s: RecordingState)
        ensures
            s.is_recording == false,
            s.samples@ == Seq::<i16>::empty(),
            s.actual_sample_rate == 16000u32,
            s.actual_channels == 1u16,
            s.wf(),
    {
        RecordingState::new()
    }
}

/// The sum of a sample sequence.
pub open spec fn seq_sum(s: Seq<i16>) -> int
    decreases s.len(),
{
    if s.len() == 0 {
        0
    } else {
        seq_sum(s.drop_last()) + s.last()
    }
}

/// Frame `i` of `data` averaged into one sample: the channel values summed
/// and divided by the channel count, truncating toward the computed mean.
pub open spec fn frame_avg(data: Seq<i16>, ch: int, i: int) -> int
    recommends
        ch >= 1,
        0 <= i,
        (i + 1) * ch <= data.len(),
{
    trunc_div(seq_sum(data.subrange(i * ch, (i + 1) * ch)), ch)
}

/// `data`, interpreted as interleaved frames of `ch` channels, mixed down to
/// one mono sample per complete frame; a trailing partial frame is dropped.
pub open spec fn mono_mixdown(data: Seq<i16>, ch: int) -> Seq<i16>
    recommends
        ch >= 1,
{
    Seq::new(((data.len() as int) / ch) as nat, |i: int| frame_avg(data, ch, i) as i16)
}

/// Mixes interleaved multi-channel frames down to mono by averaging.
pub fn mix_frames_i16(data: &[i16], channels: u16) -> (out: Vec<i16>)
    requires
        channels >= 1,
    ensures
        out@ == mono_mixdown(data@, channels as int),
{
    let ch: usize = channels as usize;
    let len = data.len();
    let frames = len / ch;
    let mut out: Vec<i16> = Vec::new();
    let mut i: usize = 0;
    while i < frames
        invariant
            1 <= ch <= 65535,
            ch == channels as int,
            len == data@.len(),
            frames as int == (data@.len() as int) / (ch as int),
            i <= frames,
            out@.len() == i as int,
            forall|j: int| 0 <= j < i as int ==> out@[j] == mono_mixdown(data@, ch as int)[j],
        decreases frames - i,
    {
        proof {
            lemma_fundamental_div_mod(len as int, ch as int);
            lemma_mul_inequality(i as int + 1, frames as int, ch as int);
            lemma_mul_is_commutative(frames as int, ch as int);
            assert((i as int + 1) * (ch as int) == (i as int) * (ch as int) + ch as int)
                by (nonlinear_arith);
            assert((i as int) * (ch as int) >= 0) by (nonlinear_arith)
                requires
                    (i as int) >= 0,
                    (ch as int) >= 0,
            ;
        }
        let base: usize = i * ch;
        let mut acc: i32 = 0;
        let mut t: usize = 0;
        while t < ch
            invariant
                1 <= ch <= 65535,
                len == data@.len(),
                base as int == (i as int) * (ch as int),
                base + ch <= len,
                t <= ch,
                -32768 * (t as int) <= acc as int <= 32767 * (t as int),
                acc as int == seq_sum(data@.subrange(base as int, base as int + t as int)),
            decreases ch - t,
        {
            proof {
                let pre = data@.subrange(base as int, base as int + t as int);
                let post = data@.subrange(base as int, base as int + t as int + 1);
                assert(post.drop_last() =~= pre);
                assert(post.last() == data@[base as int + t as int]);
            }
            acc = acc + (data[base + t] as i32);
            t += 1;
        }
        proof {
            lemma_trunc_div_bounds(-32768, 32767, acc as int, ch as int);
        }
        let avg: i64 = trunc_div_i64(acc as i64, ch as i64);
        out.push(avg as i16);
        proof {
            assert(out@[i as int] == mono_mixdown(data@, ch as int)[i as int]);
        }
        i += 1;
    }
    proof {
        assert(out@ =~= mono_mixdown(data@, channels as int));
    }
    out
}

/// The audio callback's write path: while the session is live, each complete
/// frame of `data` is mixed to mono and appended to the buffer; when it is
/// not, the block is ignored.
pub fn append_frames_i16(state: &mut RecordingState, data: &[i16])
    requires
        old(state).wf(),
    ensures
        final(state).wf(),
        !old(state).is_recording ==> *final(state) == *old(state),
        old(state).is_recording ==> final(state).is_recording == old(state).is_recording
            && final(state).actual_sample_rate == old(state).actual_sample_rate
            && final(state).actual_channels == old(state).actual_channels
            && final(state).samples@ == old(state).samples@ + mono_mixdown(
            data@,
            old(state).actual_channels as int,
        ),
{
    if !state.is_recording {
        return ;
    }
    let mut mono = mix_frames_i16(data, state.actual_channels);
    state.samples.append(&mut mono);
}

/// The same write path for a device that already delivers mono samples the
/// caller has converted itself.
pub fn append_mono_samples(state: &mut RecordingState, mono: &[i16])
    ensures
        !old(state).is_recording ==> *final(state) == *old(state),
        old(state).is_recording ==> final(state).is_recording == old(state).is_recording
            && final(state).actual_sample_rate == old(state).actual_sample_rate
            && final(state).actual_channels == old(state).actual_channels
            && final(state).samples@ == old(state).samples@ + mono@,
{
    if !state.is_recording {
        return ;
    }
    state.samples.extend_from_slice(mono);
}

/// Begins a session: fails while one is active, leaving it untouched; fails
/// on a useless negotiated format; otherwise clears the buffer, records the
/// native format and opens the session.
pub fn start_recording(state: &mut RecordingState, native_rate: u32, native_channels: u16) -> (r:
    Result<(), AudioError>)
    ensures
        old(state).is_recording ==> (r matches Err(e) && e is AlreadyRecording && *final(state)
            == *old(state)),
        !old(state).is_recording && (native_rate == 0 || native_channels == 0) ==> (r matches Err(e)
            && e matches AudioError::ConfigError(m) && m@ == "Invalid device configuration"@
            && *final(state) == *old(state)),
        !old(state).is_recording && native_rate >= 1 && native_channels >= 1 ==> r is Ok
            && final(state).is_recording == true && final(state).samples@ == Seq::<i16>::empty()
            && final(state).actual_sample_rate == native_rate && final(state).actual_channels
            == native_channels && final(state).wf(),
{
    if state.is_recording {
        return Err(AudioError::AlreadyRecording);
    }
    if native_rate == 0 || native_channels == 0 {
        return Err(AudioError::ConfigError(String::from_str("Invalid device configuration")));
    }
    state.samples = Vec::new();
    state.actual_sample_rate = native_rate;
    state.actual_channels = native_channels;
    state.is_recording = true;
    Ok(())
}

/// What encoding a captured buffer yields: the buffer resampled to the
/// target rate and serialized as WAV, unless the result would overflow the
/// container's 32-bit sizes.
pub open spec fn encode_outcome(samples: Seq<i16>, rate: int, r: Result<Vec<u8>, AudioError>) -> bool {
    let resampled = downsampled(samples, rate, TARGET_SAMPLE_RATE as int);
    if 36 + 2 * resampled.len() <= 0xFFFF_FFFF {
        r matches Ok(v) && v@ == wav_bytes(resampled, TARGET_SAMPLE_RATE as int)
    } else {
        r matches Err(e) && e matches AudioError::EncodingError(m) && m@
            == "Audio too long to encode"@
    }
}

/// Resamples a captured buffer to the target rate and serializes it.
pub fn encode_wav(samples: &[i16], original_sample_rate: u32) -> (r: Result<Vec<u8>, AudioError>)
    requires
        1 <= original_sample_rate,
    ensures
        encode_outcome(samples@, original_sample_rate as int, r),
{
    let len = samples.len();
    let from = original_sample_rate;
    let to = TARGET_SAMPLE_RATE;
    proof {
        assert((len as int) * (to as int) <= 0xFFFF_FFFF_FFFF_FFFF
            * 0xFFFF_FFFF) by (nonlinear_arith)
            requires
                0 <= (len as int) <= 0xFFFF_FFFF_FFFF_FFFF,
                0 <= (to as int) <= 0xFFFF_FFFF,
        ;
    }
    let out_wide: u128 = if from == to {
        len as u128
    } else {
        ((len as u128) * (to as u128)) / (from as u128)
    };
    proof {
        assert(out_wide as int == resample_len(len as int, from as int, to as int));
        crate::resample::lemma_resample_identity_and_len(samples@, from as int, to as int);
    }
    if 2 * out_wide + 36 > 0xFFFF_FFFFu128 {
        return Err(AudioError::EncodingError(String::from_str("Audio too long to encode")));
    }
    let processed = downsample(samples, from, to);
    let bytes = wav_encode(processed.as_slice(), to);
    Ok(bytes)
}

/// Ends a session: fails while none is active; otherwise closes the session,
/// keeps the buffer, and returns the encoded artifact — or reports that
/// nothing was captured, the normal outcome of a tap shorter than one
/// callback period.
pub fn stop_recording(state: &mut RecordingState) -> (r: Result<Vec<u8>, AudioError>)
    requires
        old(state).wf(),
    ensures
        final(state).wf(),
        !old(state).is_recording ==> (r matches Err(e) && e is NotRecording && *final(state)
            == *old(state)),
        old(state).is_recording ==> final(state).is_recording == false && final(state).samples
            == old(state).samples && final(state).actual_sample_rate
            == old(state).actual_sample_rate && final(state).actual_channels
            == old(state).actual_channels,
        old(state).is_recording && old(state).samples@.len() == 0 ==> (r matches Err(e) && e
            matches AudioError::EncodingError(m) && m@ == "No audio captured"@),
        old(state).is_recording && old(state).samples@.len() > 0 ==> encode_outcome(
            old(state).samples@,
            old(state).actual_sample_rate as int,
            r,
        ),
{
    if !state.is_recording {
        return Err(AudioError::NotRecording);
    }
    state.is_recording = false;
    if state.samples.len() == 0 {
        return Err(AudioError::EncodingError(String::from_str("No audio captured")));
    }
    encode_wav(state.samples.as_slice(), state.actual_sample_rate)
}

} // verus!
