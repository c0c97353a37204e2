use vstd::prelude::*;

use vstd::arithmetic::div_mod::lemma_fundamental_div_mod;
use vstd::arithmetic::div_mod::lemma_fundamental_div_mod_converse;
use vstd::arithmetic::div_mod::lemma_mod_multiples_basic;
use vstd::arithmetic::div_mod::lemma_small_mod;
use vstd::arithmetic::mul::lemma_mul_inequality;

use crate::errors::PlaybackError;

verus! {

/// Interleaved samples as the decoder hands them back, together with the
/// stream's channel count and sample rate. Samples are carried as opaque
/// 32-bit words; the pipeline copies and routes them without interpreting
/// their numeric value.
pub struct DecodedAudio {
    pub interleaved: Vec<u32>,
    pub channels: u16,
    pub sample_rate: u32,
}

impl DecodedAudio {
    /// The decoder delivers whole frames: at least one channel, and a sample
    /// count that is a multiple of the channel count.
    pub open spec fn well_formed(&self) -> bool {
        &&& 1 <= self.channels
        &&& self.interleaved@.len() as int % (self.channels as int) == 0
    }
}

/// A device-ready buffer: interleaved samples already matched to the output
/// device's channel count and sample rate, its frame count, and the file it
/// came from.
pub struct PreparedAudio {
    pub samples: Vec<u32>,
    pub total_frames: usize,
    pub file: String,
}

/// The part of a preparation run that still needs sample-rate conversion:
/// channel-adapted interleaved samples together with the conversion
/// parameters. Produced by [`begin_prepare`] when the source rate differs
/// from the device rate; consumed by [`finish_prepare`] once converted.
pub struct ResampleJob {
    pub samples: Vec<u32>,
    pub channels: usize,
    pub source_rate: u32,
    pub target_rate: u32,
    pub file: String,
}

/// What [`begin_prepare`] decided: either the buffer is already at the device
/// rate and ready to play, or it still needs resampling.
pub enum PrepareStep {
    Ready(PreparedAudio),
    NeedsResample(ResampleJob),
}

/// The sample that channel adaptation places at interleaved index `i` of the
/// output: channel `i % to` of frame `i / to`. The first `min(from, to)`
/// channels are copied verbatim; extra output channels repeat the source's
/// last channel.
pub open spec fn adapted_sample(samples: Seq<u32>, from: int, to: int, i: int) -> u32 {
    let frame = i / to;
    let ch = i % to;
    if ch < from {
        samples[frame * from + ch]
    } else {
        samples[frame * from + from - 1]
    }
}

/// Interleaved channel adaptation from `from` channels to `to` channels.
/// Equal counts (and the degenerate zero counts) leave the buffer as it is;
/// otherwise the output has one frame per complete input frame.
pub open spec fn adapt_spec(samples: Seq<u32>, from: int, to: int) -> Seq<u32> {
    if from == to || from <= 0 || to <= 0 {
        samples
    } else {
        Seq::new(
            ((samples.len() as int / from) * to) as nat,
            |i: int| adapted_sample(samples, from, to, i),
        )
    }
}

fn copy_buffer(samples: &Vec<u32>) -> (out: Vec<u32>)
    ensures
        out@ == samples@,
{
    let mut out: Vec<u32> = Vec::new();
    let mut i: usize = 0;
    while i < samples.len()
        invariant
            i <= samples@.len(),
            out@ == samples@.subrange(0, i as int),
        decreases samples@.len() - i,
    {
        out.push(samples[i]);
        proof {
            assert(out@ =~= samples@.subrange(0, i + 1 as int));
        }
        i = i + 1;
    }
    proof {
        assert(out@ =~= samples@);
    }
    out
}

/// Convert interleaved audio between channel counts. For each frame the
/// first `min(from, to)` channels are copied verbatim; if the target has more
/// channels than the source, the extra channels duplicate the source's last
/// channel (never silence); if it has fewer, the extra source channels are
/// dropped.
pub fn adapt_channels(samples: &Vec<u32>, from: usize, to: usize) -> (out: Vec<u32>)
    ensures
        out@ == adapt_spec(samples@, from as int, to as int),
{
    if from == to || from == 0 || to == 0 {
        return copy_buffer(samples);
    }
    let num_frames: usize = samples.len() / from;
    let mut out: Vec<u32> = Vec::new();
    let mut frame: usize = 0;
    let mut base: usize = 0;
    while frame < num_frames
        invariant
            1 <= from,
            1 <= to,
            from != to,
            num_frames == samples@.len() as int / from as int,
            samples@.len() <= usize::MAX,
            frame <= num_frames,
            base == frame * from,
            out@.len() == frame * to,
            forall|i: int|
                0 <= i < out@.len() ==> out@[i] == adapted_sample(
                    samples@,
                    from as int,
                    to as int,
                    i,
                ),
        decreases num_frames - frame,
    {
        proof {
            broadcast use vstd::arithmetic::div_mod::group_mod_properties;

            let len = samples@.len() as int;
            let f = from as int;
            let nf = num_frames as int;
            lemma_fundamental_div_mod(len, f);
            assert(len >= f * nf);
            assert(base + f <= len) by (nonlinear_arith)
                requires
                    base == frame as int * f,
                    (frame as int) < nf,
                    1 <= f,
                    len >= f * nf,
            ;
        }
        let mut ch: usize = 0;
        while ch < to
            invariant
                1 <= from,
                1 <= to,
                frame < num_frames,
                base == frame * from,
                base + from <= samples@.len(),
                samples@.len() <= usize::MAX,
                ch <= to,
                out@.len() == frame * to + ch,
                forall|i: int|
                    0 <= i < out@.len() ==> out@[i] == adapted_sample(
                        samples@,
                        from as int,
                        to as int,
                        i,
                    ),
            decreases to - ch,
        {
            let s = if ch < from {
                samples[base + ch]
            } else {
                samples[base + from - 1]
            };
            proof {
                lemma_fundamental_div_mod_converse(
                    frame as int * to as int + ch as int,
                    to as int,
                    frame as int,
                    ch as int,
                );
            }
            out.push(s);
            ch = ch + 1;
        }
        proof {
            assert((frame + 1) as int * to as int == frame as int * to as int + to as int)
                by (nonlinear_arith);
            assert((frame + 1) as int * from as int == frame as int * from as int + from as int)
                by (nonlinear_arith);
        }
        base = base + from;
        frame = frame + 1;
    }
    proof {
        assert(out@ =~= adapt_spec(samples@, from as int, to as int));
    }
    out
}

/// Channel adaptation never changes the buffer when the channel counts
/// already match.
pub proof fn lemma_adapt_same_channel_count_is_identity(samples: Seq<u32>, channels: int)
    ensures
        adapt_spec(samples, channels, channels) == samples,
{
}

/// Whole frames in, whole frames out: for whole-frame input, the adapted
/// buffer's length is a multiple of the target channel count, so the frame
/// count `len / to` has no remainder.
pub proof fn lemma_adapt_preserves_whole_frames(samples: Seq<u32>, from: int, to: int)
    requires
        1 <= from,
        1 <= to,
        samples.len() as int % from == 0,
    ensures
        adapt_spec(samples, from, to).len() as int % to == 0,
{
    if from == to {
    } else {
        lemma_mod_multiples_basic(samples.len() as int / from, to);
    }
}

/// Adapting mono to stereo duplicates the single source channel into both
/// output channels of every frame.
pub proof fn lemma_mono_to_stereo_duplicates(samples: Seq<u32>, frame: int)
    requires
        0 <= frame < samples.len(),
    ensures
        adapt_spec(samples, 1, 2).len() == 2 * samples.len(),
        adapt_spec(samples, 1, 2)[2 * frame] == samples[frame],
        adapt_spec(samples, 1, 2)[2 * frame + 1] == samples[frame],
{
    lemma_fundamental_div_mod_converse(2 * frame, 2, frame, 0);
    lemma_fundamental_div_mod_converse(2 * frame + 1, 2, frame, 1);
}

/// Adapting stereo down to mono keeps channel 0 of every frame and drops
/// channel 1.
pub proof fn lemma_stereo_to_mono_keeps_channel_zero(samples: Seq<u32>, frame: int)
    requires
        samples.len() as int % 2 == 0,
        0 <= frame < samples.len() as int / 2,
    ensures
        adapt_spec(samples, 2, 1).len() == samples.len() as int / 2,
        adapt_spec(samples, 2, 1)[frame] == samples[2 * frame],
{
    lemma_fundamental_div_mod_converse(frame, 1, frame, 0);
}

/// Start a preparation run on decoded audio: reject an empty decode, adapt
/// the channel count to the device's, and decide whether resampling is still
/// needed. An exact rate match skips resampling entirely and yields a ready
/// buffer; differing rates yield a [`ResampleJob`]. A decode with zero
/// extracted samples is a decode error, never an empty success.
pub fn begin_prepare(
    decoded: &DecodedAudio,
    file: String,
    target_channels: usize,
    target_rate: u32,
) -> (r: Result<PrepareStep, PlaybackError>)
    requires
        decoded.well_formed(),
        1 <= target_channels,
    ensures
        r is Err <==> decoded.interleaved@.len() == 0,
        r is Err ==> r matches Err(PlaybackError::DecodeFailure(_)),
        decoded.interleaved@.len() > 0 && decoded.sample_rate == target_rate ==> (r matches Ok(
            PrepareStep::Ready(p),
        ) && p.samples@ == adapt_spec(
            decoded.interleaved@,
            decoded.channels as int,
            target_channels as int,
        ) && p.samples@.len() > 0 && p.samples@.len() as int % (target_channels as int) == 0
            && p.total_frames == p.samples@.len() as int / (target_channels as int) && p.file@
            == file@),
        decoded.interleaved@.len() > 0 && decoded.sample_rate != target_rate ==> (r matches Ok(
            PrepareStep::NeedsResample(j),
        ) && j.samples@ == adapt_spec(
            decoded.interleaved@,
            decoded.channels as int,
            target_channels as int,
        ) && j.samples@.len() > 0 && j.samples@.len() as int % (target_channels as int) == 0
            && j.channels == target_channels && j.source_rate == decoded.sample_rate
            && j.target_rate == target_rate && j.file@ == file@),
{
    if decoded.interleaved.len() == 0 {
        return Err(PlaybackError::DecodeFailure(String::from_str("no audio data decoded")));
    }
    let from = decoded.channels as usize;
    let adapted = adapt_channels(&decoded.interleaved, from, target_channels);
    proof {
        lemma_adapt_preserves_whole_frames(
            decoded.interleaved@,
            decoded.channels as int,
            target_channels as int,
        );
        let len = decoded.interleaved@.len() as int;
        let c = decoded.channels as int;
        if len < c {
            lemma_small_mod(len as nat, c as nat);
        }
        assert(len >= c);
        if c != target_channels as int {
            lemma_fundamental_div_mod(len, c);
            assert(1 <= len / c) by (nonlinear_arith)
                requires
                    len == c * (len / c) + len % c,
                    len % c == 0,
                    len >= c,
                    1 <= c,
            ;
            lemma_mul_inequality(1, len / c, target_channels as int);
        }
    }
    if decoded.sample_rate == target_rate {
        let total_frames = adapted.len() / target_channels;
        Ok(PrepareStep::Ready(PreparedAudio { samples: adapted, total_frames, file }))
    } else {
        Ok(
            PrepareStep::NeedsResample(
                ResampleJob {
                    samples: adapted,
                    channels: target_channels,
                    source_rate: decoded.sample_rate,
                    target_rate,
                    file,
                },
            ),
        )
    }
}

/// Finish a preparation run whose samples are now at the device rate: record
/// the frame count (`len / channels`, exact for whole-frame input) alongside
/// the buffer and the originating file.
pub fn finish_prepare(samples: Vec<u32>, file: String, target_channels: usize) -> (p:
    PreparedAudio)
    requires
        1 <= target_channels,
        samples@.len() as int % (target_channels as int) == 0,
    ensures
        p.samples == samples,
        p.total_frames == samples@.len() as int / (target_channels as int),
        p.file == file,
{
    let total_frames = samples.len() / target_channels;
    PreparedAudio { samples, total_frames, file }
}

} // verus!
