use vstd::prelude::*;

use vstd::arithmetic::div_mod::lemma_fundamental_div_mod;
use vstd::arithmetic::div_mod::lemma_fundamental_div_mod_converse;
use vstd::arithmetic::div_mod::lemma_mod_multiples_basic;

verus! {

// Everything around the sample-rate converter that is not signal
// processing: de-interleaving into per-channel buffers, the chunking plan
// the converter is fed with, and re-interleaving its output. The converter
// itself computes on floating-point samples and stays with the caller; the
// shapes it must respect (channel count preserved, equal channel lengths)
// are what these contracts pin down.

/// How many frames one converter chunk holds: whole buffers shorter than
/// 1024 frames are one chunk, anything longer is fed 1024 frames at a time.
pub fn resample_chunk_size(num_frames: usize) -> (c: usize)
    requires
        1 <= num_frames,
    ensures
        c == if num_frames < 1024 {
            num_frames as int
        } else {
            1024int
        },
        1 <= c <= 1024,
{
    if num_frames < 1024 {
        num_frames
    } else {
        1024
    }
}

/// Split interleaved samples into one buffer per channel: channel `c` holds
/// sample `c` of every complete frame, in frame order. A trailing partial
/// frame is dropped.
pub fn split_channels(interleaved: &Vec<u32>, channels: usize) -> (out: Vec<Vec<u32>>)
    requires
        1 <= channels,
    ensures
        out@.len() == channels,
        forall|c: int|
            0 <= c < channels ==> (#[trigger] out@[c])@.len() == interleaved@.len() as int
                / channels as int,
        forall|c: int, f: int|
            0 <= c < channels && 0 <= f < interleaved@.len() as int / channels as int ==> (
            #[trigger] out@[c]@[f]) == interleaved@[f * channels + c],
{
    let num_frames: usize = interleaved.len() / channels;
    let mut out: Vec<Vec<u32>> = Vec::new();
    let mut c: usize = 0;
    while c < channels
        invariant
            c <= channels,
            num_frames == interleaved@.len() as int / channels as int,
            interleaved@.len() <= usize::MAX,
            1 <= channels,
            out@.len() == c,
            forall|d: int| 0 <= d < c ==> (#[trigger] out@[d])@.len() == num_frames,
            forall|d: int, f: int|
                0 <= d < c && 0 <= f < num_frames ==> (#[trigger] out@[d]@[f])
                    == interleaved@[f * channels + d],
        decreases channels - c,
    {
        let mut chan: Vec<u32> = Vec::new();
        let mut f: usize = 0;
        while f < num_frames
            invariant
                f <= num_frames,
                c < channels,
                num_frames == interleaved@.len() as int / channels as int,
                interleaved@.len() <= usize::MAX,
                1 <= channels,
                chan@.len() == f,
                forall|g: int|
                    0 <= g < f ==> (#[trigger] chan@[g]) == interleaved@[g * channels + c],
            decreases num_frames - f,
        {
            proof {
                broadcast use vstd::arithmetic::div_mod::group_mod_properties;

                let len = interleaved@.len() as int;
                let ch = channels as int;
                lemma_fundamental_div_mod(len, ch);
                assert(len >= ch * (num_frames as int));
                assert(f as int * ch + c < len) by (nonlinear_arith)
                    requires
                        (f as int) < (num_frames as int),
                        (c as int) < ch,
                        1 <= ch,
                        len >= ch * (num_frames as int),
                ;
            }
            let idx: usize = f * channels + c;
            chan.push(interleaved[idx]);
            f = f + 1;
        }
        out.push(chan);
        c = c + 1;
    }
    out
}

/// Re-interleave per-channel buffers of equal length: frame `f` of the
/// output is the `f`-th sample of every channel in channel order, so the
/// output length is `frames * channels`, a whole number of frames.
pub fn merge_channels(channels_data: &Vec<Vec<u32>>) -> (out: Vec<u32>)
    requires
        1 <= channels_data@.len(),
        forall|c: int|
            0 <= c < channels_data@.len() ==> (#[trigger] channels_data@[c])@.len()
                == channels_data@[0]@.len(),
    ensures
        out@.len() == channels_data@[0]@.len() * channels_data@.len(),
        out@.len() as int % (channels_data@.len() as int) == 0,
        forall|f: int, c: int|
            0 <= f < channels_data@[0]@.len() && 0 <= c < channels_data@.len() ==> out@[f
                * channels_data@.len() + c] == (#[trigger] channels_data@[c]@[f]),
{
    let channels = channels_data.len();
    let num_frames = channels_data[0].len();
    let mut out: Vec<u32> = Vec::new();
    let mut f: usize = 0;
    while f < num_frames
        invariant
            f <= num_frames,
            1 <= channels,
            channels == channels_data@.len(),
            num_frames == channels_data@[0]@.len(),
            forall|c: int|
                0 <= c < channels ==> (#[trigger] channels_data@[c])@.len() == num_frames,
            out@.len() == f * channels,
            forall|g: int, c: int|
                0 <= g < f && 0 <= c < channels ==> out@[g * channels + c] == (
                #[trigger] channels_data@[c]@[g]),
        decreases num_frames - f,
    {
        let mut c: usize = 0;
        while c < channels
            invariant
                c <= channels,
                f < num_frames,
                1 <= channels,
                channels == channels_data@.len(),
                num_frames == channels_data@[0]@.len(),
                forall|d: int|
                    0 <= d < channels ==> (#[trigger] channels_data@[d])@.len() == num_frames,
                out@.len() == f * channels + c,
                forall|g: int, d: int|
                    0 <= g < f && 0 <= d < channels ==> out@[g * channels + d] == (
                    #[trigger] channels_data@[d]@[g]),
                forall|d: int|
                    0 <= d < c ==> out@[f * channels + d] == (#[trigger] channels_data@[d]@[f as int]),
            decreases channels - c,
        {
            out.push(channels_data[c][f]);
            proof {
                assert forall|g: int, d: int| 0 <= g < f && 0 <= d < channels implies out@[g
                    * channels + d] == (#[trigger] channels_data@[d]@[g]) by {
                    assert(g * channels as int + d < f as int * channels as int)
                        by (nonlinear_arith)
                        requires
                            0 <= g,
                            g < f as int,
                            0 <= d,
                            (d as int) < (channels as int),
                            1 <= channels as int,
                    ;
                }
            }
            c = c + 1;
        }
        proof {
            assert((f + 1) as int * channels as int == f as int * channels as int + channels as int)
                by (nonlinear_arith);
            assert forall|g: int, d: int| 0 <= g < f + 1 && 0 <= d < channels implies out@[g
                * channels + d] == (#[trigger] channels_data@[d]@[g]) by {
                if g < f {
                    assert(g * channels as int + d < f as int * channels as int)
                        by (nonlinear_arith)
                        requires
                            0 <= g,
                            g < f as int,
                            0 <= d,
                            (d as int) < (channels as int),
                            1 <= channels as int,
                    ;
                } else {
                    assert(out@[f * channels as int + d] == channels_data@[d]@[f as int]);
                }
            }
        }
        f = f + 1;
    }
    proof {
        lemma_mod_multiples_basic(num_frames as int, channels as int);
        assert(out@.len() as int % (channels as int) == 0) by {
            assert(out@.len() == num_frames * channels);
        }
    }
    out
}

/// The chunking plan the converter is fed with: `(start, length)` spans of
/// frames, every span `chunk_size` frames long except a shorter final span
/// holding the remainder. The spans tile `[0, num_frames)` in order.
pub fn chunk_plan(num_frames: usize, chunk_size: usize) -> (plan: Vec<(usize, usize)>)
    requires
        1 <= chunk_size,
    ensures
        plan@.len() == if num_frames as int % chunk_size as int == 0 {
            num_frames as int / chunk_size as int
        } else {
            num_frames as int / chunk_size as int + 1
        },
        forall|i: int| 0 <= i < plan@.len() ==> (#[trigger] plan@[i]).0 == i * chunk_size,
        forall|i: int|
            0 <= i < plan@.len() ==> (#[trigger] plan@[i]).1 == if i < num_frames as int
                / chunk_size as int {
                chunk_size as int
            } else {
                num_frames as int % chunk_size as int
            },
        forall|i: int|
            0 <= i < plan@.len() ==> (#[trigger] plan@[i]).0 + plan@[i].1 <= num_frames,
{
    let mut plan: Vec<(usize, usize)> = Vec::new();
    let mut pos: usize = 0;
    proof {
        assert(plan@.len() * chunk_size == 0) by (nonlinear_arith)
            requires
                plan@.len() == 0,
        ;
    }
    while num_frames - pos >= chunk_size
        invariant
            1 <= chunk_size,
            pos <= num_frames,
            pos == plan@.len() * chunk_size,
            forall|i: int| 0 <= i < plan@.len() ==> (#[trigger] plan@[i]).0 == i * chunk_size,
            forall|i: int| 0 <= i < plan@.len() ==> (#[trigger] plan@[i]).1 == chunk_size,
        decreases num_frames - pos,
    {
        proof {
            assert((plan@.len() + 1) as int * chunk_size as int == plan@.len() as int
                * chunk_size as int + chunk_size as int) by (nonlinear_arith);
        }
        plan.push((pos, chunk_size));
        pos = pos + chunk_size;
    }
    proof {
        let n = num_frames as int;
        let cs = chunk_size as int;
        let full = plan@.len() as int;
        lemma_fundamental_div_mod_converse(n, cs, full, n - pos);
        assert(full == n / cs);
        assert(pos == n - n % cs);
    }
    if pos < num_frames {
        plan.push((pos, num_frames - pos));
    }
    proof {
        broadcast use vstd::arithmetic::div_mod::group_mod_properties;

        let n = num_frames as int;
        let cs = chunk_size as int;
        let nd = n / cs;
        lemma_fundamental_div_mod(n, cs);
        assert(nd * cs == cs * nd) by (nonlinear_arith);
        assert forall|i: int| 0 <= i < plan@.len() implies (#[trigger] plan@[i]).0 + plan@[i].1
            <= num_frames by {
            if i < nd {
                assert(i * cs + cs <= nd * cs) by (nonlinear_arith)
                    requires
                        0 <= i,
                        i + 1 <= nd,
                        1 <= cs,
                ;
            }
        }
    }
    plan
}

} // verus!
