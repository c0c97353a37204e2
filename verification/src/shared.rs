use vstd::prelude::*;

verus! {

/// The cross-context playback cell: the committed device-ready buffer, the
/// read cursor (in individual interleaved samples, not frames), the flag
/// that gates whether the render step emits audio or silence, and the
/// committed buffer's frame count.
///
/// The control side commits a freshly prepared buffer (resetting the cursor
/// and raising the flag) and lowers the flag on stop; the device side calls
/// [`Self::render`] once per hardware callback. The caller that wires this
/// to a real device keeps the cell behind a non-blocking lock: when the
/// lock is contended the callback emits silence instead of waiting, so this
/// type never needs to block.
pub struct SharedPlaybackState {
    pub samples: Vec<u32>,
    pub cursor: usize,
    pub playing: bool,
    pub total_frames: usize,
}

/// A buffer of `len` silent samples (the all-zero word is silence).
pub fn silence_buffer(len: usize) -> (out: Vec<u32>)
    ensures
        out@ == Seq::new(len as nat, |i: int| 0u32),
{
    let mut out: Vec<u32> = Vec::new();
    let mut n: usize = 0;
    while n < len
        invariant
            n <= len,
            out@.len() == n,
            forall|i: int| 0 <= i < n ==> out@[i] == 0u32,
        decreases len - n,
    {
        out.push(0u32);
        n = n + 1;
    }
    proof {
        assert(out@ =~= Seq::new(len as nat, |i: int| 0u32));
    }
    out
}

impl SharedPlaybackState {
    /// An empty cell: no buffer, cursor at zero, not playing.
    pub fn new() -> (s: Self)
        ensures
            s.samples@.len() == 0,
            s.cursor == 0,
            !s.playing,
            s.total_frames == 0,
    {
        SharedPlaybackState { samples: Vec::new(), cursor: 0, playing: false, total_frames: 0 }
    }

    /// How many samples of the committed buffer are still unread.
    pub open spec fn spec_remaining(self) -> int {
        if self.cursor <= self.samples@.len() {
            self.samples@.len() - self.cursor
        } else {
            0
        }
    }

    /// One render step on the cell: the state afterwards and the samples
    /// handed to the device. With the flag down the output is pure silence
    /// and nothing changes. With the flag up, `min(remaining, requested)`
    /// samples are copied from the cursor onwards, any shortfall is filled
    /// with silence, the cursor advances by the number of samples copied,
    /// and the flag drops exactly when the buffer could not fill the whole
    /// request (end of track).
    pub open spec fn render_step(self, requested: int) -> (SharedPlaybackState, Seq<u32>) {
        if !self.playing {
            (self, Seq::new(requested as nat, |i: int| 0u32))
        } else {
            let k = if self.spec_remaining() < requested {
                self.spec_remaining()
            } else {
                requested
            };
            let out = Seq::new(
                requested as nat,
                |i: int|
                    if i < k {
                        self.samples@[self.cursor + i]
                    } else {
                        0u32
                    },
            );
            let after = SharedPlaybackState {
                samples: self.samples,
                cursor: (self.cursor + k) as usize,
                playing: k == requested,
                total_frames: self.total_frames,
            };
            (after, out)
        }
    }

    /// Fill one device request of `requested` samples. This is the
    /// hardware-callback work: it neither blocks nor waits, and it is the
    /// only operation that advances the cursor or lowers the flag on
    /// natural exhaustion.
    pub fn render(&mut self, requested: usize) -> (out: Vec<u32>)
        ensures
            ({
                let (after, data) = old(self).render_step(requested as int);
                &&& *final(self) == after
                &&& out@ == data
            }),
    {
        if !self.playing {
            return silence_buffer(requested);
        }
        let len = self.samples.len();
        let cursor = self.cursor;
        let remaining = if cursor <= len {
            len - cursor
        } else {
            0
        };
        let to_copy = if remaining < requested {
            remaining
        } else {
            requested
        };
        let mut out: Vec<u32> = Vec::new();
        let mut i: usize = 0;
        while i < to_copy
            invariant
                i <= to_copy,
                to_copy <= remaining,
                remaining == old(self).spec_remaining(),
                cursor == old(self).cursor,
                remaining > 0 ==> cursor + remaining == self.samples@.len(),
                self.samples@.len() <= usize::MAX,
                *self == *old(self),
                out@.len() == i,
                forall|j: int| 0 <= j < i ==> out@[j] == self.samples@[cursor + j],
            decreases to_copy - i,
        {
            out.push(self.samples[cursor + i]);
            i = i + 1;
        }
        while i < requested
            invariant
                to_copy <= i <= requested,
                cursor == old(self).cursor,
                *self == *old(self),
                out@.len() == i,
                forall|j: int| 0 <= j < to_copy ==> out@[j] == self.samples@[cursor + j],
                forall|j: int| to_copy <= j < i ==> out@[j] == 0u32,
            decreases requested - i,
        {
            out.push(0u32);
            i = i + 1;
        }
        if to_copy < requested {
            self.playing = false;
        }
        self.cursor = cursor + to_copy;
        proof {
            let (after, data) = old(self).render_step(requested as int);
            assert(out@ =~= data);
        }
        out
    }
}

} // verus!
