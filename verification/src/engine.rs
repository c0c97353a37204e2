use vstd::prelude::*;

use vstd::arithmetic::mul::lemma_mul_inequality;

use crate::errors::PlaybackError;
use crate::pipeline::PreparedAudio;
use crate::shared::SharedPlaybackState;

verus! {

/// One in-flight preparation job: the file being prepared and the token
/// under which its result will be accepted. At most one pending load is
/// tracked at a time; a newer `play` supersedes it, and a superseded
/// worker's result no longer matches the tracked token, so it is dropped.
pub struct PendingLoad {
    pub file: String,
    pub token: u64,
}

/// What the control thread found when it looked for a worker result:
/// nothing yet, a finished preparation (tagged with the token its `play`
/// call returned), or a worker that went away without sending a result.
pub enum PollEvent {
    Empty,
    Finished { token: u64, outcome: Result<PreparedAudio, PlaybackError> },
    Disconnected { token: u64 },
}

/// A read-only snapshot of the engine, computed on demand: idle, loading a
/// file, or playing a file at some position. Position and duration are in
/// milliseconds, derived from frame counts via the device sample rate.
#[derive(Debug, Clone, PartialEq)]
pub enum PlaybackStatus {
    Idle,
    Loading { file: String },
    Playing { file: String, position_ms: u64, duration_ms: u64 },
}

/// Milliseconds of playback that `frames` frames take at `rate` frames per
/// second, saturating at the largest representable value.
pub open spec fn frames_to_ms(frames: int, rate: int) -> int {
    let ms = frames * 1000 / rate;
    if ms > u64::MAX {
        u64::MAX as int
    } else {
        ms
    }
}

fn frames_to_ms_exec(frames: usize, rate: u32) -> (ms: u64)
    requires
        1 <= rate,
    ensures
        ms == frames_to_ms(frames as int, rate as int),
{
    proof {
        lemma_mul_inequality(frames as int, u64::MAX as int, 1000);
    }
    let num: u128 = (frames as u128) * 1000;
    let q: u128 = num / (rate as u128);
    if q > u64::MAX as u128 {
        u64::MAX
    } else {
        q as u64
    }
}

/// The control-side playback engine: the device's negotiated format, the
/// currently playing file, the pending load (if any), and the token counter
/// for load requests. The shared playback cell is passed to each operation
/// so that the caller can keep it behind whatever cross-context guard the
/// real device callback needs.
pub struct PlaybackEngine {
    pub device_sample_rate: u32,
    pub device_channels: u16,
    pub current_file: Option<String>,
    pub pending: Option<PendingLoad>,
    pub next_token: u64,
}

/// The token that follows `t`, recycling after the counter is exhausted.
pub open spec fn next_token_after(t: u64) -> u64 {
    if t == u64::MAX {
        0
    } else {
        (t + 1) as u64
    }
}

impl PlaybackEngine {
    /// The device format is usable: at least one channel and a nonzero rate.
    pub open spec fn well_formed(&self) -> bool {
        &&& 1 <= self.device_sample_rate
        &&& 1 <= self.device_channels
    }

    /// Build an engine for an output device negotiated at `device_sample_rate`
    /// frames per second and `device_channels` channels. A device format with
    /// no channels or a zero rate is unusable and reported as a device error.
    pub fn new(device_sample_rate: u32, device_channels: u16) -> (r: Result<Self, PlaybackError>)
        ensures
            r is Ok <==> 1 <= device_sample_rate && 1 <= device_channels,
            r matches Ok(e) ==> e.well_formed() && e.device_sample_rate == device_sample_rate
                && e.device_channels == device_channels && e.current_file is None
                && e.pending is None && e.next_token == 0,
            r is Err ==> r matches Err(PlaybackError::DeviceFailure(_)),
    {
        if device_sample_rate == 0 || device_channels == 0 {
            return Err(
                PlaybackError::DeviceFailure(
                    String::from_str("unsupported device configuration"),
                ),
            );
        }
        Ok(
            PlaybackEngine {
                device_sample_rate,
                device_channels,
                current_file: None,
                pending: None,
                next_token: 0,
            },
        )
    }

    /// The `play` transition: silence the current audio at once (the flag
    /// drops before the new file is ready, so old and new audio never
    /// overlap), supersede any pending load, and record the new one under a
    /// fresh token. The sample buffer, cursor and frame count are untouched.
    pub open spec fn play_step(self, shared: SharedPlaybackState, path: String) -> (
        PlaybackEngine,
        SharedPlaybackState,
        u64,
    ) {
        let token = self.next_token;
        let engine = PlaybackEngine {
            device_sample_rate: self.device_sample_rate,
            device_channels: self.device_channels,
            current_file: self.current_file,
            pending: Some(PendingLoad { file: path, token }),
            next_token: next_token_after(self.next_token),
        };
        let cell = SharedPlaybackState {
            samples: shared.samples,
            cursor: shared.cursor,
            playing: false,
            total_frames: shared.total_frames,
        };
        (engine, cell, token)
    }

    /// Begin loading and playing a file; returns the token under which
    /// [`Self::poll`] will accept the prepared result. Never blocks: the
    /// caller hands the path to a fresh worker and feeds the worker's
    /// outcome back through `poll`.
    pub fn play(&mut self, shared: &mut SharedPlaybackState, path: String) -> (token: u64)
        ensures
            ({
                let (engine, cell, t) = old(self).play_step(*old(shared), path);
                &&& *final(self) == engine
                &&& *final(shared) == cell
                &&& token == t
            }),
    {
        shared.playing = false;
        let token = self.next_token;
        self.next_token = if self.next_token == u64::MAX {
            0
        } else {
            self.next_token + 1
        };
        self.pending = Some(PendingLoad { file: path, token });
        token
    }

    /// The `poll` transition. With no pending load, any event is ignored.
    /// With one pending: an empty event changes nothing; a result under a
    /// stale token (a superseded load) is dropped without any state change;
    /// a matching successful result commits the buffer (cursor reset, frame
    /// count recorded, flag raised, file recorded) and clears the pending
    /// load; a matching error payload clears the pending load and surfaces
    /// the error, leaving the flag down; a matching disconnect clears the
    /// pending load and surfaces a worker-terminated error.
    pub open spec fn poll_step(self, shared: SharedPlaybackState, event: PollEvent) -> (
        PlaybackEngine,
        SharedPlaybackState,
        Option<PlaybackError>,
    ) {
        match self.pending {
            None => (self, shared, None),
            Some(p) => match event {
                PollEvent::Empty => (self, shared, None),
                PollEvent::Finished { token, outcome } => if token != p.token {
                    (self, shared, None)
                } else {
                    match outcome {
                        Ok(audio) => {
                            let engine = PlaybackEngine {
                                device_sample_rate: self.device_sample_rate,
                                device_channels: self.device_channels,
                                current_file: Some(audio.file),
                                pending: None,
                                next_token: self.next_token,
                            };
                            let cell = SharedPlaybackState {
                                samples: audio.samples,
                                cursor: 0,
                                playing: true,
                                total_frames: audio.total_frames,
                            };
                            (engine, cell, None)
                        },
                        Err(e) => (
                            PlaybackEngine {
                                device_sample_rate: self.device_sample_rate,
                                device_channels: self.device_channels,
                                current_file: self.current_file,
                                pending: None,
                                next_token: self.next_token,
                            },
                            shared,
                            Some(e),
                        ),
                    }
                },
                PollEvent::Disconnected { token } => if token != p.token {
                    (self, shared, None)
                } else {
                    (
                        PlaybackEngine {
                            device_sample_rate: self.device_sample_rate,
                            device_channels: self.device_channels,
                            current_file: self.current_file,
                            pending: None,
                            next_token: self.next_token,
                        },
                        shared,
                        Some(PlaybackError::WorkerTerminated),
                    )
                },
            },
        }
    }

    /// Non-blocking check for a finished load; call it on a steady cadence.
    /// Commits a matching successful result into the shared cell and
    /// otherwise behaves as [`Self::poll_step`] states; returns at most one
    /// error per call.
    pub fn poll(&mut self, shared: &mut SharedPlaybackState, event: PollEvent) -> (r: Option<
        PlaybackError,
    >)
        ensures
            ({
                let (engine, cell, err) = old(self).poll_step(*old(shared), event);
                &&& *final(self) == engine
                &&& *final(shared) == cell
                &&& r == err
            }),
    {
        if self.pending.is_none() {
            return None;
        }
        let ptoken = self.pending.as_ref().unwrap().token;
        match event {
            PollEvent::Empty => None,
            PollEvent::Finished { token, outcome } => {
                if token != ptoken {
                    return None;
                }
                match outcome {
                    Ok(audio) => {
                        let PreparedAudio { samples, total_frames, file } = audio;
                        shared.samples = samples;
                        shared.cursor = 0;
                        shared.total_frames = total_frames;
                        shared.playing = true;
                        self.current_file = Some(file);
                        self.pending = None;
                        None
                    },
                    Err(e) => {
                        self.pending = None;
                        Some(e)
                    },
                }
            },
            PollEvent::Disconnected { token } => {
                if token != ptoken {
                    return None;
                }
                self.pending = None;
                Some(PlaybackError::WorkerTerminated)
            },
        }
    }

    /// The `stop` transition: flag down, pending load discarded, current
    /// file forgotten. Everything else is untouched, and stopping twice is
    /// the same as stopping once.
    pub open spec fn stop_step(self, shared: SharedPlaybackState) -> (
        PlaybackEngine,
        SharedPlaybackState,
    ) {
        let engine = PlaybackEngine {
            device_sample_rate: self.device_sample_rate,
            device_channels: self.device_channels,
            current_file: None,
            pending: None,
            next_token: self.next_token,
        };
        let cell = SharedPlaybackState {
            samples: shared.samples,
            cursor: shared.cursor,
            playing: false,
            total_frames: shared.total_frames,
        };
        (engine, cell)
    }

    /// Stop playback. Idempotent.
    pub fn stop(&mut self, shared: &mut SharedPlaybackState)
        ensures
            ({
                let (engine, cell) = old(self).stop_step(*old(shared));
                &&& *final(self) == engine
                &&& *final(shared) == cell
            }),
    {
        shared.playing = false;
        self.pending = None;
        self.current_file = None;
    }

    /// `true` while a background preparation is in progress.
    pub fn is_loading(&self) -> (b: bool)
        ensures
            b == (self.pending is Some),
    {
        self.pending.is_some()
    }

    /// The status the engine reports: a pending load shows as `Loading`; a
    /// lowered flag or no recorded file shows as `Idle`; otherwise `Playing`
    /// with position `cursor / channels` frames and duration `total_frames`
    /// frames, both converted to milliseconds at the device rate.
    pub open spec fn spec_status(self, shared: SharedPlaybackState) -> PlaybackStatus {
        match self.pending {
            Some(p) => PlaybackStatus::Loading { file: p.file },
            None => if !shared.playing {
                PlaybackStatus::Idle
            } else {
                match self.current_file {
                    None => PlaybackStatus::Idle,
                    Some(f) => PlaybackStatus::Playing {
                        file: f,
                        position_ms: frames_to_ms(
                            shared.cursor as int / self.device_channels as int,
                            self.device_sample_rate as int,
                        ) as u64,
                        duration_ms: frames_to_ms(
                            shared.total_frames as int,
                            self.device_sample_rate as int,
                        ) as u64,
                    },
                }
            },
        }
    }

    /// A read-only snapshot of the engine's state, for display.
    pub fn status(&self, shared: &SharedPlaybackState) -> (st: PlaybackStatus)
        requires
            self.well_formed(),
        ensures
            st == self.spec_status(*shared),
    {
        match &self.pending {
            Some(p) => PlaybackStatus::Loading { file: p.file.clone() },
            None => {
                if !shared.playing {
                    return PlaybackStatus::Idle;
                }
                match &self.current_file {
                    None => PlaybackStatus::Idle,
                    Some(f) => {
                        let frame = shared.cursor / (self.device_channels as usize);
                        PlaybackStatus::Playing {
                            file: f.clone(),
                            position_ms: frames_to_ms_exec(frame, self.device_sample_rate),
                            duration_ms: frames_to_ms_exec(
                                shared.total_frames,
                                self.device_sample_rate,
                            ),
                        }
                    },
                }
            },
        }
    }
}

/// Superseding a load really cancels it: after a second `play`, the first
/// call's token no longer matches the pending load, so a poll that delivers
/// the first worker's outcome — success or failure, whenever it arrives —
/// changes nothing and reports nothing. Only the second file's audio can
/// ever be committed.
pub proof fn lemma_superseded_load_never_commits(
    engine: PlaybackEngine,
    shared: SharedPlaybackState,
    first: String,
    second: String,
    outcome: Result<PreparedAudio, PlaybackError>,
)
    ensures
        ({
            let (e1, s1, t1) = engine.play_step(shared, first);
            let (e2, s2, t2) = e1.play_step(s1, second);
            &&& t1 != t2
            &&& e2.pending matches Some(p) && p.file == second && p.token == t2
            &&& e2.poll_step(s2, PollEvent::Finished { token: t1, outcome }) == (
                e2,
                s2,
                None::<PlaybackError>,
            )
        }),
{
}

/// A poll with no pending load — nothing was ever played, or the last load
/// already finished — is a no-op and reports no error, whatever event the
/// caller hands it.
pub proof fn lemma_poll_without_pending_is_noop(
    engine: PlaybackEngine,
    shared: SharedPlaybackState,
    event: PollEvent,
)
    requires
        engine.pending is None,
    ensures
        engine.poll_step(shared, event) == (engine, shared, None::<PlaybackError>),
{
}

/// Once the committed buffer is exhausted (the cursor has reached the end
/// of the buffer), the next render step lowers the flag, and the engine —
/// with no new load pending — thereafter reports `Idle`.
pub proof fn lemma_exhausted_buffer_reports_idle(
    engine: PlaybackEngine,
    shared: SharedPlaybackState,
    requested: int,
)
    requires
        engine.pending is None,
        shared.cursor >= shared.samples@.len(),
        requested >= 1,
    ensures
        engine.spec_status(shared.render_step(requested).0) == PlaybackStatus::Idle,
{
}

} // verus!
