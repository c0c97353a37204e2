use vstd::prelude::*;

use crate::engine::PlaybackEngine;
use crate::engine::PlaybackStatus;
use crate::engine::PollEvent;
use crate::errors::BrowserError;
use crate::errors::PlaybackError;
use crate::errors::ScanError;
use crate::listing::DirListing;
use crate::listing::FileEntry;
use crate::shared::SharedPlaybackState;
use crate::text::file_name_of;
use crate::text::spec_file_name;

verus! {

/// The sample browser's control state: the directory history (current
/// directory last), the entries of the current listing, the selection, the
/// last playback or scan error's text, and the playback engine's control
/// state.
///
/// The browser decides; its caller performs the I/O. Each navigation
/// operation takes the outcome of the directory read it asked for (see the
/// `*_target` queries), and each playback operation threads the shared
/// playback cell through, as the engine does.
pub struct SampleBrowser {
    pub history: Vec<String>,
    pub entries: Vec<FileEntry>,
    pub selected: Option<usize>,
    pub last_error: Option<String>,
    pub playback: PlaybackEngine,
}

impl SampleBrowser {
    /// The device format the browser was built for is usable.
    pub open spec fn well_formed(&self) -> bool {
        self.playback.well_formed()
    }

    /// A browser for an output device negotiated at the given format. An
    /// unusable format (no channels or a zero rate) is a playback error, as
    /// when no device can be opened.
    pub fn new(device_sample_rate: u32, device_channels: u16) -> (r: Result<Self, BrowserError>)
        ensures
            r is Ok <==> 1 <= device_sample_rate && 1 <= device_channels,
            r matches Ok(b) ==> b.well_formed() && b.history@.len() == 0 && b.entries@.len() == 0
                && b.selected is None && b.last_error is None
                && b.playback.device_sample_rate == device_sample_rate
                && b.playback.device_channels == device_channels
                && b.playback.current_file is None && b.playback.pending is None,
            r is Err ==> r matches Err(BrowserError::Playback(PlaybackError::DeviceFailure(_))),
    {
        match PlaybackEngine::new(device_sample_rate, device_channels) {
            Ok(playback) => Ok(
                SampleBrowser {
                    history: Vec::new(),
                    entries: Vec::new(),
                    selected: None,
                    last_error: None,
                    playback,
                },
            ),
            Err(e) => Err(BrowserError::Playback(e)),
        }
    }

    /// Feed the engine one poll outcome; a surfaced playback error is
    /// recorded as the last error's text.
    pub fn poll(&mut self, shared: &mut SharedPlaybackState, event: PollEvent)
        ensures
            ({
                let (engine, cell, err) = old(self).playback.poll_step(*old(shared), event);
                &&& final(self).playback == engine
                &&& *final(shared) == cell
                &&& final(self).history == old(self).history
                &&& final(self).entries == old(self).entries
                &&& final(self).selected == old(self).selected
                &&& match err {
                    None => final(self).last_error == old(self).last_error,
                    Some(e) => final(self).last_error matches Some(m) && m@ == e.message_spec(),
                }
            }),
    {
        if let Some(err) = self.playback.poll(shared, event) {
            self.last_error = Some(err.message());
        }
    }

    /// Show a fresh directory listing, forgetting the old history. On a
    /// scan error nothing changes and the error is handed back.
    pub fn open_directory(&mut self, outcome: Result<DirListing, ScanError>) -> (r: Result<
        (),
        BrowserError,
    >)
        ensures
            outcome matches Ok(l) ==> r is Ok && final(self).history@ == seq![l.root]
                && final(self).entries == l.entries && final(self).selected is None
                && final(self).last_error is None,
            outcome matches Err(e) ==> (r matches Err(BrowserError::Scan(e2)) && e2 == e)
                && *final(self) == *old(self),
            final(self).playback == old(self).playback,
    {
        match outcome {
            Ok(l) => {
                let DirListing { root, entries } = l;
                let mut history: Vec<String> = Vec::new();
                history.push(root);
                self.history = history;
                self.entries = entries;
                self.selected = None;
                self.last_error = None;
                Ok(())
            },
            Err(e) => Err(BrowserError::Scan(e)),
        }
    }

    /// The directory a `navigate_into(index)` would descend into: the path
    /// of the indexed entry, when that entry exists and is a directory.
    pub fn navigate_target(&self, index: usize) -> (r: Result<String, BrowserError>)
        ensures
            r is Ok <==> index < self.entries@.len() && self.entries@[index as int].is_directory,
            r matches Ok(p) ==> p == self.entries@[index as int].path,
            r is Err ==> r matches Err(BrowserError::NoSelection),
    {
        if index < self.entries.len() && self.entries[index].is_directory {
            Ok(self.entries[index].path.clone())
        } else {
            Err(BrowserError::NoSelection)
        }
    }

    /// Descend into the indexed subdirectory, given the outcome of listing
    /// it. An index that does not name a subdirectory is refused; a scan
    /// error leaves everything unchanged.
    pub fn navigate_into(&mut self, index: usize, outcome: Result<DirListing, ScanError>) -> (r:
        Result<(), BrowserError>)
        ensures
            !(index < old(self).entries@.len() && old(self).entries@[index as int].is_directory)
                ==> (r matches Err(BrowserError::NoSelection)) && *final(self) == *old(self),
            (index < old(self).entries@.len() && old(self).entries@[index as int].is_directory)
                ==> match outcome {
                Ok(l) => r is Ok && final(self).history@ == old(self).history@.push(l.root)
                    && final(self).entries == l.entries && final(self).selected is None
                    && final(self).last_error == old(self).last_error,
                Err(e) => (r matches Err(BrowserError::Scan(e2)) && e2 == e) && *final(self)
                    == *old(self),
            },
            final(self).playback == old(self).playback,
    {
        if !(index < self.entries.len() && self.entries[index].is_directory) {
            return Err(BrowserError::NoSelection);
        }
        match outcome {
            Ok(l) => {
                let DirListing { root, entries } = l;
                self.history.push(root);
                self.entries = entries;
                self.selected = None;
                Ok(())
            },
            Err(e) => Err(BrowserError::Scan(e)),
        }
    }

    /// The parent directory a `navigate_up` would return to, or `None` at
    /// the top of the history.
    pub fn navigate_up_target(&self) -> (r: Option<String>)
        ensures
            self.history@.len() <= 1 ==> r is None,
            self.history@.len() > 1 ==> (r matches Some(p) && p == self.history@[self.history@.len() - 2]),
    {
        if self.history.len() <= 1 {
            return None;
        }
        Some(self.history[self.history.len() - 2].clone())
    }

    /// Go up one directory, given the outcome of listing the parent. At the
    /// top of the history this is a no-op. The history level is consumed
    /// even when the listing failed.
    pub fn navigate_up(&mut self, outcome: Result<DirListing, ScanError>) -> (r: Result<
        (),
        BrowserError,
    >)
        ensures
            old(self).history@.len() <= 1 ==> r is Ok && *final(self) == *old(self),
            old(self).history@.len() > 1 ==> match outcome {
                Ok(l) => r is Ok && final(self).history@ == old(self).history@.drop_last()
                    && final(self).entries == l.entries && final(self).selected is None
                    && final(self).last_error == old(self).last_error,
                Err(e) => (r matches Err(BrowserError::Scan(e2)) && e2 == e) && final(self).history@ == old(self).history@.drop_last() && final(self).entries == old(self).entries && final(self).selected == old(self).selected && final(self).last_error
                    == old(self).last_error,
            },
            final(self).playback == old(self).playback,
    {
        if self.history.len() <= 1 {
            return Ok(());
        }
        self.history.pop();
        proof {
            assert(self.history@ =~= old(self).history@.drop_last());
        }
        match outcome {
            Ok(l) => {
                let DirListing { root: _, entries } = l;
                self.entries = entries;
                self.selected = None;
                Ok(())
            },
            Err(e) => Err(BrowserError::Scan(e)),
        }
    }

    /// The directory a `navigate_to_breadcrumb(level)` would re-list, when
    /// the level exists.
    pub fn breadcrumb_target(&self, level: usize) -> (r: Option<String>)
        ensures
            level < self.history@.len() ==> (r matches Some(p) && p == self.history@[level as int]),
            level >= self.history@.len() ==> r is None,
    {
        if level < self.history.len() {
            Some(self.history[level].clone())
        } else {
            None
        }
    }

    /// Jump back to a history level, given the outcome of re-listing that
    /// directory. A level beyond the history is a no-op. The history is
    /// truncated even when the listing failed.
    pub fn navigate_to_breadcrumb(
        &mut self,
        level: usize,
        outcome: Result<DirListing, ScanError>,
    ) -> (r: Result<(), BrowserError>)
        ensures
            level >= old(self).history@.len() ==> r is Ok && *final(self) == *old(self),
            level < old(self).history@.len() ==> match outcome {
                Ok(l) => r is Ok && final(self).history@ == old(self).history@.subrange(
                    0,
                    level + 1,
                ) && final(self).entries == l.entries && final(self).selected is None && final(self).last_error == old(self).last_error,
                Err(e) => (r matches Err(BrowserError::Scan(e2)) && e2 == e) && final(self).history@ == old(self).history@.subrange(0, level + 1) && final(self).entries
                    == old(self).entries && final(self).selected == old(self).selected && final(self).last_error == old(self).last_error,
            },
            final(self).playback == old(self).playback,
    {
        if level >= self.history.len() {
            return Ok(());
        }
        self.history.truncate(level + 1);
        match outcome {
            Ok(l) => {
                let DirListing { root: _, entries } = l;
                self.entries = entries;
                self.selected = None;
                Ok(())
            },
            Err(e) => Err(BrowserError::Scan(e)),
        }
    }

    /// The entries of the current listing, subdirectories first.
    pub fn entries(&self) -> (r: &Vec<FileEntry>)
        ensures
            *r == self.entries,
    {
        &self.entries
    }

    /// The current directory, if one is open.
    pub fn current_directory(&self) -> (r: Option<String>)
        ensures
            self.history@.len() == 0 ==> r is None,
            self.history@.len() > 0 ==> (r matches Some(p) && p == self.history@[self.history@.len() - 1]),
    {
        if self.history.len() == 0 {
            return None;
        }
        Some(self.history[self.history.len() - 1].clone())
    }

    /// The display names of the history levels, top first: each path's last
    /// component, or the whole path where it has none.
    pub fn breadcrumbs(&self) -> (r: Vec<String>)
        ensures
            r@.len() == self.history@.len(),
            forall|i: int|
                0 <= i < r@.len() ==> (#[trigger] r@[i])@ == spec_file_name(self.history@[i]@),
    {
        let mut r: Vec<String> = Vec::new();
        let mut i: usize = 0;
        while i < self.history.len()
            invariant
                i <= self.history@.len(),
                r@.len() == i,
                forall|j: int|
                    0 <= j < i ==> (#[trigger] r@[j])@ == spec_file_name(self.history@[j]@),
            decreases self.history@.len() - i,
        {
            r.push(file_name_of(self.history[i].as_str()));
            i = i + 1;
        }
        r
    }

    /// Whether the history has a level to go up to.
    pub fn can_navigate_up(&self) -> (r: bool)
        ensures
            r == (self.history@.len() > 1),
    {
        self.history.len() > 1
    }

    /// Select the indexed entry; an index past the listing is ignored.
    pub fn select(&mut self, index: usize)
        ensures
            index < old(self).entries@.len() ==> *final(self) == (SampleBrowser {
                selected: Some(index),
                ..*old(self)
            }),
            index >= old(self).entries@.len() ==> *final(self) == *old(self),
    {
        if index < self.entries.len() {
            self.selected = Some(index);
        }
    }

    /// The selected entry's index, if any.
    pub fn selected(&self) -> (r: Option<usize>)
        ensures
            r == self.selected,
    {
        self.selected
    }

    /// Start playing the selected file: clears the last error and hands the
    /// path to the engine under a fresh token. Returns the path to prepare
    /// and its token, so the caller can start a worker; returns `None`, and
    /// changes nothing, when nothing playable is selected.
    pub fn play_selected(&mut self, shared: &mut SharedPlaybackState) -> (r: Option<(String, u64)>)
        ensures
            ({
                let sel_ok = old(self).selected matches Some(i) && i < old(self).entries@.len()
                    && !old(self).entries@[i as int].is_directory;
                if sel_ok {
                    let i = old(self).selected->0;
                    let path = old(self).entries@[i as int].path;
                    let (engine, cell, t) = old(self).playback.play_step(*old(shared), path);
                    &&& r matches Some(pt) && pt.0 == path && pt.1 == t
                    &&& final(self).playback == engine
                    &&& *final(shared) == cell
                    &&& final(self).last_error is None
                    &&& final(self).history == old(self).history
                    &&& final(self).entries == old(self).entries
                    &&& final(self).selected == old(self).selected
                } else {
                    &&& r is None
                    &&& *final(self) == *old(self)
                    &&& *final(shared) == *old(shared)
                }
            }),
    {
        let index = match self.selected {
            Some(i) => i,
            None => {
                return None;
            },
        };
        if !(index < self.entries.len()) || self.entries[index].is_directory {
            return None;
        }
        let path = self.entries[index].path.clone();
        self.last_error = None;
        let token = self.playback.play(shared, path.clone());
        Some((path, token))
    }

    /// Stop playback: flag down, pending load discarded, current file
    /// forgotten. The listing and the last error are untouched.
    pub fn stop(&mut self, shared: &mut SharedPlaybackState)
        ensures
            ({
                let (engine, cell) = old(self).playback.stop_step(*old(shared));
                &&& final(self).playback == engine
                &&& *final(shared) == cell
                &&& final(self).history == old(self).history
                &&& final(self).entries == old(self).entries
                &&& final(self).selected == old(self).selected
                &&& final(self).last_error == old(self).last_error
            }),
    {
        self.playback.stop(shared);
    }

    /// The engine's status snapshot, for display.
    pub fn playback_status(&self, shared: &SharedPlaybackState) -> (st: PlaybackStatus)
        requires
            self.well_formed(),
        ensures
            st == self.playback.spec_status(*shared),
    {
        self.playback.status(shared)
    }

    /// The last recorded error's text, if any.
    pub fn last_error(&self) -> (r: Option<String>)
        ensures
            r == self.last_error,
    {
        match &self.last_error {
            Some(m) => Some(m.clone()),
            None => None,
        }
    }

    /// Forget the last recorded error.
    pub fn clear_error(&mut self)
        ensures
            *final(self) == (SampleBrowser { last_error: None, ..*old(self) }),
    {
        self.last_error = None;
    }
}

/// Display-side state of the browser panel: the entry the user clicked
/// last. The drawing itself lives with the caller's UI toolkit; the panel
/// only remembers what the library cannot see.
pub struct BrowserPanel {
    pub last_clicked: Option<usize>,
}

impl BrowserPanel {
    /// A panel with nothing clicked yet.
    pub fn new() -> (p: BrowserPanel)
        ensures
            p.last_clicked is None,
    {
        BrowserPanel { last_clicked: None }
    }
}

impl Default for BrowserPanel {
    /// The same panel as [`BrowserPanel::new`] builds.
    fn default() -> (p: Self)
        ensures
            p.last_clicked is None,
    {
        BrowserPanel::new()
    }
}

} // verus!
