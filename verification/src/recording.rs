//! Recordings as the listening history reports them, and recordings with a
//! resolved duration.

use vstd::prelude::*;
use crate::error::PipelineError;

verus! {

/// One track of a listening history, with the number of times it was played.
#[derive(Debug, Clone, PartialEq, Eq)]
pub struct Recording {
    pub artist_name: String,
    pub release_name: String,
    pub track_name: String,
    /// The identifier under which the metadata service knows the track, if
    /// the history names one.
    pub recording_mbid: Option<String>,
    pub listen_count: usize,
}

/// The mathematical content of a [`Recording`].
pub struct RecordingView {
    pub artist_name: Seq<char>,
    pub release_name: Seq<char>,
    pub track_name: Seq<char>,
    pub recording_mbid: Option<Seq<char>>,
    pub listen_count: nat,
}

/// The characters of an optional string.
pub open spec fn optional_text(text: Option<String>) -> Option<Seq<char>> {
    match text {
        Some(s) => Some(s@),
        None => None,
    }
}

impl View for Recording {
    type V = RecordingView;

    open spec fn view(&self) -> RecordingView {
        RecordingView {
            artist_name: self.artist_name@,
            release_name: self.release_name@,
            track_name: self.track_name@,
            recording_mbid: optional_text(self.recording_mbid),
            listen_count: self.listen_count as nat,
        }
    }
}

/// A recording together with the duration of the track in milliseconds.
#[derive(Debug, Clone, PartialEq, Eq)]
pub struct RecordingWithLength {
    pub recording: Recording,
    pub length: usize,
}

/// The mathematical content of a [`RecordingWithLength`].
pub struct RecordingWithLengthView {
    pub recording: RecordingView,
    pub length: nat,
}

impl View for RecordingWithLength {
    type V = RecordingWithLengthView;

    open spec fn view(&self) -> RecordingWithLengthView {
        RecordingWithLengthView { recording: self.recording@, length: self.length as nat }
    }
}

impl RecordingWithLengthView {
    /// Total time spent listening to the track, in milliseconds: the number
    /// of listens times the duration of one listen.
    pub open spec fn listening_time(self) -> nat {
        self.recording.listen_count * self.length
    }
}

impl RecordingWithLength {
    /// Total time spent listening to the track, in milliseconds. A product
    /// that does not fit a `usize` is an error, never a wrapped value.
    pub fn listening_time(&self) -> (time: Result<usize, PipelineError>)
        ensures
            match time {
                Ok(t) => t == self@.listening_time(),
                Err(e) => e == PipelineError::Computation && self@.listening_time() > usize::MAX,
            },
    {
        match self.recording.listen_count.checked_mul(self.length) {
            Some(t) => Ok(t),
            None => Err(PipelineError::Computation),
        }
    }
}

/// The views of a sequence of recordings.
pub open spec fn recording_views(s: Seq<Recording>) -> Seq<RecordingView> {
    s.map_values(|r: Recording| r@)
}

/// The views of a sequence of recordings with durations.
pub open spec fn enriched_views(s: Seq<RecordingWithLength>) -> Seq<RecordingWithLengthView> {
    s.map_values(|e: RecordingWithLength| e@)
}

} // verus!
