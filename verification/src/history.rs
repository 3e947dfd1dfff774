//! Paging through the listening history.
//!
//! The history service hands out the recordings of a user page by page.
//! [`HistoryFetch`] decides which page to ask for next and when to stop;
//! the caller makes the requests.

use vstd::prelude::*;
use vstd::string::StringExecFns;
use crate::error::PipelineError;
use crate::recording::{recording_views, Recording, RecordingView};
use crate::text::{decimal, render_decimal};

verus! {

/// The number of recordings asked for in one page.
pub const PAGE_SIZE: usize = 100;

/// The path and query of the request for one page of a user's history.
pub open spec fn history_path(user: Seq<char>, offset: nat, range: Seq<char>) -> Seq<char> {
    "/stats/user/"@ + user + "/recordings?count="@ + decimal(PAGE_SIZE as nat) + "&offset="@
        + decimal(offset) + "&range="@ + range
}

/// Builds the path and query of the request for the page of a user's
/// history that starts at `offset`, for the given range of time.
pub fn history_request_path(user: &str, offset: usize, range: &str) -> (path: String)
    ensures
        path@ == history_path(user@, offset as nat, range@),
{
    let mut path = "/stats/user/".to_owned();
    path.append(user);
    path.append("/recordings?count=");
    path.append(render_decimal(PAGE_SIZE).as_str());
    path.append("&offset=");
    path.append(render_decimal(offset).as_str());
    path.append("&range=");
    path.append(range);
    path
}

/// Tells whether a status of the history service says that the response
/// carries a page: 200 to 299 does, and nothing else. A response with any
/// other status is a page that could not be had.
pub fn page_status_is_success(status: u16) -> (ok: bool)
    ensures
        ok == (200 <= status <= 299),
{
    200 <= status && status <= 299
}

/// The progress of one fetch of the history.
pub struct HistoryFetch {
    min_count: usize,
    recordings: Vec<Recording>,
    exhausted: bool,
    failed: bool,
}

/// The mathematical content of a [`HistoryFetch`].
pub struct HistoryFetchView {
    /// The number of recordings that the fetch is to collect.
    pub min_count: nat,
    /// The recordings collected so far, in the order received.
    pub recordings: Seq<RecordingView>,
    /// Whether the service returned an empty page.
    pub exhausted: bool,
    /// Whether a page could not be had.
    pub failed: bool,
}

impl HistoryFetchView {
    /// Whether another page is to be asked for.
    pub open spec fn wants_more(self) -> bool {
        !self.failed && !self.exhausted && self.recordings.len() < self.min_count
    }

    /// Whether the fetch ran to its end: enough recordings were collected,
    /// or the service has no more.
    pub open spec fn is_complete(self) -> bool {
        !self.failed && (self.exhausted || self.recordings.len() >= self.min_count)
    }

    /// The fetch after a page arrived. An empty page ends the fetch; any
    /// other page is added behind what was collected. A page that was not
    /// asked for changes nothing.
    pub open spec fn after_page(self, page: Seq<RecordingView>) -> HistoryFetchView {
        if !self.wants_more() {
            self
        } else if page.len() == 0 {
            HistoryFetchView { exhausted: true, ..self }
        } else {
            HistoryFetchView { recordings: self.recordings + page, ..self }
        }
    }

    /// The fetch after a page could not be had: it has failed, and what was
    /// collected is given up.
    pub open spec fn after_failure(self) -> HistoryFetchView {
        HistoryFetchView { failed: true, recordings: Seq::empty(), ..self }
    }
}

impl View for HistoryFetch {
    type V = HistoryFetchView;

    closed spec fn view(&self) -> HistoryFetchView {
        HistoryFetchView {
            min_count: self.min_count as nat,
            recordings: recording_views(self.recordings@),
            exhausted: self.exhausted,
            failed: self.failed,
        }
    }
}

impl HistoryFetch {
    /// Starts a fetch that is to collect at least `min_count` recordings.
    pub fn new(min_count: usize) -> (fetch: HistoryFetch)
        ensures
            fetch@ == (HistoryFetchView {
                min_count: min_count as nat,
                recordings: Seq::empty(),
                exhausted: false,
                failed: false,
            }),
    {
        let fetch = HistoryFetch {
            min_count,
            recordings: Vec::new(),
            exhausted: false,
            failed: false,
        };
        assert(recording_views(fetch.recordings@) =~= Seq::empty());
        fetch
    }

    /// The offset of the page to ask for next, or `None` when no further
    /// page is to be asked for. The offset is the number of recordings
    /// collected so far.
    pub fn next_offset(&self) -> (offset: Option<usize>)
        ensures
            self@.wants_more() ==> offset is Some && offset->0 == self@.recordings.len(),
            !self@.wants_more() ==> offset is None,
    {
        if !self.failed && !self.exhausted && self.recordings.len() < self.min_count {
            Some(self.recordings.len())
        } else {
            None
        }
    }

    /// The number of recordings collected so far.
    pub fn collected(&self) -> (count: usize)
        ensures
            count == self@.recordings.len(),
    {
        self.recordings.len()
    }

    /// Takes in the page that the service returned for the offset last
    /// asked for.
    pub fn accept_page(&mut self, page: Vec<Recording>)
        ensures
            final(self)@ == old(self)@.after_page(recording_views(page@)),
    {
        if !self.failed && !self.exhausted && self.recordings.len() < self.min_count {
            if page.len() == 0 {
                self.exhausted = true;
            } else {
                let mut page = page;
                let ghost before = self.recordings@;
                let ghost added = page@;
                self.recordings.append(&mut page);
                assert(recording_views(before + added) =~= recording_views(before)
                    + recording_views(added));
            }
        }
    }

    /// Records that a page could not be had, or did not have the expected
    /// shape. The fetch has then failed for good.
    pub fn page_failed(&mut self)
        ensures
            final(self)@ == old(self)@.after_failure(),
    {
        self.failed = true;
        self.recordings = Vec::new();
        assert(recording_views(self.recordings@) =~= Seq::empty());
    }

    /// Ends the fetch. A fetch that ran to its end gives the recordings
    /// collected, in the order received; any other gives no recordings at
    /// all, but [`PipelineError::Transport`].
    pub fn into_recordings(self) -> (outcome: Result<Vec<Recording>, PipelineError>)
        ensures
            match outcome {
                Ok(recordings) => self@.is_complete() && recording_views(recordings@)
                    == self@.recordings,
                Err(e) => e == PipelineError::Transport && !self@.is_complete(),
            },
    {
        if !self.failed && (self.exhausted || self.recordings.len() >= self.min_count) {
            Ok(self.recordings)
        } else {
            Err(PipelineError::Transport)
        }
    }
}

} // verus!
