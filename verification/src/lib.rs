//! Ranks the recordings of a listening history by total listening time.
//!
//! The crate holds the decisions of the pipeline: which recordings are
//! skipped, which identifier a recording is looked up under, how the
//! metadata service is paced and retried, and how the enriched recordings
//! are ranked. Requests, files and clocks belong to the caller, which
//! performs the actions the crate asks for and reports what happened.

pub mod enrich;
pub mod error;
pub mod history;
pub mod lookup;
pub mod rank;
pub mod recording;
pub mod rules;
pub mod text;
