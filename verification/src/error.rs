//! The ways in which a run can fail.

use vstd::prelude::*;

verus! {

/// Why a run was given up. Every one of these ends the run: no partial
/// report is produced.
#[derive(Debug, Clone, Copy, PartialEq, Eq, Structural)]
pub enum PipelineError {
    /// A request to one of the services did not complete.
    Transport,
    /// A payload of the history service did not have the expected shape.
    Parse,
    /// The duration of one recording could not be resolved, and trying
    /// again would not help.
    Metadata,
    /// A listening time does not fit the machine's integers.
    Computation,
    /// A rule table is missing or malformed.
    Config,
}

impl PipelineError {
    /// The sentence that describes the error.
    pub open spec fn message_text(self) -> Seq<char> {
        match self {
            PipelineError::Transport => "a request to a service failed"@,
            PipelineError::Parse => "a payload did not have the expected shape"@,
            PipelineError::Metadata => "the duration of a recording could not be resolved"@,
            PipelineError::Computation => "a listening time exceeds the integer range"@,
            PipelineError::Config => "a rule table is missing or malformed"@,
        }
    }

    /// Describes the error in a sentence.
    pub fn message(&self) -> (text: &'static str)
        ensures
            text@ == self.message_text(),
    {
        match self {
            PipelineError::Transport => "a request to a service failed",
            PipelineError::Parse => "a payload did not have the expected shape",
            PipelineError::Metadata => "the duration of a recording could not be resolved",
            PipelineError::Computation => "a listening time exceeds the integer range",
            PipelineError::Config => "a rule table is missing or malformed",
        }
    }
}

} // verus!
