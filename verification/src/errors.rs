//! The error kinds of the pipeline.

use crate::text::concat;
use vstd::prelude::*;
use vstd::string::StringExecFns;

verus! {

/// Everything that can go wrong while aggregating records and assets.
///
/// `Transport`, `RemoteStatus`, `Decode`, `Encode` and `Io` are per-branch or
/// per-asset failures; `InvalidEnumValue`, `MissingMapping` and
/// `IntegrityViolation` are data-integrity errors that are fatal to the whole
/// run.
#[derive(Debug)]
pub enum PipelineError {
    /// A network-level failure, with the transport's description.
    Transport(String),
    /// A non-success HTTP response status.
    RemoteStatus(u16),
    /// Malformed JSON or image bytes.
    Decode(String),
    /// An unparseable rarity or elite tag; carries the offending raw value.
    InvalidEnumValue(String),
    /// A facility id absent from the static color palette.
    MissingMapping(String),
    /// An operator with no matching skill assignment; carries its id.
    IntegrityViolation(String),
    /// An image re-encode failure.
    Encode(String),
    /// A filesystem failure.
    Io(String),
}

impl PipelineError {
    /// What the message of this error says.
    pub open spec fn spec_message(&self) -> Seq<char> {
        match self {
            PipelineError::Transport(s) => "network transport failure: "@ + s@,
            PipelineError::RemoteStatus(_) => "remote returned a non-success status"@,
            PipelineError::Decode(s) => "malformed upstream data: "@ + s@,
            PipelineError::InvalidEnumValue(s) => "invalid enum value: "@ + s@,
            PipelineError::MissingMapping(s) => "no color mapping for facility: "@ + s@,
            PipelineError::IntegrityViolation(s) => "operator has no skill assignments: "@ + s@,
            PipelineError::Encode(s) => "image encoding failed: "@ + s@,
            PipelineError::Io(s) => "filesystem failure: "@ + s@,
        }
    }

    /// A human-readable description of the error.
    pub fn message(&self) -> (r: String)
        ensures
            r@ == self.spec_message(),
    {
        match self {
            PipelineError::Transport(s) => concat("network transport failure: ", s.as_str()),
            PipelineError::RemoteStatus(_) => String::from_str(
                "remote returned a non-success status",
            ),
            PipelineError::Decode(s) => concat("malformed upstream data: ", s.as_str()),
            PipelineError::InvalidEnumValue(s) => concat("invalid enum value: ", s.as_str()),
            PipelineError::MissingMapping(s) => concat("no color mapping for facility: ", s.as_str()),
            PipelineError::IntegrityViolation(s) => concat(
                "operator has no skill assignments: ",
                s.as_str(),
            ),
            PipelineError::Encode(s) => concat("image encoding failed: ", s.as_str()),
            PipelineError::Io(s) => concat("filesystem failure: ", s.as_str()),
        }
    }
}

} // verus!
