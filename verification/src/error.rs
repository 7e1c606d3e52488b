//! Failures of the ingestion path.
use vstd::prelude::*;

verus! {

/// Why ingestion stopped.
#[derive(Clone, Copy, Debug, PartialEq, Eq, Hash, Structural)]
pub enum StreamError {
    /// A segment starts with a tag that names no kind of segment.
    UnknownSegmentType,
    /// A frame segment carries a frame type code other than 0, 1 or 2.
    InvalidFrameType,
    /// A track could not be created under its name.
    TrackCreationFailed,
    /// The decode time of a B frame does not fit the priority field.
    TimestampOverflow,
    /// The counter of B-groups left the range of the priority field.
    PGroupOverflow,
    /// More B frames followed one another than the priority field can number.
    BFrameIndexOverflow,
    /// A frame arrived before the first keyframe opened a group.
    NoCurrentGroup,
    /// A group or object counter reached the end of its integer type.
    CounterOverflow,
    /// The transport refused a group, an object or a payload.
    TransportWriteFailed,
}

impl StreamError {
    /// A short description of the failure, for logs.
    pub fn message(&self) -> (text: &'static str)
        ensures
            text@ == self.spec_message()@,
    {
        match self {
            StreamError::UnknownSegmentType => "Unknown segment type",
            StreamError::InvalidFrameType => "Invalid frame type",
            StreamError::TrackCreationFailed => "Failed to create track",
            StreamError::TimestampOverflow => "Timestamp overflow in priority calculation",
            StreamError::PGroupOverflow => "Max value for P-group exceeded",
            StreamError::BFrameIndexOverflow => "Max value for b-frame index exceeded",
            StreamError::NoCurrentGroup => "No current group",
            StreamError::CounterOverflow => "Counter overflow",
            StreamError::TransportWriteFailed => "Transport write failed",
        }
    }

    /// The text that [`StreamError::message`] returns.
    pub open spec fn spec_message(&self) -> &'static str {
        match self {
            StreamError::UnknownSegmentType => "Unknown segment type",
            StreamError::InvalidFrameType => "Invalid frame type",
            StreamError::TrackCreationFailed => "Failed to create track",
            StreamError::TimestampOverflow => "Timestamp overflow in priority calculation",
            StreamError::PGroupOverflow => "Max value for P-group exceeded",
            StreamError::BFrameIndexOverflow => "Max value for b-frame index exceeded",
            StreamError::NoCurrentGroup => "No current group",
            StreamError::CounterOverflow => "Counter overflow",
            StreamError::TransportWriteFailed => "Transport write failed",
        }
    }
}

} // verus!
