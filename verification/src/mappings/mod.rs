//! The strategies that map frames onto tracks.
use moq_transport::serve::{
    GroupsWriter, ObjectsWriter, StreamGroupWriter, StreamWriter, TracksWriter,
};
use vstd::prelude::*;

use crate::error::StreamError;
use crate::plan::TrackName;
use crate::transport::{accepted, byte_stream, created};

pub mod bframe;
pub mod ftype;
pub mod gop;
pub mod track;

pub use bframe::StreamPerBFrame;
pub use ftype::StreamPerFrameType;
pub use gop::StreamPerGop;
pub use track::StreamPerTrack;

verus! {

/// Creates `track` in the namespace and opens it as a byte stream.
pub(crate) fn open_stream(namespace: &mut TracksWriter, track: TrackName, priority: u64) -> (r:
    Result<StreamWriter, StreamError>)
    ensures
        r matches Err(e) ==> e == StreamError::TrackCreationFailed || e
            == StreamError::TransportWriteFailed,
{
    let writer = created(namespace.create(track.name()))?;
    accepted(byte_stream(writer, priority))
}

/// Creates `track` in the namespace and opens it as priority groups.
pub(crate) fn open_groups(namespace: &mut TracksWriter, track: TrackName) -> (r: Result<
    GroupsWriter,
    StreamError,
>)
    ensures
        r matches Err(e) ==> e == StreamError::TrackCreationFailed || e
            == StreamError::TransportWriteFailed,
{
    let writer = created(namespace.create(track.name()))?;
    accepted(writer.groups())
}

/// Creates `track` in the namespace and opens it as single objects.
pub(crate) fn open_objects(namespace: &mut TracksWriter, track: TrackName) -> (r: Result<
    ObjectsWriter,
    StreamError,
>)
    ensures
        r matches Err(e) ==> e == StreamError::TrackCreationFailed || e
            == StreamError::TransportWriteFailed,
{
    let writer = created(namespace.create(track.name()))?;
    accepted(writer.objects())
}

/// Creates the track of initialisation segments and starts its one group.
pub(crate) fn open_init(namespace: &mut TracksWriter) -> (r: Result<StreamGroupWriter, StreamError>)
    ensures
        r matches Err(e) ==> e == StreamError::TrackCreationFailed || e
            == StreamError::TransportWriteFailed,
{
    let mut stream = open_stream(namespace, TrackName::Init, 0)?;
    accepted(stream.append())
}

} // verus!
