//! The track writers and readers of the `moq-transport` crate, as far as this
//! library uses them.
//!
//! A writer shares its state with the readers of its track, which run in
//! other tasks. Whether a call succeeds depends on whether those readers are
//! still there, so nothing is claimed of any result: the library's contracts
//! hold whatever the transport answers.
//!
//! The writers number their groups and objects with counters of their own,
//! of type `u64` or `usize`, that rise by one with a call. A call at the end
//! of such a counter's range would panic where overflow is checked; that
//! takes as many calls as the counter has values, and no contract here
//! speaks of it.
use bytes::Bytes;
use moq_transport::serve::{
    GroupWriter, GroupsWriter, Object, ObjectsWriter, ServeError, StreamGroupWriter, StreamWriter,
    TrackReader, TrackWriter, TracksReader, TracksWriter,
};
use vstd::prelude::*;

use crate::error::StreamError;

verus! {

/// Creates the tracks of one namespace.
#[verifier::external_type_specification]
#[verifier::external_body]
pub struct ExTracksWriter(TracksWriter);

/// A track that has no mode yet.
#[verifier::external_type_specification]
#[verifier::external_body]
pub struct ExTrackWriter(TrackWriter);

/// Writes the groups of a byte-stream track.
#[verifier::external_type_specification]
#[verifier::external_body]
pub struct ExStreamWriter(StreamWriter);

/// Writes the payloads of one group of a byte-stream track.
#[verifier::external_type_specification]
#[verifier::external_body]
pub struct ExStreamGroupWriter(StreamGroupWriter);

/// Writes the groups of a priority-group track.
#[verifier::external_type_specification]
#[verifier::external_body]
pub struct ExGroupsWriter(GroupsWriter);

/// Writes the payloads of one priority group.
#[verifier::external_type_specification]
#[verifier::external_body]
pub struct ExGroupWriter(GroupWriter);

/// Writes the objects of an independent-object track.
#[verifier::external_type_specification]
#[verifier::external_body]
pub struct ExObjectsWriter(ObjectsWriter);

/// The group, number and priority of an object; its fields are plain
/// integers, which Verus reads.
#[verifier::external_type_specification]
pub struct ExObject(Object);

/// Why the transport refused.
#[verifier::external_type_specification]
#[verifier::external_body]
pub struct ExServeError(ServeError);

/// Gives access to the tracks of one namespace.
#[verifier::external_type_specification]
#[verifier::external_body]
pub struct ExTracksReader(TracksReader);

/// Reads one track.
#[verifier::external_type_specification]
#[verifier::external_body]
pub struct ExTrackReader(TrackReader);

/// The namespace whose tracks a reader gives access to.
pub uninterp spec fn namespace_of(tracks: TracksReader) -> Seq<char>;

/// `TracksWriter::create`: makes a track under `track` in the namespace.
/// `None` where the namespace has no reader left.
pub assume_specification[ TracksWriter::create ](
    namespace: &mut TracksWriter,
    track: &str,
) -> Option<TrackWriter>
;

/// `TrackWriter::groups`: opens the track as groups that each have a
/// priority of their own.
pub assume_specification[ TrackWriter::groups ](track: TrackWriter) -> Result<
    GroupsWriter,
    ServeError,
>
;

/// `TrackWriter::objects`: opens the track as single objects.
pub assume_specification[ TrackWriter::objects ](track: TrackWriter) -> Result<
    ObjectsWriter,
    ServeError,
>
;

/// `StreamWriter::append`: starts the stream's next group, which takes the
/// place of the one before.
pub assume_specification[ StreamWriter::append ](stream: &mut StreamWriter) -> Result<
    StreamGroupWriter,
    ServeError,
>
;

/// `StreamGroupWriter::write`: appends a payload to the group.
pub assume_specification[ StreamGroupWriter::write ](
    group: &mut StreamGroupWriter,
    payload: Bytes,
) -> Result<(), ServeError>
;

/// `GroupsWriter::append`: starts the track's next group with `priority`.
pub assume_specification[ GroupsWriter::append ](
    groups: &mut GroupsWriter,
    priority: u64,
) -> Result<GroupWriter, ServeError>
;

/// `GroupWriter::write`: appends a payload to the group as its next object.
pub assume_specification[ GroupWriter::write ](group: &mut GroupWriter, payload: Bytes) -> Result<
    (),
    ServeError,
>
;

/// `ObjectsWriter::write`: publishes one object with its payload.
pub assume_specification[ ObjectsWriter::write ](
    objects: &mut ObjectsWriter,
    object: Object,
    payload: Bytes,
) -> Result<(), ServeError>
;

/// `TrackWriter::stream`: opens the track as one ordered byte stream of
/// groups, sent with `priority`.
#[verifier::external_body]
pub(crate) fn byte_stream(track: TrackWriter, priority: u64) -> Result<StreamWriter, ServeError> {
    track.stream(priority)
}

/// `TracksReader::subscribe`: the track of that name in the namespace, where
/// the namespace has it or its publisher takes the request for it.
pub assume_specification[ TracksReader::subscribe ](
    tracks: &mut TracksReader,
    name: &str,
) -> Option<TrackReader>
;

/// The `namespace` field of the `Tracks` that a `TracksReader` points to.
#[verifier::external_body]
pub(crate) fn tracks_namespace(tracks: &TracksReader) -> (namespace: String)
    ensures
        namespace@ == namespace_of(*tracks),
{
    tracks.namespace.clone()
}

/// `Clone::clone` of a `TracksReader`: a second handle on the same
/// namespace.
#[verifier::external_body]
pub(crate) fn second_handle(tracks: &TracksReader) -> (handle: TracksReader)
    ensures
        namespace_of(handle) == namespace_of(*tracks),
{
    tracks.clone()
}

/// The track that was asked for, or the failure to create it.
pub fn created(track: Option<TrackWriter>) -> (r: Result<TrackWriter, StreamError>)
    ensures
        match track {
            Some(t) => r == Ok::<TrackWriter, StreamError>(t),
            None => r == Err::<TrackWriter, StreamError>(StreamError::TrackCreationFailed),
        },
{
    match track {
        Some(t) => Ok(t),
        None => Err(StreamError::TrackCreationFailed),
    }
}

/// What the transport handed back, or the failure to write to it.
pub fn accepted<T>(outcome: Result<T, ServeError>) -> (r: Result<T, StreamError>)
    ensures
        match outcome {
            Ok(t) => r == Ok::<T, StreamError>(t),
            Err(_) => r == Err::<T, StreamError>(StreamError::TransportWriteFailed),
        },
{
    match outcome {
        Ok(t) => Ok(t),
        Err(_) => Err(StreamError::TransportWriteFailed),
    }
}

} // verus!
