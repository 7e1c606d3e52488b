//! The items of the ingestion stream and their decoder and encoder.
//!
//! The stream is a run of segments. Each starts with a tag byte; all
//! integers of more than one byte are big-endian:
//!
//! ```text
//! 0x00  init segment: length u32, payload
//! 0x01  frame: keyframe u8, frame type u8, availability u64,
//!       decode time u64, presentation time u64, length u32, payload
//! ```
use bytes::{Bytes, BytesMut};
use vstd::prelude::*;
use vstd::std_specs::convert::TryFromSpecImpl;

use crate::buffer::{as_slice, buffered, chunk, frozen, get_u32, get_u64, get_u8, put_u8};
use crate::endian::{be_bytes, be_value, read_be_u32, u64_be_bytes};
use crate::error::StreamError;
use crate::plan::{run, Step, TrackName, TrackOp};
use moq_transport::serve::TracksWriter;

verus! {

/// How a frame is coded.
#[derive(Debug, Clone, Copy, PartialEq, Eq, Hash, Structural)]
pub enum FrameType {
    /// Predicted from earlier frames.
    P,
    /// Predicted from earlier and later frames.
    B,
    /// Coded on its own.
    I,
}

impl FrameType {
    /// The code of the frame type on the wire: P is 0, B is 1, I is 2.
    pub open spec fn spec_code(self) -> u8 {
        match self {
            FrameType::P => 0,
            FrameType::B => 1,
            FrameType::I => 2,
        }
    }

    /// The frame type that a code stands for, if any.
    pub open spec fn of_code(code: u8) -> Option<FrameType> {
        if code == 0 {
            Some(FrameType::P)
        } else if code == 1 {
            Some(FrameType::B)
        } else if code == 2 {
            Some(FrameType::I)
        } else {
            None
        }
    }

    /// The code of the frame type on the wire.
    pub fn code(self) -> (c: u8)
        ensures
            c == self.spec_code(),
    {
        match self {
            FrameType::P => 0,
            FrameType::B => 1,
            FrameType::I => 2,
        }
    }
}

impl TryFrom<u8> for FrameType {
    type Error = StreamError;

    fn try_from(value: u8) -> (r: Result<Self, StreamError>) {
        match value {
            0 => Ok(FrameType::P),
            1 => Ok(FrameType::B),
            2 => Ok(FrameType::I),
            _ => Err(StreamError::InvalidFrameType),
        }
    }
}

impl TryFromSpecImpl<u8> for FrameType {
    open spec fn obeys_try_from_spec() -> bool {
        true
    }

    open spec fn try_from_spec(value: u8) -> Result<Self, StreamError> {
        match FrameType::of_code(value) {
            Some(t) => Ok(t),
            None => Err(StreamError::InvalidFrameType),
        }
    }
}

/// One encoded video frame.
pub struct Frame {
    /// Whether the frame can be decoded without an earlier one.
    pub is_keyframe: bool,
    pub frame_type: FrameType,
    /// When the frame became available, in nanoseconds since the Unix epoch.
    pub availability_time: u64,
    /// Decode time, in the encoder's time unit.
    pub decode_time: u64,
    /// Presentation time, in the encoder's time unit.
    pub presentation_time: u64,
    /// The encoded picture.
    pub data: Bytes,
}

/// A frame as a mathematical value.
pub struct FrameView {
    pub is_keyframe: bool,
    pub frame_type: FrameType,
    pub availability_time: u64,
    pub decode_time: u64,
    pub presentation_time: u64,
    pub data: Seq<u8>,
}

impl View for Frame {
    type V = FrameView;

    open spec fn view(&self) -> FrameView {
        FrameView {
            is_keyframe: self.is_keyframe,
            frame_type: self.frame_type,
            availability_time: self.availability_time,
            decode_time: self.decode_time,
            presentation_time: self.presentation_time,
            data: frozen(self.data),
        }
    }
}

/// One item of the ingestion stream.
pub enum MediaStreamItem {
    /// The codec's initialisation data.
    InitSegment(Bytes),
    Frame(Frame),
}

/// An item as a mathematical value.
pub enum ItemView {
    InitSegment(Seq<u8>),
    Frame(FrameView),
}

impl View for MediaStreamItem {
    type V = ItemView;

    open spec fn view(&self) -> ItemView {
        match self {
            MediaStreamItem::InitSegment(data) => ItemView::InitSegment(frozen(*data)),
            MediaStreamItem::Frame(frame) => ItemView::Frame(frame@),
        }
    }
}

/// What the index of frames records of a frame.
#[derive(Debug, Clone, Copy, PartialEq, Eq, Structural)]
pub struct FrameInfo {
    pub ftype: FrameType,
    /// Decode time.
    pub dts: u64,
}

/// A strategy that maps the items of the ingestion stream onto tracks.
///
/// The view of a strategy holds its counters and the record of the
/// operations that it has submitted to the transport.
pub trait VideoStreamer: Sized + View {
    /// The operations that the strategy has submitted to the transport, in
    /// order, whether or not the transport accepted the last of them.
    spec fn issued(v: Self::V) -> Seq<TrackOp>;

    /// The strategy as [`VideoStreamer::new`] leaves it.
    spec fn fresh() -> Self::V;

    /// The strategy's rule for one item, where the transport accepts every
    /// operation.
    spec fn after(v: Self::V, item: ItemView) -> Step<Self::V>;

    /// The rule only ever adds to the end of the record of operations.
    proof fn lemma_rule_extends_record(v: Self::V, item: ItemView)
        ensures
            Self::issued(v).is_prefix_of(Self::issued(Self::after(v, item).next)),
    ;

    /// An initialisation segment goes to the init track as it is, and that
    /// is all that it causes.
    proof fn lemma_init_segment_is_forwarded(v: Self::V, data: Seq<u8>)
        ensures
            Self::after(v, ItemView::InitSegment(data)).error is None,
            Self::issued(Self::after(v, ItemView::InitSegment(data)).next) == Self::issued(
                v,
            ).push(TrackOp::Write { track: TrackName::Init, payload: data }),
    ;

    /// A keyframe starts a group before anything else is done with it.
    proof fn lemma_keyframe_starts_group(v: Self::V, frame: FrameView)
        requires
            frame.is_keyframe,
            Self::after(v, ItemView::Frame(frame)).error is None,
        ensures
            Self::issued(v).len() < Self::issued(Self::after(v, ItemView::Frame(frame)).next).len(),
            Self::issued(Self::after(v, ItemView::Frame(frame)).next)[Self::issued(
                v,
            ).len() as int].starts_group(),
    ;

    /// Creates the tracks of the strategy in `namespace`. It fails where a
    /// track cannot be created or the transport refuses to open one.
    fn new(namespace: TracksWriter) -> (r: Result<Self, StreamError>)
        ensures
            r matches Ok(s) ==> s@ == Self::fresh(),
            r matches Err(e) ==> e == StreamError::TrackCreationFailed || e
                == StreamError::TransportWriteFailed,
    ;

    /// Takes every whole segment off the front of `buf` and maps each onto
    /// the tracks, until no whole segment is left or something fails.
    ///
    /// Unless the transport refuses an operation, the strategy, the buffer
    /// and the result are those of [`run`]. Where it does refuse one, the
    /// operations submitted are the planned ones up to the refused one, which
    /// is among them. Whatever happens, the buffer only loses bytes at its
    /// front.
    fn stream(&mut self, buf: &mut BytesMut) -> (r: Result<(), StreamError>)
        ensures
            ({
                let plan = run(
                    |v: Self::V, item: ItemView| Self::after(v, item),
                    old(self)@,
                    buffered(*old(buf)),
                );
                if r == Err::<(), StreamError>(StreamError::TransportWriteFailed) {
                    &&& Self::issued(old(self)@).is_prefix_of(Self::issued(final(self)@))
                    &&& Self::issued(old(self)@).len() < Self::issued(final(self)@).len()
                    &&& Self::issued(final(self)@).is_prefix_of(Self::issued(plan.state))
                } else {
                    &&& r == plan.result
                    &&& final(self)@ == plan.state
                    &&& buffered(*final(buf)) == plan.rest
                }
            }),
            buffered(*final(buf)).len() <= buffered(*old(buf)).len(),
            buffered(*final(buf)) == buffered(*old(buf)).skip(
                buffered(*old(buf)).len() - buffered(*final(buf)).len(),
            ),
    ;
}

/// The tag of an init segment.
pub const TAG_INIT: u8 = 0;

/// The tag of a frame.
pub const TAG_FRAME: u8 = 1;

/// The bytes of a frame between its tag and its payload.
pub const FRAME_HEADER: usize = 30;

/// The bytes of an init segment before its payload: the tag and the length.
pub const INIT_HEADER: usize = 5;

/// The length of the segment at the front of `s`, tag included, as its header
/// announces it. `None` where the header is not yet whole or the tag is
/// unknown.
pub open spec fn segment_len(s: Seq<u8>) -> Option<nat> {
    if s.len() >= 5 && s[0] == TAG_INIT {
        Some(5 + be_value(s.subrange(1, 5)))
    } else if s.len() >= 31 && s[0] == TAG_FRAME {
        Some(31 + be_value(s.subrange(27, 31)))
    } else {
        None
    }
}

/// Whether `s` starts with a whole segment.
pub open spec fn has_complete_item(s: Seq<u8>) -> bool {
    segment_len(s) matches Some(n) && n <= s.len()
}

/// What [`next_item`] answers on a buffer that holds `s`.
pub open spec fn spec_next_item(s: Seq<u8>) -> Result<bool, StreamError> {
    if s.len() > 0 && s[0] != TAG_INIT && s[0] != TAG_FRAME {
        Err(StreamError::UnknownSegmentType)
    } else {
        Ok(has_complete_item(s))
    }
}

/// Whether `s`, which starts behind a frame's tag, holds the rest of the
/// frame.
pub open spec fn frame_body_complete(s: Seq<u8>) -> bool {
    s.len() >= 30 && 30 + be_value(s.subrange(26, 30)) <= s.len()
}

/// The frame whose bytes behind the tag are at the front of `s`. It has a
/// meaning where the body is whole and its frame type code is known.
pub open spec fn frame_of_body(s: Seq<u8>) -> FrameView {
    FrameView {
        is_keyframe: s[0] != 0,
        frame_type: FrameType::of_code(s[1])->0,
        availability_time: be_value(s.subrange(2, 10)) as u64,
        decode_time: be_value(s.subrange(10, 18)) as u64,
        presentation_time: be_value(s.subrange(18, 26)) as u64,
        data: s.subrange(30, 30 + be_value(s.subrange(26, 30)) as int),
    }
}

/// The item at the front of `s`, or why there is none. It has a meaning
/// where `s` starts with a whole segment.
pub open spec fn item_of(s: Seq<u8>) -> Result<ItemView, StreamError> {
    if s[0] == TAG_INIT {
        Ok(ItemView::InitSegment(s.subrange(5, 5 + be_value(s.subrange(1, 5)) as int)))
    } else if s[0] == TAG_FRAME {
        if FrameType::of_code(s[2]) is Some {
            Ok(ItemView::Frame(frame_of_body(s.skip(1))))
        } else {
            Err(StreamError::InvalidFrameType)
        }
    } else {
        Err(StreamError::UnknownSegmentType)
    }
}

/// The bytes that [`parse_item`] takes off a buffer that holds `s`: the whole
/// segment, or the three bytes up to a frame type code that is not known.
pub open spec fn taken_by_parse(s: Seq<u8>) -> nat {
    if item_of(s) is Ok {
        segment_len(s)->0
    } else {
        3
    }
}

/// A frame as it is forwarded into a track: frame type, availability, decode
/// time, presentation time, payload. Tag, keyframe flag and payload length
/// are left out; groups and objects carry that structure.
pub open spec fn encode_frame(f: FrameView) -> Seq<u8> {
    seq![f.frame_type.spec_code()] + be_bytes(f.availability_time as nat, 8) + be_bytes(
        f.decode_time as nat,
        8,
    ) + be_bytes(f.presentation_time as nat, 8) + f.data
}

/// A record of the index of frames: frame type and decode time.
pub open spec fn encode_frame_info(info: FrameInfo) -> Seq<u8> {
    seq![info.ftype.spec_code()] + be_bytes(info.dts as nat, 8)
}

/// Tells whether the buffer starts with a whole segment. The buffer is only
/// looked at, never changed. An unknown tag is an error, however many bytes
/// follow it; too few bytes are not.
pub fn next_item(buf: &mut BytesMut) -> (r: Result<bool, StreamError>)
    ensures
        *final(buf) == *old(buf),
        r == spec_next_item(buffered(*old(buf))),
{
    let peek = chunk(buf);
    if peek.len() < 1 {
        return Ok(false);
    }
    let segment_type = peek[0];
    if segment_type == TAG_INIT {
        if peek.len() - 1 < 4 {
            return Ok(false);
        }
        let size = read_be_u32(peek, 1) as usize;
        Ok(peek.len() - 5 >= size)
    } else if segment_type == TAG_FRAME {
        if peek.len() - 1 < FRAME_HEADER {
            return Ok(false);
        }
        let size = read_be_u32(peek, FRAME_HEADER - 4 + 1) as usize;
        Ok(peek.len() - 1 - FRAME_HEADER >= size)
    } else {
        Err(StreamError::UnknownSegmentType)
    }
}

/// Takes the segment at the front of the buffer and returns its item. The
/// caller has seen [`next_item`] answer `true` on this buffer.
pub fn parse_item(buf: &mut BytesMut) -> (r: Result<MediaStreamItem, StreamError>)
    requires
        has_complete_item(buffered(*old(buf))),
    ensures
        match item_of(buffered(*old(buf))) {
            Ok(item) => r matches Ok(parsed) && parsed@ == item,
            Err(e) => r matches Err(err) && err == e,
        },
        buffered(*final(buf)) == buffered(*old(buf)).skip(
            taken_by_parse(buffered(*old(buf))) as int,
        ),
{
    let ghost s = buffered(*buf);
    let segment_type = get_u8(buf);
    if segment_type == TAG_INIT {
        let size = get_u32(buf) as usize;
        proof {
            assert(s.skip(1).take(4) =~= s.subrange(1, 5));
            assert(s.skip(1).skip(4) =~= s.skip(5));
        }
        let data = buf.split_to(size).freeze();
        proof {
            assert(s.skip(5).take(size as int) =~= s.subrange(5, 5 + size));
            assert(s.skip(5).skip(size as int) =~= s.skip(5 + size));
        }
        Ok(MediaStreamItem::InitSegment(data))
    } else if segment_type == TAG_FRAME {
        proof {
            assert(s.skip(1).subrange(26, 30) =~= s.subrange(27, 31));
        }
        match parse_frame(buf) {
            Ok(frame) => {
                proof {
                    let n = 30 + be_value(s.subrange(27, 31));
                    assert(s.skip(1).skip(n as int) =~= s.skip(1 + n as int));
                }
                Ok(MediaStreamItem::Frame(frame))
            },
            Err(e) => {
                proof {
                    assert(s.skip(1).skip(2) =~= s.skip(3));
                }
                Err(e)
            },
        }
    } else {
        Err(StreamError::UnknownSegmentType)
    }
}

/// Takes a frame off the buffer, whose front is the byte behind the frame's
/// tag. Where the frame type code is not known, the keyframe flag and the
/// code are gone from the buffer and the rest is left.
pub fn parse_frame(buf: &mut BytesMut) -> (r: Result<Frame, StreamError>)
    requires
        frame_body_complete(buffered(*old(buf))),
    ensures
        match FrameType::of_code(buffered(*old(buf))[1]) {
            Some(_) => {
                &&& r matches Ok(frame)
                &&& frame@ == frame_of_body(buffered(*old(buf)))
                &&& buffered(*final(buf)) == buffered(*old(buf)).skip(
                    30 + be_value(buffered(*old(buf)).subrange(26, 30)) as int,
                )
            },
            None => {
                &&& r matches Err(e)
                &&& e == StreamError::InvalidFrameType
                &&& buffered(*final(buf)) == buffered(*old(buf)).skip(2)
            },
        },
{
    let ghost s = buffered(*buf);
    let is_keyframe = get_u8(buf) != 0;
    let code = get_u8(buf);
    proof {
        assert(s.skip(1).skip(1) =~= s.skip(2));
    }
    let frame_type = match FrameType::try_from(code) {
        Ok(frame_type) => frame_type,
        Err(e) => {
            return Err(e);
        },
    };
    let availability_time = get_u64(buf);
    let decode_time = get_u64(buf);
    let presentation_time = get_u64(buf);
    let size = get_u32(buf) as usize;
    proof {
        assert(s.skip(2).take(8) =~= s.subrange(2, 10));
        assert(s.skip(2).skip(8) =~= s.skip(10));
        assert(s.skip(10).take(8) =~= s.subrange(10, 18));
        assert(s.skip(10).skip(8) =~= s.skip(18));
        assert(s.skip(18).take(8) =~= s.subrange(18, 26));
        assert(s.skip(18).skip(8) =~= s.skip(26));
        assert(s.skip(26).take(4) =~= s.subrange(26, 30));
        assert(s.skip(26).skip(4) =~= s.skip(30));
    }
    let data = buf.split_to(size).freeze();
    proof {
        assert(s.skip(30).take(size as int) =~= s.subrange(30, 30 + size));
        assert(s.skip(30).skip(size as int) =~= s.skip(30 + size));
    }
    Ok(Frame { is_keyframe, frame_type, availability_time, decode_time, presentation_time, data })
}

/// Appends the frame to the buffer in the form in which it is forwarded.
/// This cannot fail.
pub fn serialize_frame(frame: &Frame, buf: &mut BytesMut) -> (r: Result<(), StreamError>)
    ensures
        r is Ok,
        buffered(*final(buf)) == buffered(*old(buf)) + encode_frame(frame@),
{
    put_u8(buf, frame.frame_type.code());
    buf.extend_from_slice(u64_be_bytes(frame.availability_time).as_slice());
    buf.extend_from_slice(u64_be_bytes(frame.decode_time).as_slice());
    buf.extend_from_slice(u64_be_bytes(frame.presentation_time).as_slice());
    buf.extend_from_slice(as_slice(&frame.data));
    proof {
        let s = buffered(*old(buf));
        let f = frame@;
        assert(buffered(*buf) =~= s + encode_frame(f));
    }
    Ok(())
}

/// Appends a record of the index of frames to the buffer. This cannot fail.
pub fn serialize_frame_info(info: FrameInfo, buf: &mut BytesMut) -> (r: Result<(), StreamError>)
    ensures
        r is Ok,
        buffered(*final(buf)) == buffered(*old(buf)) + encode_frame_info(info),
{
    put_u8(buf, info.ftype.code());
    buf.extend_from_slice(u64_be_bytes(info.dts).as_slice());
    proof {
        assert(buffered(*buf) =~= buffered(*old(buf)) + encode_frame_info(info));
    }
    Ok(())
}

} // verus!
