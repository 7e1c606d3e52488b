//! One object for each frame, with a priority by frame type, and beside it an
//! index of frames.
use bytes::BytesMut;
use moq_transport::serve::{Object, ObjectsWriter, StreamGroupWriter, StreamWriter, TracksWriter};
use vstd::prelude::*;

use crate::buffer::{buffered, empty_buffer, frozen};
use crate::error::StreamError;
use crate::mappings::{open_init, open_objects, open_stream};
use crate::plan::{
    lemma_object_numbers_push, lemma_run_extends_record, lemma_run_keeps, object_numbers, run, Step,
    TrackMode, TrackName, TrackOp,
};
use crate::transport::accepted;
use crate::video::{
    encode_frame, encode_frame_info, next_item, parse_item, serialize_frame, serialize_frame_info,
    FrameInfo, FrameType, FrameView, ItemView, MediaStreamItem, VideoStreamer,
};

verus! {

/// The priority of every I and P frame.
pub const REFERENCE_PRIORITY: u64 = 2;

/// The greatest decode time that the priority of a B frame can hold.
pub const MAX_TIMESTAMP: u64 = 0x3FFF_FFFF;

/// The priority of a B frame whose decode time is [`MAX_TIMESTAMP`]; an
/// earlier B frame has a greater one.
pub const B_PRIORITY_BASE: u64 = 0x8000_0000;

/// The priority of a frame as an object: 2 for an I or a P frame; for a B
/// frame `(2 << 30) + ((2^30 - 1) - decode_time)`, which a decode time beyond
/// `2^30 - 1` has no room in.
pub open spec fn spec_frame_type_priority(frame_type: FrameType, decode_time: u64) -> Result<
    u64,
    StreamError,
> {
    match frame_type {
        FrameType::I => Ok(REFERENCE_PRIORITY),
        FrameType::P => Ok(REFERENCE_PRIORITY),
        FrameType::B => if decode_time > MAX_TIMESTAMP {
            Err(StreamError::TimestampOverflow)
        } else {
            Ok((B_PRIORITY_BASE + (MAX_TIMESTAMP - decode_time)) as u64)
        },
    }
}

/// The priority of a frame as an object.
pub fn frame_type_priority(frame_type: FrameType, decode_time: u64) -> (r: Result<
    u64,
    StreamError,
>)
    ensures
        r == spec_frame_type_priority(frame_type, decode_time),
{
    match frame_type {
        FrameType::I => Ok(REFERENCE_PRIORITY),
        FrameType::P => Ok(REFERENCE_PRIORITY),
        FrameType::B => {
            let timestamp = decode_time;
            if timestamp > MAX_TIMESTAMP {
                return Err(StreamError::TimestampOverflow);
            }
            Ok(B_PRIORITY_BASE + (MAX_TIMESTAMP - timestamp))
        },
    }
}

/// Among B frames the earlier one has the greater priority, and every B
/// frame has a greater priority than any I or P frame.
pub proof fn lemma_b_priority_falls_with_time(earlier: u64, later: u64)
    requires
        earlier < later <= MAX_TIMESTAMP,
    ensures
        spec_frame_type_priority(FrameType::B, earlier) matches Ok(p) && spec_frame_type_priority(
            FrameType::B,
            later,
        ) matches Ok(q) && p > q && q > REFERENCE_PRIORITY,
{
}

/// The strategy that publishes every frame as an object of its own. The
/// group number rises on every keyframe, the object number with every frame.
/// A second track lists frame type and decode time of each frame, one group
/// for each group of pictures.
pub struct StreamPerFrameType {
    init_track: StreamGroupWriter,
    video_track: ObjectsWriter,
    frames_track: StreamWriter,
    current: StreamGroupWriter,
    group_id: u64,
    obj_id: u64,
    issued: Ghost<Seq<TrackOp>>,
}

/// A [`StreamPerFrameType`] as a mathematical value.
pub struct PerFrameTypeView {
    /// The group number of the objects now written.
    pub group_id: u64,
    /// The number of the next object.
    pub obj_id: u64,
    /// The operations submitted so far.
    pub issued: Seq<TrackOp>,
}

impl View for StreamPerFrameType {
    type V = PerFrameTypeView;

    closed spec fn view(&self) -> PerFrameTypeView {
        PerFrameTypeView { group_id: self.group_id, obj_id: self.obj_id, issued: self.issued@ }
    }
}

impl StreamPerFrameType {
    /// The rule for a frame. The priority is settled first, and a B frame
    /// whose decode time has no room in it is refused with nothing done. A
    /// keyframe then raises the group number and starts the next group of
    /// the index. The frame's record goes to the index, the frame itself
    /// becomes an object, and the object number rises.
    pub open spec fn after_frame(v: PerFrameTypeView, frame: FrameView) -> Step<PerFrameTypeView> {
        match spec_frame_type_priority(frame.frame_type, frame.decode_time) {
            Err(e) => Step { next: v, error: Some(e) },
            Ok(priority) => if frame.is_keyframe && v.group_id == u64::MAX {
                Step { next: v, error: Some(StreamError::CounterOverflow) }
            } else {
                let group_id = if frame.is_keyframe {
                    (v.group_id + 1) as u64
                } else {
                    v.group_id
                };
                let started = if frame.is_keyframe {
                    v.issued.push(TrackOp::NextStreamGroup { track: TrackName::Frames })
                } else {
                    v.issued
                };
                let issued = started.push(
                    TrackOp::Write {
                        track: TrackName::Frames,
                        payload: encode_frame_info(
                            FrameInfo { ftype: frame.frame_type, dts: frame.decode_time },
                        ),
                    },
                ).push(
                    TrackOp::WriteObject {
                        track: TrackName::Video,
                        group_id,
                        object_id: v.obj_id,
                        priority,
                        payload: encode_frame(frame),
                    },
                );
                if v.obj_id == u64::MAX {
                    Step {
                        next: PerFrameTypeView { group_id, obj_id: v.obj_id, issued },
                        error: Some(StreamError::CounterOverflow),
                    }
                } else {
                    Step {
                        next: PerFrameTypeView { group_id, obj_id: (v.obj_id + 1) as u64, issued },
                        error: None,
                    }
                }
            },
        }
    }

    /// Whether the objects published so far are numbered 0, 1, 2 and so on,
    /// the counter stands at their number, and their group numbers never
    /// fall and never pass the group counter.
    pub open spec fn numbered(v: PerFrameTypeView) -> bool {
        let numbers = object_numbers(v.issued, TrackName::Video);
        &&& numbers.len() == v.obj_id
        &&& forall|i: int| 0 <= i < numbers.len() ==> (#[trigger] numbers[i]).1 == i
        &&& forall|i: int| 0 <= i < numbers.len() ==> (#[trigger] numbers[i]).0 <= v.group_id
        &&& forall|i: int, j: int|
            0 <= i <= j < numbers.len() ==> (#[trigger] numbers[i]).0 <= (#[trigger] numbers[j]).0
    }

    /// A strategy as [`VideoStreamer::new`] leaves it has published no
    /// object.
    pub proof fn lemma_fresh_is_numbered()
        ensures
            Self::numbered(Self::fresh()),
    {
        let record = Self::fresh().issued;
        let video = TrackName::Video;
        let r0 = Seq::<TrackOp>::empty();
        let r1 = r0.push(record[0]);
        let r2 = r1.push(record[1]);
        let r3 = r2.push(record[2]);
        let r4 = r3.push(record[3]);
        assert(record =~= r4.push(record[4]));
        lemma_object_numbers_push(r0, record[0], video);
        lemma_object_numbers_push(r1, record[1], video);
        lemma_object_numbers_push(r2, record[2], video);
        lemma_object_numbers_push(r3, record[3], video);
        lemma_object_numbers_push(r4, record[4], video);
    }

    /// Every frame is one object, and the objects are numbered in the order
    /// of the frames: a run that ends well leaves the object numbers 0, 1, 2
    /// and so on, with group numbers that never fall.
    pub proof fn lemma_objects_are_numbered(v: PerFrameTypeView, s: Seq<u8>)
        requires
            Self::numbered(v),
        ensures
            ({
                let end = run(|w: PerFrameTypeView, item: ItemView| Self::after(w, item), v, s);
                end.result is Ok ==> Self::numbered(end.state)
            }),
    {
        let rule = |w: PerFrameTypeView, item: ItemView| Self::after(w, item);
        let kept = |w: PerFrameTypeView| Self::numbered(w);
        assert forall|w: PerFrameTypeView, item: ItemView|
            kept(w) && (#[trigger] rule(w, item)).error is None implies kept(
            rule(w, item).next,
        ) by {
            let video = TrackName::Video;
            match item {
                ItemView::InitSegment(data) => {
                    lemma_object_numbers_push(
                        w.issued,
                        TrackOp::Write { track: TrackName::Init, payload: data },
                        video,
                    );
                },
                ItemView::Frame(frame) => {
                    let next = rule(w, item).next;
                    let start = TrackOp::NextStreamGroup { track: TrackName::Frames };
                    let started = if frame.is_keyframe {
                        w.issued.push(start)
                    } else {
                        w.issued
                    };
                    let info = TrackOp::Write {
                        track: TrackName::Frames,
                        payload: encode_frame_info(
                            FrameInfo { ftype: frame.frame_type, dts: frame.decode_time },
                        ),
                    };
                    let object = TrackOp::WriteObject {
                        track: video,
                        group_id: next.group_id,
                        object_id: w.obj_id,
                        priority: spec_frame_type_priority(
                            frame.frame_type,
                            frame.decode_time,
                        )->Ok_0,
                        payload: encode_frame(frame),
                    };
                    lemma_object_numbers_push(w.issued, start, video);
                    lemma_object_numbers_push(started, info, video);
                    lemma_object_numbers_push(started.push(info), object, video);
                    assert(next.issued == started.push(info).push(object));
                },
            }
        }
        lemma_run_keeps(rule, kept, v, s);
    }

    /// Maps one item onto the tracks.
    fn consume(&mut self, item: MediaStreamItem) -> (r: Result<(), StreamError>)
        ensures
            ({
                let step = Self::after(old(self)@, item@);
                if r == Err::<(), StreamError>(StreamError::TransportWriteFailed) {
                    &&& old(self)@.issued.is_prefix_of(final(self)@.issued)
                    &&& old(self)@.issued.len() < final(self)@.issued.len()
                    &&& final(self)@.issued.is_prefix_of(step.next.issued)
                } else {
                    &&& r == match step.error {
                        Some(e) => Err::<(), StreamError>(e),
                        None => Ok::<(), StreamError>(()),
                    }
                    &&& final(self)@ == step.next
                }
            }),
    {
        match item {
            MediaStreamItem::InitSegment(data) => {
                self.issued = Ghost(
                    self.issued@.push(
                        TrackOp::Write { track: TrackName::Init, payload: frozen(data) },
                    ),
                );
                accepted(self.init_track.write(data))
            },
            MediaStreamItem::Frame(frame) => {
                let priority = frame_type_priority(frame.frame_type, frame.decode_time)?;
                if frame.is_keyframe {
                    self.group_id = match self.group_id.checked_add(1) {
                        Some(next) => next,
                        None => {
                            return Err(StreamError::CounterOverflow);
                        },
                    };
                    self.issued = Ghost(
                        self.issued@.push(TrackOp::NextStreamGroup { track: TrackName::Frames }),
                    );
                    self.current = accepted(self.frames_track.append())?;
                }
                let mut info_payload = empty_buffer();
                serialize_frame_info(
                    FrameInfo { ftype: frame.frame_type, dts: frame.decode_time },
                    &mut info_payload,
                )?;
                let info_payload = info_payload.freeze();
                self.issued = Ghost(
                    self.issued@.push(
                        TrackOp::Write { track: TrackName::Frames, payload: frozen(info_payload) },
                    ),
                );
                accepted(self.current.write(info_payload))?;

                let mut payload = empty_buffer();
                serialize_frame(&frame, &mut payload)?;
                let payload = payload.freeze();
                self.issued = Ghost(
                    self.issued@.push(
                        TrackOp::WriteObject {
                            track: TrackName::Video,
                            group_id: self.group_id,
                            object_id: self.obj_id,
                            priority,
                            payload: frozen(payload),
                        },
                    ),
                );
                accepted(
                    self.video_track.write(
                        Object { group_id: self.group_id, object_id: self.obj_id, priority },
                        payload,
                    ),
                )?;
                self.obj_id = match self.obj_id.checked_add(1) {
                    Some(next) => next,
                    None => {
                        return Err(StreamError::CounterOverflow);
                    },
                };
                Ok(())
            },
        }
    }
}

impl VideoStreamer for StreamPerFrameType {
    open spec fn issued(v: PerFrameTypeView) -> Seq<TrackOp> {
        v.issued
    }

    open spec fn fresh() -> PerFrameTypeView {
        PerFrameTypeView {
            group_id: 0,
            obj_id: 0,
            issued: seq![
                TrackOp::Create {
                    track: TrackName::Init,
                    mode: TrackMode::ByteStream { priority: 0 },
                },
                TrackOp::NextStreamGroup { track: TrackName::Init },
                TrackOp::Create { track: TrackName::Video, mode: TrackMode::Objects },
                TrackOp::Create {
                    track: TrackName::Frames,
                    mode: TrackMode::ByteStream { priority: 1 },
                },
                TrackOp::NextStreamGroup { track: TrackName::Frames },
            ],
        }
    }

    open spec fn after(v: PerFrameTypeView, item: ItemView) -> Step<PerFrameTypeView> {
        match item {
            ItemView::InitSegment(data) => Step {
                next: PerFrameTypeView {
                    issued: v.issued.push(
                        TrackOp::Write { track: TrackName::Init, payload: data },
                    ),
                    ..v
                },
                error: None,
            },
            ItemView::Frame(frame) => Self::after_frame(v, frame),
        }
    }

    proof fn lemma_rule_extends_record(v: PerFrameTypeView, item: ItemView) {
    }

    proof fn lemma_init_segment_is_forwarded(v: PerFrameTypeView, data: Seq<u8>) {
    }

    proof fn lemma_keyframe_starts_group(v: PerFrameTypeView, frame: FrameView) {
    }

    fn new(namespace: TracksWriter) -> (r: Result<Self, StreamError>) {
        let mut namespace = namespace;
        let init_track = open_init(&mut namespace)?;
        let ghost init_made = seq![
            TrackOp::Create { track: TrackName::Init, mode: TrackMode::ByteStream { priority: 0 } },
            TrackOp::NextStreamGroup { track: TrackName::Init },
        ];
        let video_track = open_objects(&mut namespace, TrackName::Video)?;
        let ghost video_made = init_made.push(
            TrackOp::Create { track: TrackName::Video, mode: TrackMode::Objects },
        );
        let mut frames_track = open_stream(&mut namespace, TrackName::Frames, 1)?;
        let ghost frames_made = video_made.push(
            TrackOp::Create {
                track: TrackName::Frames,
                mode: TrackMode::ByteStream { priority: 1 },
            },
        );
        let current = accepted(frames_track.append())?;
        let ghost issued = frames_made.push(TrackOp::NextStreamGroup { track: TrackName::Frames });
        assert(issued =~= Self::fresh().issued);
        Ok(
            StreamPerFrameType {
                init_track,
                video_track,
                frames_track,
                current,
                group_id: 0,
                obj_id: 0,
                issued: Ghost(issued),
            },
        )
    }

    fn stream(&mut self, buf: &mut BytesMut) -> (r: Result<(), StreamError>) {
        let ghost v0 = self@;
        let ghost s0 = buffered(*buf);
        let ghost rule = |v: PerFrameTypeView, item: ItemView| Self::after(v, item);
        assert(s0.skip(0) =~= s0);
        loop
            invariant
                v0 == old(self)@,
                s0 == buffered(*old(buf)),
                rule == |v: PerFrameTypeView, item: ItemView| Self::after(v, item),
                run(rule, self@, buffered(*buf)) == run(rule, v0, s0),
                v0.issued.is_prefix_of(self@.issued),
                buffered(*buf).len() <= s0.len(),
                buffered(*buf) == s0.skip(s0.len() - buffered(*buf).len()),
            decreases buffered(*buf).len(),
        {
            match next_item(buf) {
                Err(e) => {
                    return Err(e);
                },
                Ok(false) => {
                    return Ok(());
                },
                Ok(true) => {},
            }
            let ghost v = self@;
            let ghost s = buffered(*buf);
            let parsed = parse_item(buf);
            proof {
                let k = s0.len() - s.len();
                let n = s.len() - buffered(*buf).len();
                assert(s.skip(n) =~= s0.skip(k + n));
            }
            let item = match parsed {
                Ok(item) => item,
                Err(e) => {
                    return Err(e);
                },
            };
            let outcome = self.consume(item);
            proof {
                let step = Self::after(v, item@);
                assert(rule(v, item@) == step);
                Self::lemma_rule_extends_record(v, item@);
                if outcome == Err::<(), StreamError>(StreamError::TransportWriteFailed) {
                    assert forall|w: PerFrameTypeView, i: ItemView|
                        Self::issued(w).is_prefix_of(Self::issued(#[trigger] rule(w, i).next)) by {
                        Self::lemma_rule_extends_record(w, i);
                    }
                    lemma_run_extends_record(
                        rule,
                        |w: PerFrameTypeView| Self::issued(w),
                        step.next,
                        buffered(*buf),
                    );
                }
            }
            match outcome {
                Ok(()) => {},
                Err(e) => {
                    return Err(e);
                },
            }
        }
    }
}

} // verus!
