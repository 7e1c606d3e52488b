//! The B frames as prioritised objects on a track of their own; all other
//! frames in reliable groups.
use bytes::BytesMut;
use moq_transport::serve::{
    GroupWriter, GroupsWriter, Object, ObjectsWriter, StreamGroupWriter, TracksWriter,
};
use vstd::prelude::*;

use crate::buffer::{buffered, empty_buffer, frozen};
use crate::error::StreamError;
use crate::mappings::{open_groups, open_init, open_objects};
use crate::plan::{
    lemma_object_numbers_push, lemma_run_extends_record, lemma_run_keeps, object_numbers, run, Step,
    TrackMode, TrackName, TrackOp,
};
use crate::transport::accepted;
use crate::video::{
    encode_frame, next_item, parse_item, serialize_frame, FrameType, FrameView, ItemView,
    MediaStreamItem, VideoStreamer,
};

verus! {

/// The priority of every group of frames that are not B frames: the greatest
/// there is.
pub const BACKBONE_PRIORITY: u64 = 0x7FFF_FFFF;

/// The bound of the B-group counter in a priority: it has 25 bits, and the
/// greatest value of 25 bits is kept free.
pub const MAX_B_GROUP: u32 = 0x1FF_FFFF;

/// The greatest number of a B frame within its B-group: 6 bits.
pub const MAX_B_FRAME_INDEX: u32 = 0x3F;

/// The priority of a B frame: `(b_group << 6) | (63 - b_frame_index)`. It is
/// refused where the B-group counter has reached its bound, and where the
/// frame's number in its B-group is beyond 63.
pub open spec fn spec_b_frame_priority(b_group: u32, b_frame_index: u32) -> Result<
    u32,
    StreamError,
> {
    if b_group >= MAX_B_GROUP {
        Err(StreamError::PGroupOverflow)
    } else if b_frame_index > MAX_B_FRAME_INDEX {
        Err(StreamError::BFrameIndexOverflow)
    } else {
        Ok((b_group << 6) | ((MAX_B_FRAME_INDEX - b_frame_index) as u32))
    }
}

/// The priority of a B frame.
pub fn b_frame_priority(b_group: u32, b_frame_index: u32) -> (r: Result<u32, StreamError>)
    ensures
        r == spec_b_frame_priority(b_group, b_frame_index),
{
    let max_b_group: u32 = MAX_B_GROUP;
    if b_group >= max_b_group {
        return Err(StreamError::PGroupOverflow);
    }
    let max_b_frame_index: u32 = MAX_B_FRAME_INDEX;
    if b_frame_index > max_b_frame_index {
        return Err(StreamError::BFrameIndexOverflow);
    }
    Ok((b_group << 6) | (max_b_frame_index - b_frame_index))
}

/// A priority is the B-group times 64 plus what is left of 63 after the
/// frame's number: the two fields do not run into each other.
pub proof fn lemma_b_frame_priority_value(b_group: u32, b_frame_index: u32)
    requires
        b_group < MAX_B_GROUP,
        b_frame_index <= MAX_B_FRAME_INDEX,
    ensures
        spec_b_frame_priority(b_group, b_frame_index) == Ok::<u32, StreamError>(
            (b_group * 64 + (63 - b_frame_index)) as u32,
        ),
        b_group * 64 + (63 - b_frame_index) < 0x8000_0000,
{
    let low: u32 = (MAX_B_FRAME_INDEX - b_frame_index) as u32;
    assert((b_group << 6) | low == b_group * 64 + low) by (bit_vector)
        requires
            b_group < 0x1FF_FFFF,
            low <= 63,
    ;
}

/// A B frame of a later B-group has a greater priority than any of an
/// earlier one; within a B-group the earlier frame has the greater priority.
pub proof fn lemma_b_frame_priority_order(group_a: u32, index_a: u32, group_b: u32, index_b: u32)
    requires
        group_a <= group_b < MAX_B_GROUP,
        index_a <= MAX_B_FRAME_INDEX,
        index_b <= MAX_B_FRAME_INDEX,
    ensures
        spec_b_frame_priority(group_a, index_a) matches Ok(p) && spec_b_frame_priority(
            group_b,
            index_b,
        ) matches Ok(q) && {
            &&& group_a < group_b ==> p < q
            &&& group_a == group_b && index_a < index_b ==> p > q
        },
{
    lemma_b_frame_priority_value(group_a, index_a);
    lemma_b_frame_priority_value(group_b, index_b);
}

/// The strategy that sets the B frames apart. Frames that are not B frames
/// go to priority groups of the greatest priority, a new group on every
/// keyframe. B frames become objects of a second track. Every frame that is
/// not a B frame starts a new B-group, within which the B frames are
/// numbered from 0.
pub struct StreamPerBFrame {
    init_track: StreamGroupWriter,
    video_track: GroupsWriter,
    current: GroupWriter,
    b_frames_track: ObjectsWriter,
    b_group: u32,
    b_frame_index: u32,
    group_id: u64,
    obj_id: u64,
    issued: Ghost<Seq<TrackOp>>,
}

/// A [`StreamPerBFrame`] as a mathematical value.
pub struct PerBFrameView {
    /// The count of frames so far that are not B frames.
    pub b_group: u32,
    /// The number of the next B frame within its B-group.
    pub b_frame_index: u32,
    /// The count of keyframes so far.
    pub group_id: u64,
    /// The number of the next B-frame object.
    pub obj_id: u64,
    /// The operations submitted so far.
    pub issued: Seq<TrackOp>,
}

impl View for StreamPerBFrame {
    type V = PerBFrameView;

    closed spec fn view(&self) -> PerBFrameView {
        PerBFrameView {
            b_group: self.b_group,
            b_frame_index: self.b_frame_index,
            group_id: self.group_id,
            obj_id: self.obj_id,
            issued: self.issued@,
        }
    }
}

impl StreamPerBFrame {
    /// The strategy after a keyframe has raised the group number and started
    /// the next group of the backbone; any other frame leaves it as it is.
    pub open spec fn after_keyframe(v: PerBFrameView, frame: FrameView) -> PerBFrameView {
        if frame.is_keyframe {
            PerBFrameView {
                group_id: (v.group_id + 1) as u64,
                issued: v.issued.push(
                    TrackOp::NextGroup { track: TrackName::Video, priority: BACKBONE_PRIORITY },
                ),
                ..v
            }
        } else {
            v
        }
    }

    /// The rule for a frame. A keyframe starts the next group of the
    /// backbone. A frame that is not a B frame starts a new B-group and is
    /// appended to the current group of the backbone. A B frame becomes an
    /// object with the priority of its place, and the place moves on.
    pub open spec fn after_frame(v: PerBFrameView, frame: FrameView) -> Step<PerBFrameView> {
        if frame.is_keyframe && v.group_id == u64::MAX {
            Step { next: v, error: Some(StreamError::CounterOverflow) }
        } else {
            let keyed = Self::after_keyframe(v, frame);
            if frame.frame_type != FrameType::B {
                if keyed.b_group == u32::MAX {
                    Step { next: keyed, error: Some(StreamError::PGroupOverflow) }
                } else {
                    Step {
                        next: PerBFrameView {
                            b_group: (keyed.b_group + 1) as u32,
                            b_frame_index: 0,
                            issued: keyed.issued.push(
                                TrackOp::Write {
                                    track: TrackName::Video,
                                    payload: encode_frame(frame),
                                },
                            ),
                            ..keyed
                        },
                        error: None,
                    }
                }
            } else {
                match spec_b_frame_priority(keyed.b_group, keyed.b_frame_index) {
                    Err(e) => Step { next: keyed, error: Some(e) },
                    Ok(priority) => {
                        let issued = keyed.issued.push(
                            TrackOp::WriteObject {
                                track: TrackName::BFrames,
                                group_id: keyed.group_id,
                                object_id: keyed.obj_id,
                                priority: priority as u64,
                                payload: encode_frame(frame),
                            },
                        );
                        if keyed.obj_id == u64::MAX {
                            Step {
                                next: PerBFrameView { issued, ..keyed },
                                error: Some(StreamError::CounterOverflow),
                            }
                        } else {
                            Step {
                                next: PerBFrameView {
                                    obj_id: (keyed.obj_id + 1) as u64,
                                    b_frame_index: (keyed.b_frame_index + 1) as u32,
                                    issued,
                                    ..keyed
                                },
                                error: None,
                            }
                        }
                    },
                }
            }
        }
    }

    /// Whether the B frames published so far are numbered 0, 1, 2 and so
    /// on, the counter stands at their number, their group numbers never
    /// fall and never pass the group counter, and the place within the
    /// B-group is one that a priority can hold, or the one behind the last.
    pub open spec fn numbered(v: PerBFrameView) -> bool {
        let numbers = object_numbers(v.issued, TrackName::BFrames);
        &&& numbers.len() == v.obj_id
        &&& v.b_frame_index <= MAX_B_FRAME_INDEX + 1
        &&& forall|i: int| 0 <= i < numbers.len() ==> (#[trigger] numbers[i]).1 == i
        &&& forall|i: int| 0 <= i < numbers.len() ==> (#[trigger] numbers[i]).0 <= v.group_id
        &&& forall|i: int, j: int|
            0 <= i <= j < numbers.len() ==> (#[trigger] numbers[i]).0 <= (#[trigger] numbers[j]).0
    }

    /// A strategy as [`VideoStreamer::new`] leaves it has published no B
    /// frame.
    pub proof fn lemma_fresh_is_numbered()
        ensures
            Self::numbered(Self::fresh()),
    {
        let record = Self::fresh().issued;
        let track = TrackName::BFrames;
        let r0 = Seq::<TrackOp>::empty();
        let r1 = r0.push(record[0]);
        let r2 = r1.push(record[1]);
        let r3 = r2.push(record[2]);
        let r4 = r3.push(record[3]);
        assert(record =~= r4.push(record[4]));
        lemma_object_numbers_push(r0, record[0], track);
        lemma_object_numbers_push(r1, record[1], track);
        lemma_object_numbers_push(r2, record[2], track);
        lemma_object_numbers_push(r3, record[3], track);
        lemma_object_numbers_push(r4, record[4], track);
    }

    /// Every B frame is one object, and the objects are numbered in the
    /// order of the B frames: a run that ends well leaves the object numbers
    /// 0, 1, 2 and so on, with group numbers that never fall.
    pub proof fn lemma_objects_are_numbered(v: PerBFrameView, s: Seq<u8>)
        requires
            Self::numbered(v),
        ensures
            ({
                let end = run(|w: PerBFrameView, item: ItemView| Self::after(w, item), v, s);
                end.result is Ok ==> Self::numbered(end.state)
            }),
    {
        let rule = |w: PerBFrameView, item: ItemView| Self::after(w, item);
        let kept = |w: PerBFrameView| Self::numbered(w);
        assert forall|w: PerBFrameView, item: ItemView|
            kept(w) && (#[trigger] rule(w, item)).error is None implies kept(
            rule(w, item).next,
        ) by {
            let track = TrackName::BFrames;
            match item {
                ItemView::InitSegment(data) => {
                    lemma_object_numbers_push(
                        w.issued,
                        TrackOp::Write { track: TrackName::Init, payload: data },
                        track,
                    );
                },
                ItemView::Frame(frame) => {
                    let next = rule(w, item).next;
                    let keyed = Self::after_keyframe(w, frame);
                    let start = TrackOp::NextGroup {
                        track: TrackName::Video,
                        priority: BACKBONE_PRIORITY,
                    };
                    lemma_object_numbers_push(w.issued, start, track);
                    if frame.frame_type != FrameType::B {
                        let write = TrackOp::Write {
                            track: TrackName::Video,
                            payload: encode_frame(frame),
                        };
                        lemma_object_numbers_push(keyed.issued, write, track);
                    } else {
                        let object = TrackOp::WriteObject {
                            track,
                            group_id: keyed.group_id,
                            object_id: keyed.obj_id,
                            priority: spec_b_frame_priority(
                                keyed.b_group,
                                keyed.b_frame_index,
                            )->Ok_0 as u64,
                            payload: encode_frame(frame),
                        };
                        lemma_object_numbers_push(keyed.issued, object, track);
                        assert(next.issued == keyed.issued.push(object));
                    }
                },
            }
        }
        lemma_run_keeps(rule, kept, v, s);
    }

    /// Maps one item onto the tracks.
    fn consume(&mut self, item: MediaStreamItem) -> (r: Result<(), StreamError>)
        ensures
            ({
                let step = Self::after(old(self)@, item@);
                if r == Err::<(), StreamError>(StreamError::TransportWriteFailed) {
                    &&& old(self)@.issued.is_prefix_of(final(self)@.issued)
                    &&& old(self)@.issued.len() < final(self)@.issued.len()
                    &&& final(self)@.issued.is_prefix_of(step.next.issued)
                } else {
                    &&& r == match step.error {
                        Some(e) => Err::<(), StreamError>(e),
                        None => Ok::<(), StreamError>(()),
                    }
                    &&& final(self)@ == step.next
                }
            }),
    {
        match item {
            MediaStreamItem::InitSegment(data) => {
                self.issued = Ghost(
                    self.issued@.push(
                        TrackOp::Write { track: TrackName::Init, payload: frozen(data) },
                    ),
                );
                accepted(self.init_track.write(data))
            },
            MediaStreamItem::Frame(frame) => {
                let mut payload = empty_buffer();
                serialize_frame(&frame, &mut payload)?;
                let payload = payload.freeze();

                if frame.is_keyframe {
                    self.group_id = match self.group_id.checked_add(1) {
                        Some(next) => next,
                        None => {
                            return Err(StreamError::CounterOverflow);
                        },
                    };
                    self.issued = Ghost(
                        self.issued@.push(
                            TrackOp::NextGroup {
                                track: TrackName::Video,
                                priority: BACKBONE_PRIORITY,
                            },
                        ),
                    );
                    self.current = accepted(self.video_track.append(BACKBONE_PRIORITY))?;
                }
                if frame.frame_type != FrameType::B {
                    self.b_group = match self.b_group.checked_add(1) {
                        Some(next) => next,
                        None => {
                            return Err(StreamError::PGroupOverflow);
                        },
                    };
                    self.b_frame_index = 0;
                }
                if frame.frame_type == FrameType::B {
                    let priority = b_frame_priority(self.b_group, self.b_frame_index)?;
                    self.issued = Ghost(
                        self.issued@.push(
                            TrackOp::WriteObject {
                                track: TrackName::BFrames,
                                group_id: self.group_id,
                                object_id: self.obj_id,
                                priority: priority as u64,
                                payload: frozen(payload),
                            },
                        ),
                    );
                    accepted(
                        self.b_frames_track.write(
                            Object {
                                group_id: self.group_id,
                                object_id: self.obj_id,
                                priority: priority as u64,
                            },
                            payload,
                        ),
                    )?;
                    self.obj_id = match self.obj_id.checked_add(1) {
                        Some(next) => next,
                        None => {
                            return Err(StreamError::CounterOverflow);
                        },
                    };
                    self.b_frame_index = self.b_frame_index + 1;
                    Ok(())
                } else {
                    self.issued = Ghost(
                        self.issued@.push(
                            TrackOp::Write { track: TrackName::Video, payload: frozen(payload) },
                        ),
                    );
                    accepted(self.current.write(payload))
                }
            },
        }
    }
}

impl VideoStreamer for StreamPerBFrame {
    open spec fn issued(v: PerBFrameView) -> Seq<TrackOp> {
        v.issued
    }

    open spec fn fresh() -> PerBFrameView {
        PerBFrameView {
            b_group: 0,
            b_frame_index: 0,
            group_id: 0,
            obj_id: 0,
            issued: seq![
                TrackOp::Create {
                    track: TrackName::Init,
                    mode: TrackMode::ByteStream { priority: 0 },
                },
                TrackOp::NextStreamGroup { track: TrackName::Init },
                TrackOp::Create { track: TrackName::Video, mode: TrackMode::PriorityGroups },
                TrackOp::NextGroup { track: TrackName::Video, priority: BACKBONE_PRIORITY },
                TrackOp::Create { track: TrackName::BFrames, mode: TrackMode::Objects },
            ],
        }
    }

    open spec fn after(v: PerBFrameView, item: ItemView) -> Step<PerBFrameView> {
        match item {
            ItemView::InitSegment(data) => Step {
                next: PerBFrameView {
                    issued: v.issued.push(
                        TrackOp::Write { track: TrackName::Init, payload: data },
                    ),
                    ..v
                },
                error: None,
            },
            ItemView::Frame(frame) => Self::after_frame(v, frame),
        }
    }

    proof fn lemma_rule_extends_record(v: PerBFrameView, item: ItemView) {
    }

    proof fn lemma_init_segment_is_forwarded(v: PerBFrameView, data: Seq<u8>) {
    }

    proof fn lemma_keyframe_starts_group(v: PerBFrameView, frame: FrameView) {
    }

    fn new(namespace: TracksWriter) -> (r: Result<Self, StreamError>) {
        let mut namespace = namespace;
        let init_track = open_init(&mut namespace)?;
        let ghost init_made = seq![
            TrackOp::Create { track: TrackName::Init, mode: TrackMode::ByteStream { priority: 0 } },
            TrackOp::NextStreamGroup { track: TrackName::Init },
        ];
        let mut video_track = open_groups(&mut namespace, TrackName::Video)?;
        let ghost video_made = init_made.push(
            TrackOp::Create { track: TrackName::Video, mode: TrackMode::PriorityGroups },
        );
        let current = accepted(video_track.append(BACKBONE_PRIORITY))?;
        let ghost group_made = video_made.push(
            TrackOp::NextGroup { track: TrackName::Video, priority: BACKBONE_PRIORITY },
        );
        let b_frames_track = open_objects(&mut namespace, TrackName::BFrames)?;
        let ghost issued = group_made.push(
            TrackOp::Create { track: TrackName::BFrames, mode: TrackMode::Objects },
        );
        assert(issued =~= Self::fresh().issued);
        Ok(
            StreamPerBFrame {
                init_track,
                video_track,
                current,
                b_frames_track,
                b_group: 0,
                b_frame_index: 0,
                group_id: 0,
                obj_id: 0,
                issued: Ghost(issued),
            },
        )
    }

    fn stream(&mut self, buf: &mut BytesMut) -> (r: Result<(), StreamError>) {
        let ghost v0 = self@;
        let ghost s0 = buffered(*buf);
        let ghost rule = |v: PerBFrameView, item: ItemView| Self::after(v, item);
        assert(s0.skip(0) =~= s0);
        loop
            invariant
                v0 == old(self)@,
                s0 == buffered(*old(buf)),
                rule == |v: PerBFrameView, item: ItemView| Self::after(v, item),
                run(rule, self@, buffered(*buf)) == run(rule, v0, s0),
                v0.issued.is_prefix_of(self@.issued),
                buffered(*buf).len() <= s0.len(),
                buffered(*buf) == s0.skip(s0.len() - buffered(*buf).len()),
            decreases buffered(*buf).len(),
        {
            match next_item(buf) {
                Err(e) => {
                    return Err(e);
                },
                Ok(false) => {
                    return Ok(());
                },
                Ok(true) => {},
            }
            let ghost v = self@;
            let ghost s = buffered(*buf);
            let parsed = parse_item(buf);
            proof {
                let k = s0.len() - s.len();
                let n = s.len() - buffered(*buf).len();
                assert(s.skip(n) =~= s0.skip(k + n));
            }
            let item = match parsed {
                Ok(item) => item,
                Err(e) => {
                    return Err(e);
                },
            };
            let outcome = self.consume(item);
            proof {
                let step = Self::after(v, item@);
                assert(rule(v, item@) == step);
                Self::lemma_rule_extends_record(v, item@);
                if outcome == Err::<(), StreamError>(StreamError::TransportWriteFailed) {
                    assert forall|w: PerBFrameView, i: ItemView|
                        Self::issued(w).is_prefix_of(Self::issued(#[trigger] rule(w, i).next)) by {
                        Self::lemma_rule_extends_record(w, i);
                    }
                    lemma_run_extends_record(
                        rule,
                        |w: PerBFrameView| Self::issued(w),
                        step.next,
                        buffered(*buf),
                    );
                }
            }
            match outcome {
                Ok(()) => {},
                Err(e) => {
                    return Err(e);
                },
            }
        }
    }
}

} // verus!
