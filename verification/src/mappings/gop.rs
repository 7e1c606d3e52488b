//! One priority group for each group of pictures.
use bytes::BytesMut;
use moq_transport::serve::{GroupWriter, GroupsWriter, StreamGroupWriter, TracksWriter};
use vstd::prelude::*;

use crate::buffer::{buffered, empty_buffer, frozen};
use crate::error::StreamError;
use crate::mappings::{open_groups, open_init};
use crate::plan::{
    group_priorities, lemma_group_priorities_push, lemma_run_extends_record, lemma_run_keeps, run,
    Step, TrackMode, TrackName, TrackOp,
};
use crate::transport::accepted;
use crate::video::{
    encode_frame, next_item, parse_item, serialize_frame, FrameView, ItemView, MediaStreamItem,
    VideoStreamer,
};

verus! {

/// The strategy that starts a priority group on every keyframe. The groups
/// are numbered from 0, and the number of a group is its priority.
pub struct StreamPerGop {
    init_track: StreamGroupWriter,
    video_track: GroupsWriter,
    current_group: Option<GroupWriter>,
    group: u32,
    issued: Ghost<Seq<TrackOp>>,
}

/// A [`StreamPerGop`] as a mathematical value.
pub struct PerGopView {
    /// The number of groups started so far, which is the priority of the
    /// next one.
    pub group: u32,
    /// Whether a keyframe has started a group yet.
    pub has_group: bool,
    /// The operations submitted so far.
    pub issued: Seq<TrackOp>,
}

impl View for StreamPerGop {
    type V = PerGopView;

    closed spec fn view(&self) -> PerGopView {
        PerGopView {
            group: self.group,
            has_group: self.current_group is Some,
            issued: self.issued@,
        }
    }
}

impl StreamPerGop {
    /// The rule for a frame: a keyframe starts the next group, whose
    /// priority is the count of groups before it; the frame then goes to the
    /// current group. A frame that no keyframe came before is refused, and
    /// so is a keyframe beyond the last number that the counter holds.
    pub open spec fn after_frame(v: PerGopView, frame: FrameView) -> Step<PerGopView> {
        let started = if frame.is_keyframe {
            PerGopView {
                group: v.group,
                has_group: true,
                issued: v.issued.push(
                    TrackOp::NextGroup { track: TrackName::Video, priority: v.group as u64 },
                ),
            }
        } else {
            v
        };
        if frame.is_keyframe && v.group == u32::MAX {
            Step { next: started, error: Some(StreamError::CounterOverflow) }
        } else if !started.has_group {
            Step { next: started, error: Some(StreamError::NoCurrentGroup) }
        } else {
            Step {
                next: PerGopView {
                    group: if frame.is_keyframe {
                        (v.group + 1) as u32
                    } else {
                        v.group
                    },
                    has_group: true,
                    issued: started.issued.push(
                        TrackOp::Write { track: TrackName::Video, payload: encode_frame(frame) },
                    ),
                },
                error: None,
            }
        }
    }

    /// Whether the groups started so far have the priorities 0, 1, 2 and so
    /// on, in this order, and the counter stands at their number.
    pub open spec fn numbered(v: PerGopView) -> bool {
        group_priorities(v.issued, TrackName::Video) == Seq::new(
            v.group as nat,
            |i: int| i as u64,
        )
    }

    /// A strategy as [`VideoStreamer::new`] leaves it has started no group.
    pub proof fn lemma_fresh_is_numbered()
        ensures
            Self::numbered(Self::fresh()),
    {
        let record = Self::fresh().issued;
        let none = Seq::<TrackOp>::empty();
        assert(record =~= none.push(record[0]).push(record[1]).push(record[2]));
        lemma_group_priorities_push(none, record[0], TrackName::Video);
        lemma_group_priorities_push(none.push(record[0]), record[1], TrackName::Video);
        lemma_group_priorities_push(
            none.push(record[0]).push(record[1]),
            record[2],
            TrackName::Video,
        );
        assert(group_priorities(record, TrackName::Video) =~= Seq::new(0, |i: int| i as u64));
    }

    /// The groups are numbered in the order in which the keyframes arrive:
    /// a run that ends well leaves the priorities 0, 1, 2 and so on, one for
    /// each group.
    pub proof fn lemma_groups_are_numbered(v: PerGopView, s: Seq<u8>)
        requires
            Self::numbered(v),
        ensures
            ({
                let end = run(|w: PerGopView, item: ItemView| Self::after(w, item), v, s);
                end.result is Ok ==> Self::numbered(end.state)
            }),
    {
        let rule = |w: PerGopView, item: ItemView| Self::after(w, item);
        let kept = |w: PerGopView| Self::numbered(w);
        assert forall|w: PerGopView, item: ItemView|
            kept(w) && (#[trigger] rule(w, item)).error is None implies kept(
            rule(w, item).next,
        ) by {
            let video = TrackName::Video;
            match item {
                ItemView::InitSegment(data) => {
                    lemma_group_priorities_push(
                        w.issued,
                        TrackOp::Write { track: TrackName::Init, payload: data },
                        video,
                    );
                },
                ItemView::Frame(frame) => {
                    let start = TrackOp::NextGroup { track: video, priority: w.group as u64 };
                    let write = TrackOp::Write { track: video, payload: encode_frame(frame) };
                    if frame.is_keyframe {
                        lemma_group_priorities_push(w.issued, start, video);
                        lemma_group_priorities_push(w.issued.push(start), write, video);
                        assert(Seq::new(w.group as nat, |i: int| i as u64).push(w.group as u64)
                            =~= Seq::new((w.group + 1) as nat, |i: int| i as u64));
                    } else {
                        lemma_group_priorities_push(w.issued, write, video);
                    }
                },
            }
        }
        lemma_run_keeps(rule, kept, v, s);
    }

    /// Maps one item onto the tracks.
    fn consume(&mut self, item: MediaStreamItem) -> (r: Result<(), StreamError>)
        ensures
            ({
                let step = Self::after(old(self)@, item@);
                if r == Err::<(), StreamError>(StreamError::TransportWriteFailed) {
                    &&& old(self)@.issued.is_prefix_of(final(self)@.issued)
                    &&& old(self)@.issued.len() < final(self)@.issued.len()
                    &&& final(self)@.issued.is_prefix_of(step.next.issued)
                } else {
                    &&& r == match step.error {
                        Some(e) => Err::<(), StreamError>(e),
                        None => Ok::<(), StreamError>(()),
                    }
                    &&& final(self)@ == step.next
                }
            }),
    {
        match item {
            MediaStreamItem::InitSegment(data) => {
                self.issued = Ghost(
                    self.issued@.push(
                        TrackOp::Write { track: TrackName::Init, payload: frozen(data) },
                    ),
                );
                accepted(self.init_track.write(data))
            },
            MediaStreamItem::Frame(frame) => {
                if frame.is_keyframe {
                    let priority = self.group;
                    self.issued = Ghost(
                        self.issued@.push(
                            TrackOp::NextGroup {
                                track: TrackName::Video,
                                priority: priority as u64,
                            },
                        ),
                    );
                    self.current_group = Some(
                        accepted(self.video_track.append(priority as u64))?,
                    );
                    self.group = match self.group.checked_add(1) {
                        Some(next) => next,
                        None => {
                            return Err(StreamError::CounterOverflow);
                        },
                    };
                }
                match &mut self.current_group {
                    None => Err(StreamError::NoCurrentGroup),
                    Some(current_group) => {
                        let mut payload = empty_buffer();
                        serialize_frame(&frame, &mut payload)?;
                        let payload = payload.freeze();
                        self.issued = Ghost(
                            self.issued@.push(
                                TrackOp::Write {
                                    track: TrackName::Video,
                                    payload: frozen(payload),
                                },
                            ),
                        );
                        accepted(current_group.write(payload))
                    },
                }
            },
        }
    }
}

impl VideoStreamer for StreamPerGop {
    open spec fn issued(v: PerGopView) -> Seq<TrackOp> {
        v.issued
    }

    open spec fn fresh() -> PerGopView {
        PerGopView {
            group: 0,
            has_group: false,
            issued: seq![
                TrackOp::Create {
                    track: TrackName::Init,
                    mode: TrackMode::ByteStream { priority: 0 },
                },
                TrackOp::NextStreamGroup { track: TrackName::Init },
                TrackOp::Create { track: TrackName::Video, mode: TrackMode::PriorityGroups },
            ],
        }
    }

    open spec fn after(v: PerGopView, item: ItemView) -> Step<PerGopView> {
        match item {
            ItemView::InitSegment(data) => Step {
                next: PerGopView {
                    issued: v.issued.push(
                        TrackOp::Write { track: TrackName::Init, payload: data },
                    ),
                    ..v
                },
                error: None,
            },
            ItemView::Frame(frame) => Self::after_frame(v, frame),
        }
    }

    proof fn lemma_rule_extends_record(v: PerGopView, item: ItemView) {
    }

    proof fn lemma_init_segment_is_forwarded(v: PerGopView, data: Seq<u8>) {
    }

    proof fn lemma_keyframe_starts_group(v: PerGopView, frame: FrameView) {
    }

    fn new(namespace: TracksWriter) -> (r: Result<Self, StreamError>) {
        let mut namespace = namespace;
        let init_track = open_init(&mut namespace)?;
        let ghost init_made = seq![
            TrackOp::Create { track: TrackName::Init, mode: TrackMode::ByteStream { priority: 0 } },
            TrackOp::NextStreamGroup { track: TrackName::Init },
        ];
        let video_track = open_groups(&mut namespace, TrackName::Video)?;
        let ghost issued = init_made.push(
            TrackOp::Create { track: TrackName::Video, mode: TrackMode::PriorityGroups },
        );
        assert(issued =~= Self::fresh().issued);
        Ok(
            StreamPerGop {
                init_track,
                video_track,
                current_group: None,
                group: 0,
                issued: Ghost(issued),
            },
        )
    }

    fn stream(&mut self, buf: &mut BytesMut) -> (r: Result<(), StreamError>) {
        let ghost v0 = self@;
        let ghost s0 = buffered(*buf);
        let ghost rule = |v: PerGopView, item: ItemView| Self::after(v, item);
        assert(s0.skip(0) =~= s0);
        loop
            invariant
                v0 == old(self)@,
                s0 == buffered(*old(buf)),
                rule == |v: PerGopView, item: ItemView| Self::after(v, item),
                run(rule, self@, buffered(*buf)) == run(rule, v0, s0),
                v0.issued.is_prefix_of(self@.issued),
                buffered(*buf).len() <= s0.len(),
                buffered(*buf) == s0.skip(s0.len() - buffered(*buf).len()),
            decreases buffered(*buf).len(),
        {
            match next_item(buf) {
                Err(e) => {
                    return Err(e);
                },
                Ok(false) => {
                    return Ok(());
                },
                Ok(true) => {},
            }
            let ghost v = self@;
            let ghost s = buffered(*buf);
            let parsed = parse_item(buf);
            proof {
                let k = s0.len() - s.len();
                let n = s.len() - buffered(*buf).len();
                assert(s.skip(n) =~= s0.skip(k + n));
            }
            let item = match parsed {
                Ok(item) => item,
                Err(e) => {
                    return Err(e);
                },
            };
            let outcome = self.consume(item);
            proof {
                let step = Self::after(v, item@);
                assert(rule(v, item@) == step);
                Self::lemma_rule_extends_record(v, item@);
                if outcome == Err::<(), StreamError>(StreamError::TransportWriteFailed) {
                    assert forall|w: PerGopView, i: ItemView|
                        Self::issued(w).is_prefix_of(Self::issued(#[trigger] rule(w, i).next)) by {
                        Self::lemma_rule_extends_record(w, i);
                    }
                    lemma_run_extends_record(
                        rule,
                        |w: PerGopView| Self::issued(w),
                        step.next,
                        buffered(*buf),
                    );
                }
            }
            match outcome {
                Ok(()) => {},
                Err(e) => {
                    return Err(e);
                },
            }
        }
    }
}

} // verus!
