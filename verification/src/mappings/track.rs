//! One byte stream for all frames; each keyframe starts a new group of it.
use bytes::BytesMut;
use moq_transport::serve::{StreamGroupWriter, StreamWriter, TracksWriter};
use vstd::prelude::*;

use crate::buffer::{buffered, empty_buffer, frozen};
use crate::error::StreamError;
use crate::mappings::{open_init, open_stream};
use crate::plan::{lemma_run_extends_record, run, Step, TrackMode, TrackName, TrackOp};
use crate::transport::accepted;
use crate::video::{
    encode_frame, next_item, parse_item, serialize_frame, FrameView, ItemView, MediaStreamItem,
    VideoStreamer,
};

verus! {

/// The strategy that sends all frames on one byte-stream track. Frames are
/// delivered in order; there are no priorities.
pub struct StreamPerTrack {
    init_track: StreamGroupWriter,
    video_track: StreamWriter,
    current_group: StreamGroupWriter,
    issued: Ghost<Seq<TrackOp>>,
}

/// A [`StreamPerTrack`] as a mathematical value.
pub struct PerTrackView {
    /// The operations submitted so far.
    pub issued: Seq<TrackOp>,
}

impl View for StreamPerTrack {
    type V = PerTrackView;

    closed spec fn view(&self) -> PerTrackView {
        PerTrackView { issued: self.issued@ }
    }
}

impl StreamPerTrack {
    /// Maps one item onto the tracks.
    fn consume(&mut self, item: MediaStreamItem) -> (r: Result<(), StreamError>)
        ensures
            ({
                let step = Self::after(old(self)@, item@);
                if r == Err::<(), StreamError>(StreamError::TransportWriteFailed) {
                    &&& old(self)@.issued.is_prefix_of(final(self)@.issued)
                    &&& old(self)@.issued.len() < final(self)@.issued.len()
                    &&& final(self)@.issued.is_prefix_of(step.next.issued)
                } else {
                    &&& r is Ok
                    &&& final(self)@ == step.next
                }
            }),
    {
        match item {
            MediaStreamItem::InitSegment(data) => {
                self.issued = Ghost(
                    self.issued@.push(
                        TrackOp::Write { track: TrackName::Init, payload: frozen(data) },
                    ),
                );
                accepted(self.init_track.write(data))
            },
            MediaStreamItem::Frame(frame) => {
                if frame.is_keyframe {
                    self.issued = Ghost(
                        self.issued@.push(TrackOp::NextStreamGroup { track: TrackName::Video }),
                    );
                    self.current_group = accepted(self.video_track.append())?;
                }
                let mut payload = empty_buffer();
                serialize_frame(&frame, &mut payload)?;
                let payload = payload.freeze();
                self.issued = Ghost(
                    self.issued@.push(
                        TrackOp::Write { track: TrackName::Video, payload: frozen(payload) },
                    ),
                );
                accepted(self.current_group.write(payload))
            },
        }
    }
}

impl VideoStreamer for StreamPerTrack {
    open spec fn issued(v: PerTrackView) -> Seq<TrackOp> {
        v.issued
    }

    open spec fn fresh() -> PerTrackView {
        PerTrackView {
            issued: seq![
                TrackOp::Create {
                    track: TrackName::Init,
                    mode: TrackMode::ByteStream { priority: 0 },
                },
                TrackOp::NextStreamGroup { track: TrackName::Init },
                TrackOp::Create {
                    track: TrackName::Video,
                    mode: TrackMode::ByteStream { priority: 0 },
                },
                TrackOp::NextStreamGroup { track: TrackName::Video },
            ],
        }
    }

    open spec fn after(v: PerTrackView, item: ItemView) -> Step<PerTrackView> {
        match item {
            ItemView::InitSegment(data) => Step {
                next: PerTrackView {
                    issued: v.issued.push(
                        TrackOp::Write { track: TrackName::Init, payload: data },
                    ),
                },
                error: None,
            },
            ItemView::Frame(frame) => {
                let started = if frame.is_keyframe {
                    v.issued.push(TrackOp::NextStreamGroup { track: TrackName::Video })
                } else {
                    v.issued
                };
                Step {
                    next: PerTrackView {
                        issued: started.push(
                            TrackOp::Write {
                                track: TrackName::Video,
                                payload: encode_frame(frame),
                            },
                        ),
                    },
                    error: None,
                }
            },
        }
    }

    proof fn lemma_rule_extends_record(v: PerTrackView, item: ItemView) {
    }

    proof fn lemma_init_segment_is_forwarded(v: PerTrackView, data: Seq<u8>) {
    }

    proof fn lemma_keyframe_starts_group(v: PerTrackView, frame: FrameView) {
    }

    fn new(namespace: TracksWriter) -> (r: Result<Self, StreamError>) {
        let mut namespace = namespace;
        let init_track = open_init(&mut namespace)?;
        let ghost init_made = seq![
            TrackOp::Create { track: TrackName::Init, mode: TrackMode::ByteStream { priority: 0 } },
            TrackOp::NextStreamGroup { track: TrackName::Init },
        ];
        let mut video_track = open_stream(&mut namespace, TrackName::Video, 0)?;
        let ghost video_made = init_made.push(
            TrackOp::Create {
                track: TrackName::Video,
                mode: TrackMode::ByteStream { priority: 0 },
            },
        );
        let current_group = accepted(video_track.append())?;
        let ghost issued = video_made.push(TrackOp::NextStreamGroup { track: TrackName::Video });
        assert(issued =~= Self::fresh().issued);
        Ok(StreamPerTrack { init_track, video_track, current_group, issued: Ghost(issued) })
    }

    fn stream(&mut self, buf: &mut BytesMut) -> (r: Result<(), StreamError>) {
        let ghost v0 = self@;
        let ghost s0 = buffered(*buf);
        let ghost rule = |v: PerTrackView, item: ItemView| Self::after(v, item);
        assert(s0.skip(0) =~= s0);
        loop
            invariant
                v0 == old(self)@,
                s0 == buffered(*old(buf)),
                rule == |v: PerTrackView, item: ItemView| Self::after(v, item),
                run(rule, self@, buffered(*buf)) == run(rule, v0, s0),
                v0.issued.is_prefix_of(self@.issued),
                buffered(*buf).len() <= s0.len(),
                buffered(*buf) == s0.skip(s0.len() - buffered(*buf).len()),
            decreases buffered(*buf).len(),
        {
            match next_item(buf) {
                Err(e) => {
                    return Err(e);
                },
                Ok(false) => {
                    return Ok(());
                },
                Ok(true) => {},
            }
            let ghost v = self@;
            let ghost s = buffered(*buf);
            let parsed = parse_item(buf);
            proof {
                let k = s0.len() - s.len();
                let n = s.len() - buffered(*buf).len();
                assert(s.skip(n) =~= s0.skip(k + n));
            }
            let item = match parsed {
                Ok(item) => item,
                Err(e) => {
                    return Err(e);
                },
            };
            let outcome = self.consume(item);
            proof {
                let step = Self::after(v, item@);
                assert(rule(v, item@) == step);
                Self::lemma_rule_extends_record(v, item@);
                if outcome == Err::<(), StreamError>(StreamError::TransportWriteFailed) {
                    assert forall|w: PerTrackView, i: ItemView|
                        Self::issued(w).is_prefix_of(Self::issued(#[trigger] rule(w, i).next)) by {
                        Self::lemma_rule_extends_record(w, i);
                    }
                    lemma_run_extends_record(
                        rule,
                        |w: PerTrackView| Self::issued(w),
                        step.next,
                        buffered(*buf),
                    );
                }
            }
            match outcome {
                Ok(()) => {},
                Err(e) => {
                    return Err(e);
                },
            }
        }
    }
}

} // verus!
