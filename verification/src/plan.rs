//! What a mapping strategy hands to the transport, as a mathematical value.
//!
//! A strategy is described by the operations that it submits to its tracks,
//! in order, and by its counters. [`run`] says what a strategy does with a
//! buffer: it takes whole segments off the front, one after the other, and
//! lets the strategy's own rule act on each, until no whole segment is left
//! or something fails.
use vstd::prelude::*;

use crate::error::StreamError;
use crate::video::{has_complete_item, item_of, spec_next_item, taken_by_parse, ItemView};

verus! {

/// The tracks that the strategies publish.
#[derive(Debug, Clone, Copy, PartialEq, Eq, Structural)]
pub enum TrackName {
    /// Initialisation segments.
    Init,
    /// The frames, or with the B frames set apart, the other frames.
    Video,
    /// The index of frames.
    Frames,
    /// The B frames, where they are set apart.
    BFrames,
}

impl TrackName {
    /// The name under which the track is created.
    pub open spec fn spec_name(self) -> &'static str {
        match self {
            TrackName::Init => "init",
            TrackName::Video => "video",
            TrackName::Frames => "frames",
            TrackName::BFrames => "b-frames",
        }
    }

    /// The name under which the track is created.
    pub fn name(self) -> (text: &'static str)
        ensures
            text@ == self.spec_name()@,
    {
        match self {
            TrackName::Init => "init",
            TrackName::Video => "video",
            TrackName::Frames => "frames",
            TrackName::BFrames => "b-frames",
        }
    }
}

/// The three ways in which a track can be opened. A track keeps its mode.
pub enum TrackMode {
    /// One ordered stream of groups; each new group takes the place of the
    /// one before.
    ByteStream { priority: u64 },
    /// Groups that each have a priority of their own.
    PriorityGroups,
    /// Single objects, each with a group, a number and a priority.
    Objects,
}

/// One operation that a strategy submits to the transport.
pub enum TrackOp {
    /// The track is created and opened in a mode.
    Create { track: TrackName, mode: TrackMode },
    /// A byte-stream track starts its next group.
    NextStreamGroup { track: TrackName },
    /// A priority-group track starts its next group.
    NextGroup { track: TrackName, priority: u64 },
    /// A payload is appended to the track's current group.
    Write { track: TrackName, payload: Seq<u8> },
    /// An object is published on an independent-object track.
    WriteObject {
        track: TrackName,
        group_id: u64,
        object_id: u64,
        priority: u64,
        payload: Seq<u8>,
    },
}

impl TrackOp {
    /// Whether the operation starts a group on a track.
    pub open spec fn starts_group(self) -> bool {
        self is NextStreamGroup || self is NextGroup
    }
}

/// What a strategy's rule makes of one item: the strategy afterwards, and
/// the failure if the rule refuses the item.
pub struct Step<V> {
    pub next: V,
    pub error: Option<StreamError>,
}

/// How a run over a buffer ends: the strategy afterwards, the bytes left in
/// the buffer, and the result.
pub struct Run<V> {
    pub state: V,
    pub rest: Seq<u8>,
    pub result: Result<(), StreamError>,
}

/// The run of a strategy that is in state `v` over a buffer that holds `s`,
/// where `step` is the strategy's rule for one item and the transport
/// accepts every operation.
pub open spec fn run<V>(step: spec_fn(V, ItemView) -> Step<V>, v: V, s: Seq<u8>) -> Run<V>
    decreases s.len(),
{
    match spec_next_item(s) {
        Err(e) => Run { state: v, rest: s, result: Err(e) },
        Ok(false) => Run { state: v, rest: s, result: Ok(()) },
        Ok(true) => {
            let rest = s.skip(taken_by_parse(s) as int);
            match item_of(s) {
                Err(e) => Run { state: v, rest, result: Err(e) },
                Ok(item) => {
                    let st = step(v, item);
                    if st.error is Some {
                        Run { state: st.next, rest, result: Err(st.error->0) }
                    } else {
                        run(step, st.next, rest)
                    }
                },
            }
        },
    }
}

/// Too few bytes are no failure: a buffer that holds no whole segment, and
/// no unknown tag at its front, is left as it is until more bytes arrive.
pub proof fn lemma_run_waits_for_bytes<V>(step: spec_fn(V, ItemView) -> Step<V>, v: V, s: Seq<u8>)
    requires
        spec_next_item(s) == Ok::<bool, StreamError>(false),
    ensures
        run(step, v, s) == (Run { state: v, rest: s, result: Ok(()) }),
{
}

/// A run that ends well has left no whole segment in the buffer.
pub proof fn lemma_run_drains<V>(step: spec_fn(V, ItemView) -> Step<V>, v: V, s: Seq<u8>)
    ensures
        run(step, v, s).result is Ok ==> !has_complete_item(run(step, v, s).rest),
    decreases s.len(),
{
    if spec_next_item(s) == Ok::<bool, StreamError>(true) {
        if let Ok(item) = item_of(s) {
            let st = step(v, item);
            if st.error is None {
                lemma_run_drains(step, st.next, s.skip(taken_by_parse(s) as int));
            }
        }
    }
}

/// What is left in the buffer after a run is an end piece of what was there.
pub proof fn lemma_run_rest_is_suffix<V>(step: spec_fn(V, ItemView) -> Step<V>, v: V, s: Seq<u8>)
    ensures
        run(step, v, s).rest.len() <= s.len(),
        run(step, v, s).rest == s.skip(s.len() - run(step, v, s).rest.len()),
    decreases s.len(),
{
    let n = taken_by_parse(s) as int;
    let rest = s.skip(n);
    if spec_next_item(s) == Ok::<bool, StreamError>(true) {
        if let Ok(item) = item_of(s) {
            let st = step(v, item);
            if st.error is None {
                lemma_run_rest_is_suffix(step, st.next, rest);
                let m = rest.len() - run(step, st.next, rest).rest.len();
                assert(rest.skip(m) =~= s.skip(n + m));
            }
        }
    } else {
        assert(s.skip(0) =~= s);
    }
}

/// Where a rule only ever adds to the end of a strategy's record of
/// operations, so does a run.
pub proof fn lemma_run_extends_record<V>(
    step: spec_fn(V, ItemView) -> Step<V>,
    record: spec_fn(V) -> Seq<TrackOp>,
    v: V,
    s: Seq<u8>,
)
    requires
        forall|w: V, item: ItemView| record(w).is_prefix_of(record(#[trigger] step(w, item).next)),
    ensures
        record(v).is_prefix_of(record(run(step, v, s).state)),
    decreases s.len(),
{
    if spec_next_item(s) == Ok::<bool, StreamError>(true) {
        if let Ok(item) = item_of(s) {
            let st = step(v, item);
            if st.error is None {
                let rest = s.skip(taken_by_parse(s) as int);
                lemma_run_extends_record(step, record, st.next, rest);
                let a = record(v);
                let b = record(st.next);
                let c = record(run(step, st.next, rest).state);
                assert(a.is_prefix_of(b));
                assert(b.is_prefix_of(c));
                assert(a =~= c.subrange(0, a.len() as int));
            }
        }
    }
}

/// What every step that succeeds keeps true, a run that ends well keeps
/// true.
pub proof fn lemma_run_keeps<V>(
    step: spec_fn(V, ItemView) -> Step<V>,
    kept: spec_fn(V) -> bool,
    v: V,
    s: Seq<u8>,
)
    requires
        kept(v),
        forall|w: V, item: ItemView|
            kept(w) && (#[trigger] step(w, item)).error is None ==> kept(step(w, item).next),
    ensures
        run(step, v, s).result is Ok ==> kept(run(step, v, s).state),
    decreases s.len(),
{
    if spec_next_item(s) == Ok::<bool, StreamError>(true) {
        if let Ok(item) = item_of(s) {
            let st = step(v, item);
            if st.error is None {
                lemma_run_keeps(step, kept, st.next, s.skip(taken_by_parse(s) as int));
            }
        }
    }
}

/// The priorities of the groups that a record starts on a priority-group
/// track, in order.
pub open spec fn group_priorities(record: Seq<TrackOp>, track: TrackName) -> Seq<u64>
    decreases record.len(),
{
    if record.len() == 0 {
        Seq::empty()
    } else {
        let before = group_priorities(record.drop_last(), track);
        match record.last() {
            TrackOp::NextGroup { track: t, priority } => if t == track {
                before.push(priority)
            } else {
                before
            },
            _ => before,
        }
    }
}

/// The group and object numbers of the objects that a record publishes on
/// an independent-object track, in order.
pub open spec fn object_numbers(record: Seq<TrackOp>, track: TrackName) -> Seq<(u64, u64)>
    decreases record.len(),
{
    if record.len() == 0 {
        Seq::empty()
    } else {
        let before = object_numbers(record.drop_last(), track);
        match record.last() {
            TrackOp::WriteObject { track: t, group_id, object_id, .. } => if t == track {
                before.push((group_id, object_id))
            } else {
                before
            },
            _ => before,
        }
    }
}

/// What one more operation adds to the priorities of the groups started.
pub proof fn lemma_group_priorities_push(record: Seq<TrackOp>, op: TrackOp, track: TrackName)
    ensures
        group_priorities(record.push(op), track) == match op {
            TrackOp::NextGroup { track: t, priority } => if t == track {
                group_priorities(record, track).push(priority)
            } else {
                group_priorities(record, track)
            },
            _ => group_priorities(record, track),
        },
{
    assert(record.push(op).drop_last() =~= record);
}

/// What one more operation adds to the numbers of the objects published.
pub proof fn lemma_object_numbers_push(record: Seq<TrackOp>, op: TrackOp, track: TrackName)
    ensures
        object_numbers(record.push(op), track) == match op {
            TrackOp::WriteObject { track: t, group_id, object_id, .. } => if t == track {
                object_numbers(record, track).push((group_id, object_id))
            } else {
                object_numbers(record, track)
            },
            _ => object_numbers(record, track),
        },
{
    assert(record.push(op).drop_last() =~= record);
}

} // verus!
