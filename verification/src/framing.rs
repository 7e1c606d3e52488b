//! What holds of the segment format, whatever the bytes are.
use vstd::prelude::*;

use crate::endian::{be_bytes, be_value, lemma_be_round_trip, lemma_radix_values};
use crate::error::StreamError;
use crate::video::{
    encode_frame, has_complete_item, item_of, segment_len, spec_next_item, taken_by_parse,
    FrameType, FrameView, ItemView, TAG_FRAME,
};

verus! {

/// Whether `s` is one whole segment and nothing more.
pub open spec fn is_one_segment(s: Seq<u8>) -> bool {
    segment_len(s) == Some(s.len())
}

/// The frame segment whose fields are those of a forwarded frame `record`,
/// with the keyframe flag `key` and the payload length put back in.
pub open spec fn segment_of_record(key: bool, record: Seq<u8>) -> Seq<u8> {
    seq![TAG_FRAME, if key { 1u8 } else { 0u8 }] + record.take(25) + be_bytes(
        (record.len() - 25) as nat,
        4,
    ) + record.skip(25)
}

/// A segment that arrives byte by byte is not there until its last byte is:
/// on every proper prefix of a whole segment [`crate::video::next_item`]
/// answers `false`, and on the whole segment it answers `true`.
pub proof fn lemma_incomplete_until_last_byte(s: Seq<u8>, k: int)
    requires
        is_one_segment(s),
        0 <= k < s.len(),
    ensures
        spec_next_item(s.take(k)) == Ok::<bool, StreamError>(false),
        spec_next_item(s) == Ok::<bool, StreamError>(true),
{
    let p = s.take(k);
    if k >= 1 {
        assert(p[0] == s[0]);
    }
    if k >= 5 {
        assert(p.subrange(1, 5) =~= s.subrange(1, 5));
    }
    if k >= 31 {
        assert(p.subrange(27, 31) =~= s.subrange(27, 31));
    }
}

/// What follows a whole segment in the buffer has no part in how the segment
/// is read: the same item comes out, and as many bytes are taken, whether the
/// segment stands alone or more bytes have arrived behind it.
pub proof fn lemma_later_bytes_change_nothing(s: Seq<u8>, more: Seq<u8>)
    requires
        has_complete_item(s),
    ensures
        has_complete_item(s + more),
        segment_len(s + more) == segment_len(s),
        item_of(s + more) == item_of(s),
        taken_by_parse(s + more) == taken_by_parse(s),
        spec_next_item(s + more) == spec_next_item(s),
{
    let t = s + more;
    assert(t[0] == s[0]);
    assert(t.subrange(1, 5) =~= s.subrange(1, 5));
    if s[0] == TAG_FRAME {
        assert(t.subrange(27, 31) =~= s.subrange(27, 31));
        assert(t[2] == s[2]);
        let b = s.skip(1);
        let c = t.skip(1);
        let n = be_value(s.subrange(27, 31)) as int;
        assert(b.subrange(26, 30) =~= s.subrange(27, 31));
        assert(c.subrange(26, 30) =~= s.subrange(27, 31));
        assert(c[0] == b[0]);
        assert(c[1] == b[1]);
        assert(c.subrange(2, 10) =~= b.subrange(2, 10));
        assert(c.subrange(10, 18) =~= b.subrange(10, 18));
        assert(c.subrange(18, 26) =~= b.subrange(18, 26));
        assert(c.subrange(30, 30 + n) =~= b.subrange(30, 30 + n));
    } else {
        let n = be_value(s.subrange(1, 5)) as int;
        assert(t.subrange(5, 5 + n) =~= s.subrange(5, 5 + n));
    }
}

/// A tag other than those of the two kinds of segment is an error, however
/// many bytes follow it.
pub proof fn lemma_unknown_tag_is_an_error(s: Seq<u8>)
    requires
        s.len() >= 1,
        s[0] != 0,
        s[0] != 1,
    ensures
        spec_next_item(s) == Err::<bool, StreamError>(StreamError::UnknownSegmentType),
{
}

/// The forwarded form of a frame keeps the frame type, the three times and
/// the payload: put into a frame segment again and read back, they are the
/// frame's own. The keyframe flag is not in the forwarded form; the frame
/// read back has the flag that the segment was given.
pub proof fn lemma_forwarded_frame_reads_back(f: FrameView, key: bool)
    requires
        f.data.len() < 0x1_0000_0000,
    ensures
        is_one_segment(segment_of_record(key, encode_frame(f))),
        item_of(segment_of_record(key, encode_frame(f))) matches Ok(ItemView::Frame(g)) && {
            &&& g.frame_type == f.frame_type
            &&& g.availability_time == f.availability_time
            &&& g.decode_time == f.decode_time
            &&& g.presentation_time == f.presentation_time
            &&& g.data == f.data
            &&& g.is_keyframe == key
        },
{
    let record = encode_frame(f);
    let w = segment_of_record(key, record);
    let a = be_bytes(f.availability_time as nat, 8);
    let d = be_bytes(f.decode_time as nat, 8);
    let p = be_bytes(f.presentation_time as nat, 8);
    let l = be_bytes(f.data.len(), 4);
    lemma_radix_values();
    lemma_be_round_trip(f.availability_time as nat, 8);
    lemma_be_round_trip(f.decode_time as nat, 8);
    lemma_be_round_trip(f.presentation_time as nat, 8);
    lemma_be_round_trip(f.data.len(), 4);
    assert(record.len() == 25 + f.data.len());
    assert(record.take(25) =~= seq![f.frame_type.spec_code()] + a + d + p);
    assert(record.skip(25) =~= f.data);
    assert(w.len() == 31 + f.data.len());
    assert(w[0] == TAG_FRAME);
    assert(w[2] == f.frame_type.spec_code());
    assert(w.subrange(27, 31) =~= l);
    let b = w.skip(1);
    assert(b[0] == if key { 1u8 } else { 0u8 });
    assert(b[1] == f.frame_type.spec_code());
    assert(b.subrange(2, 10) =~= a);
    assert(b.subrange(10, 18) =~= d);
    assert(b.subrange(18, 26) =~= p);
    assert(b.subrange(26, 30) =~= l);
    assert(b.subrange(30, 30 + f.data.len() as int) =~= f.data);
    assert(FrameType::of_code(f.frame_type.spec_code()) == Some(f.frame_type));
}

} // verus!
