//! Laws that relate several operations of the crate.

use vstd::prelude::*;
use crate::client::{with_data, with_end_of_stream, with_headers, with_reset};
use crate::codec::{
    is_settings_frame, lemma_settings_round_trip, parsed_settings, preface, settings_frame_bytes,
};
use crate::error::ErrorCode;
use crate::session::{
    SessionView, entry_closed, entry_open, lemma_first_pending_exists, lemma_index_unique,
    lemma_with_stream,
};
use crate::stream::{MAX_CHUNK_SIZE, StreamView};

verus! {

/// What a client writes first starts with the 24 bytes of the preface, and
/// what follows them is one SETTINGS frame without the ack flag.
pub proof fn law_preface_then_settings(before: Seq<u8>)
    ensures
        ({
            let written = preface() + settings_frame_bytes(false, Seq::empty());
            &&& preface().len() == 24
            &&& (before + written).skip(before.len() as int) == written
            &&& written.take(24) == preface()
            &&& is_settings_frame(written.skip(24))
            &&& parsed_settings(written.skip(24)) == (false, Seq::<(u16, u32)>::empty())
        }),
{
    let frame = settings_frame_bytes(false, Seq::empty());
    let written = preface() + frame;
    lemma_settings_round_trip(false, Seq::empty());
    assert((before + written).skip(before.len() as int) =~= written);
    assert(written.take(24) =~= preface());
    assert(written.skip(24) =~= frame);
}

/// Data chunks for one stream add up in the order of their arrival: two
/// chunks one after the other leave what their concatenation would.
pub proof fn law_data_chunks_concatenate(v: SessionView, id: u32, first: Seq<u8>, second: Seq<u8>)
    requires
        v.wf(),
    ensures
        with_data(with_data(v, id, first), id, second) == with_data(v, id, first + second),
        v.contains(id) ==> with_data(with_data(v, id, first), id, second).stream(id).body == v.stream(
            id,
        ).body + first + second,
{
    let s = v.stream(id);
    let s1 = StreamView { body: s.body + first, ..s };
    let s2 = StreamView { body: s.body + (first + second), ..s };
    let w = with_data(v, id, first);
    lemma_with_stream(v, id, s1);
    lemma_with_stream(v, id, s2);
    if v.contains(id) {
        let i = v.index_of(id);
        lemma_index_unique(w, id, i);
        assert(s1.body + second =~= s.body + (first + second));
        assert(s.body + first + second =~= s.body + (first + second));
        assert(w.entries.update(i, (id, s2)) =~= v.entries.update(i, (id, s2)));
    }
}

/// Headers and then the end of the stream from the peer leave a stream
/// closed if its local side was done, whatever its headers were; any other
/// tracked stream keeps its contents, so it stays as open as it was and
/// gains no errors.
pub proof fn law_end_of_stream_closes_one(
    v: SessionView,
    a: u32,
    b: u32,
    headers: Seq<(Seq<u8>, Seq<u8>)>,
)
    requires
        v.wf(),
        v.contains(a),
        v.contains(b),
        a != b,
        v.stream(a).is_closed_local(),
    ensures
        with_end_of_stream(with_headers(v, a, headers), a).stream(a).is_closed(),
        with_end_of_stream(with_headers(v, a, headers), a).stream(a).headers == Some(headers),
        with_end_of_stream(with_headers(v, a, headers), a).stream(b) == v.stream(b),
{
    let s = v.stream(a);
    let s1 = StreamView { headers: Some(headers), ..s };
    lemma_with_stream(v, a, s1);
    let w = with_headers(v, a, headers);
    let s2 = StreamView { remote_closed: true, ..w.stream(a) };
    lemma_with_stream(w, a, s2);
}

/// A reset is recorded in the stream it names and nowhere else, and closes
/// nothing.
pub proof fn law_reset_touches_one(v: SessionView, id: u32, other: u32, error_code: ErrorCode)
    requires
        v.wf(),
        v.contains(id),
        v.contains(other),
        other != id,
    ensures
        with_reset(v, id, error_code).stream(id).errors == v.stream(id).errors.push(error_code),
        with_reset(v, id, error_code).stream(id).is_closed() == v.stream(id).is_closed(),
        with_reset(v, id, error_code).stream(other) == v.stream(other),
{
    let s = v.stream(id);
    lemma_with_stream(v, id, StreamView { errors: s.errors.push(error_code), ..s });
}

/// Closed streams are handed out once: after they have been taken out, the
/// table tracks none of them, a second taking finds nothing, and the open
/// streams are all still there.
pub proof fn law_closed_streams_leave_once(v: SessionView, id: u32)
    requires
        v.wf(),
    ensures
        v.without_closed().wf(),
        v.without_closed().closed_streams() == Seq::<StreamView>::empty(),
        v.without_closed().without_closed() == v.without_closed(),
        v.without_closed().contains(id) <==> v.contains(id) && !v.stream(id).is_closed(),
        v.without_closed().contains(id) ==> v.without_closed().stream(id) == v.stream(id),
        v.closed_streams().len() + v.without_closed().entries.len() == v.entries.len(),
        v.contains(id) && v.stream(id).is_closed() ==> v.closed_streams().contains(v.stream(id)),
{
    let kept = v.entries.filter(entry_open());
    let w = v.without_closed();
    lemma_filter_keeps_order(v);
    assert forall|i: int| 0 <= i < kept.len() implies !(#[trigger] kept[i]).1.is_closed() by {
        v.entries.lemma_filter_pred(entry_open(), i);
    }
    kept.lemma_all_neg_filter_empty(entry_closed());
    assert(kept.filter(entry_closed()).map_values(|e: (u32, StreamView)| e.1) =~= Seq::empty());
    lemma_filter_all(kept);
    if w.contains(id) {
        let j = w.index_of(id);
        assert(kept.contains(kept[j]));
        v.entries.lemma_filter_contains_rev(entry_open(), kept[j]);
        let i = choose|i: int| 0 <= i < v.entries.len() && v.entries[i] == kept[j];
        lemma_index_unique(v, id, i);
        lemma_index_unique(w, id, j);
    }
    if v.contains(id) && !v.stream(id).is_closed() {
        let i = v.index_of(id);
        lemma_index_unique(v, id, i);
        assert(entry_open()(v.entries[i]));
        v.entries.lemma_filter_contains(entry_open(), i);
        let j = choose|j: int| 0 <= j < kept.len() && kept[j] == v.entries[i];
        assert(kept[j].0 == id);
    }
    lemma_filter_split_len(v.entries);
    if v.contains(id) && v.stream(id).is_closed() {
        let i = v.index_of(id);
        lemma_index_unique(v, id, i);
        let gone = v.entries.filter(entry_closed());
        assert(entry_closed()(v.entries[i]));
        v.entries.lemma_filter_contains(entry_closed(), i);
        let j = choose|j: int| 0 <= j < gone.len() && gone[j] == v.entries[i];
        assert(v.closed_streams()[j] == v.stream(id));
    }
}

/// Every entry of a list whose streams are all open passes the filter for
/// open streams.
proof fn lemma_filter_all(s: Seq<(u32, StreamView)>)
    requires
        forall|i: int| 0 <= i < s.len() ==> !(#[trigger] s[i]).1.is_closed(),
    ensures
        s.filter(entry_open()) == s,
    decreases s.len(),
{
    reveal(Seq::filter);
    if s.len() > 0 {
        lemma_filter_all(s.drop_last());
        assert(s.drop_last().push(s.last()) =~= s);
    }
}

/// The closed and the open entries of a list together are as many as the
/// list has.
proof fn lemma_filter_split_len(s: Seq<(u32, StreamView)>)
    ensures
        s.filter(entry_closed()).len() + s.filter(entry_open()).len() == s.len(),
    decreases s.len(),
{
    reveal(Seq::filter);
    if s.len() > 0 {
        lemma_filter_split_len(s.drop_last());
    }
}

/// Taking the closed streams out of a well-formed table leaves a
/// well-formed table.
proof fn lemma_filter_keeps_order(v: SessionView)
    requires
        v.wf(),
    ensures
        v.without_closed().wf(),
    decreases v.entries.len(),
{
    reveal(Seq::filter);
    if v.entries.len() > 0 {
        let shorter = SessionView { entries: v.entries.drop_last(), ..v };
        lemma_filter_keeps_order(shorter);
        let kept = shorter.entries.filter(entry_open());
        assert forall|i: int| 0 <= i < kept.len() implies (#[trigger] kept[i]).0 < v.entries.last().0 by {
            assert(kept.contains(kept[i]));
            shorter.entries.lemma_filter_contains_rev(entry_open(), kept[i]);
            let k = choose|k: int| 0 <= k < shorter.entries.len() && shorter.entries[k] == kept[i];
            assert(v.entries[k].0 < v.entries[v.entries.len() - 1].0);
        }
        let last = v.entries.last();
        let result = v.without_closed().entries;
        assert(shorter.without_closed().entries == kept);
        assert(result == (if entry_open()(last) {
            kept.push(last)
        } else {
            kept
        }));
        assert(last == v.entries[v.entries.len() - 1]);
        assert forall|i: int| 0 <= i < result.len() implies (#[trigger] result[i]).0 % 2 == 1
            && result[i].0 < v.next_id && result[i].1.wf() by {
            if i < kept.len() {
                assert(result[i] == kept[i]);
            }
        }
        assert forall|i: int, j: int| 0 <= i < j < result.len() implies (#[trigger] result[i]).0 < (
        #[trigger] result[j]).0 by {
            assert(result[i] == kept[i]);
            if j < kept.len() {
                assert(result[j] == kept[j]);
            }
        }
    }
}

/// How many of the entries hold a stream with outgoing bytes left.
pub open spec fn pending_count(entries: Seq<(u32, StreamView)>) -> nat
    decreases entries.len(),
{
    if entries.len() == 0 {
        0
    } else {
        pending_count(entries.drop_last()) + (if entries.last().1.has_pending() {
            1nat
        } else {
            0nat
        })
    }
}

/// What every stream has left to send fits into one DATA frame.
pub open spec fn single_chunks(v: SessionView) -> bool {
    forall|i: int|
        0 <= i < v.entries.len() ==> (#[trigger] v.entries[i]).1.pending().len() <= MAX_CHUNK_SIZE
}

/// The table after `n` calls that each take the next chunk.
pub open spec fn after_sends(v: SessionView, n: nat) -> SessionView
    decreases n,
{
    if n == 0 {
        v
    } else {
        after_sends(v, (n - 1) as nat).after_next_chunk()
    }
}

/// Where each stream has at most one chunk left, sending drains one stream
/// per call: as long as fewer calls have been made than streams had bytes
/// left, some stream still has bytes left, so the next call sends; after as
/// many calls as there were such streams, none has, so the next call sends
/// nothing.
pub proof fn law_one_send_per_stream(v: SessionView, k: nat)
    requires
        v.wf(),
        single_chunks(v),
        k <= pending_count(v.entries),
    ensures
        after_sends(v, k).wf(),
        single_chunks(after_sends(v, k)),
        pending_count(after_sends(v, k).entries) == pending_count(v.entries) - k,
        k < pending_count(v.entries) ==> after_sends(v, k).any_pending(),
        k == pending_count(v.entries) ==> !after_sends(v, k).any_pending(),
    decreases k,
{
    if k > 0 {
        let before = after_sends(v, (k - 1) as nat);
        law_one_send_per_stream(v, (k - 1) as nat);
        lemma_send_drains_one(before);
    }
    lemma_count_zero(after_sends(v, k).entries);
}

/// No stream has bytes left exactly when the count of such streams is 0.
proof fn lemma_count_zero(entries: Seq<(u32, StreamView)>)
    ensures
        pending_count(entries) == 0 <==> forall|i: int|
            0 <= i < entries.len() ==> !(#[trigger] entries[i]).1.has_pending(),
    decreases entries.len(),
{
    if entries.len() > 0 {
        let rest = entries.drop_last();
        lemma_count_zero(rest);
        if pending_count(entries) == 0 {
            assert forall|i: int| 0 <= i < entries.len() implies !(#[trigger] entries[i]).1.has_pending() by {
                if i < rest.len() {
                    assert(rest[i] == entries[i]);
                }
            }
        } else if !entries.last().1.has_pending() {
            let i = choose|i: int| 0 <= i < rest.len() && (#[trigger] rest[i]).1.has_pending();
            assert(entries[i] == rest[i]);
        }
    }
}

/// Replacing a stream that has bytes left by one that has none lowers the
/// count of streams with bytes left by one.
proof fn lemma_count_update(entries: Seq<(u32, StreamView)>, i: int, entry: (u32, StreamView))
    requires
        0 <= i < entries.len(),
        entries[i].1.has_pending(),
        !entry.1.has_pending(),
    ensures
        pending_count(entries.update(i, entry)) + 1 == pending_count(entries),
    decreases entries.len(),
{
    let updated = entries.update(i, entry);
    if i == entries.len() - 1 {
        assert(updated.drop_last() =~= entries.drop_last());
    } else {
        assert(updated.drop_last() =~= entries.drop_last().update(i, entry));
        lemma_count_update(entries.drop_last(), i, entry);
    }
}

/// Taking the next chunk where every stream has at most one left drains
/// the stream it is taken from and leaves the others alone.
proof fn lemma_send_drains_one(v: SessionView)
    requires
        v.wf(),
        single_chunks(v),
        v.any_pending(),
    ensures
        v.after_next_chunk().wf(),
        single_chunks(v.after_next_chunk()),
        pending_count(v.after_next_chunk().entries) + 1 == pending_count(v.entries),
{
    lemma_first_pending_exists(v);
    let i = v.first_pending();
    let w = v.after_next_chunk();
    let s = v.entries[i].1;
    let drained = s.after_chunk();
    assert(s.next_chunk() == s.pending());
    assert(!drained.has_pending());
    assert(drained.wf());
    lemma_count_update(v.entries, i, (v.entries[i].0, drained));
    assert forall|j: int| 0 <= j < w.entries.len() implies (#[trigger] w.entries[j]).0
        == v.entries[j].0 && w.entries[j].1.wf() && w.entries[j].1.pending().len() <= MAX_CHUNK_SIZE by {
        if j != i {
            assert(w.entries[j] == v.entries[j]);
        }
    }
}

} // verus!
