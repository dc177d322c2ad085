//! The table of streams that a connection tracks.

use vstd::prelude::*;
use crate::stream::{Stream, StreamView};

verus! {

/// The identifier of the first stream a client opens.
pub const FIRST_STREAM_ID: u32 = 1;

/// One tracked stream together with its identifier.
pub struct StreamEntry {
    pub id: u32,
    pub stream: Stream,
}

/// The streams of one client connection, keyed by stream identifier.
///
/// Identifiers are handed out by the table itself: odd, increasing and never
/// used twice. The entries are kept in the order of their identifiers.
pub struct SessionState {
    entries: Vec<StreamEntry>,
    next_id: u32,
}

/// The mathematical content of a [`SessionState`]: the tracked streams in
/// ascending order of identifier, and the identifier the next stream gets.
pub struct SessionView {
    pub entries: Seq<(u32, StreamView)>,
    pub next_id: u32,
}

/// The entry holds a stream that is closed in both directions.
pub open spec fn entry_closed() -> spec_fn((u32, StreamView)) -> bool {
    |e: (u32, StreamView)| e.1.is_closed()
}

/// The entry holds a stream that is not yet closed in both directions.
pub open spec fn entry_open() -> spec_fn((u32, StreamView)) -> bool {
    |e: (u32, StreamView)| !e.1.is_closed()
}

impl SessionView {
    /// No streams; the first identifier is still to be given out.
    pub open spec fn empty() -> SessionView {
        SessionView { entries: Seq::empty(), next_id: FIRST_STREAM_ID }
    }

    /// Identifiers are odd, strictly increasing and below the next one to be
    /// allocated, and every stream is well formed.
    pub open spec fn wf(self) -> bool {
        &&& self.next_id % 2 == 1
        &&& forall|i: int|
            0 <= i < self.entries.len() ==> {
                &&& (#[trigger] self.entries[i]).0 % 2 == 1
                &&& self.entries[i].0 < self.next_id
                &&& self.entries[i].1.wf()
            }
        &&& forall|i: int, j: int|
            0 <= i < j < self.entries.len() ==> (#[trigger] self.entries[i]).0 < (
            #[trigger] self.entries[j]).0
    }

    /// A stream with this identifier is tracked.
    pub open spec fn contains(self, id: u32) -> bool {
        exists|i: int| 0 <= i < self.entries.len() && (#[trigger] self.entries[i]).0 == id
    }

    /// The position of the stream with this identifier.
    pub open spec fn index_of(self, id: u32) -> int {
        choose|i: int| 0 <= i < self.entries.len() && (#[trigger] self.entries[i]).0 == id
    }

    /// The stream with this identifier, where one is tracked.
    pub open spec fn stream(self, id: u32) -> StreamView
        recommends
            self.contains(id),
    {
        self.entries[self.index_of(id)].1
    }

    /// The table with the stream under `id` replaced; unchanged where no
    /// such stream is tracked.
    pub open spec fn with_stream(self, id: u32, stream: StreamView) -> SessionView {
        if self.contains(id) {
            SessionView { entries: self.entries.update(self.index_of(id), (id, stream)), ..self }
        } else {
            self
        }
    }

    /// Another identifier can still be allocated.
    pub open spec fn can_allocate(self) -> bool {
        self.next_id <= u32::MAX - 2
    }

    /// The table after `stream` has been stored under the next identifier.
    pub open spec fn inserted(self, stream: StreamView) -> SessionView {
        SessionView {
            entries: self.entries.push((self.next_id, stream)),
            next_id: (self.next_id + 2) as u32,
        }
    }

    /// The closed streams, in ascending order of identifier.
    pub open spec fn closed_streams(self) -> Seq<StreamView> {
        self.entries.filter(entry_closed()).map_values(|e: (u32, StreamView)| e.1)
    }

    /// The table without its closed streams.
    pub open spec fn without_closed(self) -> SessionView {
        SessionView { entries: self.entries.filter(entry_open()), ..self }
    }

    /// Some tracked stream has outgoing bytes left.
    pub open spec fn any_pending(self) -> bool {
        exists|i: int| 0 <= i < self.entries.len() && (#[trigger] self.entries[i]).1.has_pending()
    }

    /// The position of the first stream with outgoing bytes left.
    #[verifier::opaque]
    pub open spec fn first_pending(self) -> int {
        choose|i: int|
            0 <= i < self.entries.len() && (#[trigger] self.entries[i]).1.has_pending() && forall|
                j: int,
            | 0 <= j < i ==> !(#[trigger] self.entries[j]).1.has_pending()
    }

    /// The table after the next chunk has been taken from the first stream
    /// that has outgoing bytes left; unchanged where there is none.
    pub open spec fn after_next_chunk(self) -> SessionView {
        if self.any_pending() {
            let i = self.first_pending();
            SessionView {
                entries: self.entries.update(i, (self.entries[i].0, self.entries[i].1.after_chunk())),
                ..self
            }
        } else {
            self
        }
    }

    /// Stream `id` is the one the next chunk is taken from: it has outgoing
    /// bytes left, and no tracked stream with a smaller identifier has.
    pub open spec fn is_next_sender(self, id: u32) -> bool {
        &&& self.contains(id)
        &&& self.stream(id).has_pending()
        &&& forall|other: u32|
            other < id && self.contains(other) ==> !(#[trigger] self.stream(other)).has_pending()
    }

    /// The taking of the next chunk, told by stream identifiers: a chunk is
    /// taken exactly when some tracked stream has outgoing bytes left; it
    /// comes from the stream with the least identifier among those, and
    /// only that stream changes.
    pub open spec fn chunk_comes_from_least(self) -> bool {
        &&& self.any_pending() <==> exists|id: u32|
            self.contains(id) && (#[trigger] self.stream(id)).has_pending()
        &&& self.any_pending() ==> {
            let id = self.next_chunk().0;
            let stream = self.stream(id);
            &&& self.is_next_sender(id)
            &&& self.next_chunk().1 == stream.next_chunk()
            &&& self.next_chunk().2 == (stream.next_chunk().len() == stream.pending().len())
            &&& differs_at(self, self.after_next_chunk(), id, stream.after_chunk())
        }
    }

    /// The next chunk of outgoing data: the identifier of the first stream
    /// that has bytes left, the bytes, and whether they end its body.
    pub open spec fn next_chunk(self) -> (u32, Seq<u8>, bool)
        recommends
            self.any_pending(),
    {
        let entry = self.entries[self.first_pending()];
        (entry.0, entry.1.next_chunk(), entry.1.next_chunk().len() == entry.1.pending().len())
    }
}

/// The views of a list of streams.
pub open spec fn streams_view(streams: Seq<Stream>) -> Seq<StreamView> {
    streams.map_values(|s: Stream| s@)
}

/// In a well-formed table an identifier occurs at one position only.
pub proof fn lemma_index_unique(v: SessionView, id: u32, i: int)
    requires
        v.wf(),
        0 <= i < v.entries.len(),
        v.entries[i].0 == id,
    ensures
        v.contains(id),
        v.index_of(id) == i,
        v.stream(id) == v.entries[i].1,
{
    let j = v.index_of(id);
    assert(0 <= j < v.entries.len() && v.entries[j].0 == id);
    if j < i {
        assert(v.entries[j].0 < v.entries[i].0);
    } else if i < j {
        assert(v.entries[i].0 < v.entries[j].0);
    }
}

/// Table `w` differs from table `v` at most in the stream under `id`, which
/// is `stream` in `w` if `v` tracks it: the same identifiers are tracked,
/// and every other stream has the contents it had.
pub open spec fn differs_at(v: SessionView, w: SessionView, id: u32, stream: StreamView) -> bool {
    &&& w.next_id == v.next_id
    &&& w.entries.len() == v.entries.len()
    &&& forall|other: u32| #[trigger] w.contains(other) <==> v.contains(other)
    &&& v.contains(id) ==> w.stream(id) == stream
    &&& forall|other: u32|
        other != id && v.contains(other) ==> #[trigger] w.stream(other) == v.stream(other)
}

/// Table `w` is table `v` with one more stream, `stream`, under the
/// identifier that was next in `v`; every other stream has the contents it
/// had.
pub open spec fn grows_by(v: SessionView, w: SessionView, stream: StreamView) -> bool {
    &&& w.next_id == v.next_id + 2
    &&& w.entries.len() == v.entries.len() + 1
    &&& !v.contains(v.next_id)
    &&& forall|other: u32| #[trigger] w.contains(other) <==> v.contains(other) || other == v.next_id
    &&& w.stream(v.next_id) == stream
    &&& forall|other: u32| v.contains(other) ==> #[trigger] w.stream(other) == v.stream(other)
}

/// Storing a new stream adds it under the next identifier and changes no
/// other stream.
pub proof fn lemma_inserted(v: SessionView, stream: StreamView)
    requires
        v.wf(),
        v.can_allocate(),
        stream.wf(),
    ensures
        v.inserted(stream).wf(),
        grows_by(v, v.inserted(stream), stream),
{
    let w = v.inserted(stream);
    let id = v.next_id;
    assert(w.entries[v.entries.len() as int] == (id, stream));
    assert forall|i: int| 0 <= i < v.entries.len() implies w.entries[i] == v.entries[i] by {}
    assert(w.wf());
    lemma_index_unique(w, id, v.entries.len() as int);
    if v.contains(id) {
        let i = v.index_of(id);
        assert(v.entries[i].0 < v.next_id);
    }
    assert forall|other: u32| #[trigger] w.contains(other) <==> v.contains(other) || other == id by {
        if v.contains(other) {
            let i = v.index_of(other);
            assert(w.entries[i].0 == other);
        }
        if w.contains(other) && other != id {
            let i = w.index_of(other);
            assert(v.entries[i].0 == other);
        }
    }
    assert forall|other: u32| v.contains(other) implies #[trigger] w.stream(other) == v.stream(
        other,
    ) by {
        let i = v.index_of(other);
        assert(w.entries[i] == v.entries[i]);
        lemma_index_unique(w, other, i);
    }
}

/// Replacing one stream changes that stream and nothing else: the same
/// identifiers stay tracked, and every other stream keeps its contents.
pub proof fn lemma_with_stream(v: SessionView, id: u32, stream: StreamView)
    requires
        v.wf(),
    ensures
        differs_at(v, v.with_stream(id, stream), id, stream),
        v.with_stream(id, stream).next_id == v.next_id,
        v.with_stream(id, stream).entries.len() == v.entries.len(),
        stream.wf() ==> v.with_stream(id, stream).wf(),
        forall|other: u32| v.with_stream(id, stream).contains(other) <==> v.contains(other),
        v.contains(id) ==> v.with_stream(id, stream).stream(id) == stream,
        forall|other: u32|
            other != id && v.contains(other) ==> v.with_stream(id, stream).stream(other)
                == v.stream(other),
{
    let w = v.with_stream(id, stream);
    if v.contains(id) {
        let i = v.index_of(id);
        assert(w.entries[i] == (id, stream));
        assert forall|a: int, b: int| 0 <= a < b < w.entries.len() implies (#[trigger] w.entries[a]).0
            < (#[trigger] w.entries[b]).0 by {
            assert(w.entries[a].0 == v.entries[a].0);
            assert(w.entries[b].0 == v.entries[b].0);
        }
        assert forall|a: int| 0 <= a < w.entries.len() implies (#[trigger] w.entries[a]).0 % 2 == 1
            && w.entries[a].0 < w.next_id && (stream.wf() ==> w.entries[a].1.wf()) by {
            assert(w.entries[a].0 == v.entries[a].0);
            if a != i {
                assert(w.entries[a] == v.entries[a]);
            }
        }
        assert forall|other: u32| w.contains(other) <==> v.contains(other) by {
            if v.contains(other) {
                let j = v.index_of(other);
                assert(w.entries[j].0 == other);
            }
            if w.contains(other) {
                let j = w.index_of(other);
                assert(v.entries[j].0 == other);
            }
        }
        assert forall|other: u32| v.contains(other) implies w.stream(other) == (if other == id {
            stream
        } else {
            v.stream(other)
        }) by {
            let j = v.index_of(other);
            assert(w.entries[j].0 == v.entries[j].0);
            let jw = w.index_of(other);
            assert(w.entries[jw].0 == other);
            assert(v.entries[jw].0 == other);
            if jw < j {
                assert(v.entries[jw].0 < v.entries[j].0);
            } else if j < jw {
                assert(v.entries[j].0 < v.entries[jw].0);
            }
            if other != id {
                assert(j != i);
            } else {
                if j < i {
                    assert(v.entries[j].0 < v.entries[i].0);
                } else if i < j {
                    assert(v.entries[i].0 < v.entries[j].0);
                }
            }
        }
    }
}

/// The first stream with outgoing bytes left is the one before which no
/// stream has any.
pub proof fn lemma_first_pending(v: SessionView, i: int)
    requires
        0 <= i < v.entries.len(),
        v.entries[i].1.has_pending(),
        forall|j: int| 0 <= j < i ==> !(#[trigger] v.entries[j]).1.has_pending(),
    ensures
        v.any_pending(),
        v.first_pending() == i,
{
    reveal(SessionView::first_pending);
    let c = v.first_pending();
    assert(0 <= c < v.entries.len() && v.entries[c].1.has_pending() && forall|j: int|
        0 <= j < c ==> !(#[trigger] v.entries[j]).1.has_pending());
    if c < i {
        assert(!v.entries[c].1.has_pending());
    } else if i < c {
        assert(!v.entries[i].1.has_pending());
    }
}

/// Where some stream has outgoing bytes left, there is a first such stream.
pub proof fn lemma_first_pending_exists(v: SessionView)
    requires
        v.any_pending(),
    ensures
        0 <= v.first_pending() < v.entries.len(),
        v.entries[v.first_pending()].1.has_pending(),
        forall|j: int| 0 <= j < v.first_pending() ==> !(#[trigger] v.entries[j]).1.has_pending(),
{
    let k = choose|k: int| 0 <= k < v.entries.len() && (#[trigger] v.entries[k]).1.has_pending();
    lemma_first_pending_from(v, 0, k);
}

/// Searching upwards from a position before which no stream has outgoing
/// bytes left finds the first stream that has.
proof fn lemma_first_pending_from(v: SessionView, from: int, k: int)
    requires
        0 <= from <= k < v.entries.len(),
        v.entries[k].1.has_pending(),
        forall|j: int| 0 <= j < from ==> !(#[trigger] v.entries[j]).1.has_pending(),
    ensures
        0 <= v.first_pending() < v.entries.len(),
        v.entries[v.first_pending()].1.has_pending(),
        forall|j: int| 0 <= j < v.first_pending() ==> !(#[trigger] v.entries[j]).1.has_pending(),
    decreases k - from,
{
    if v.entries[from].1.has_pending() {
        lemma_first_pending(v, from);
    } else {
        assert forall|j: int| 0 <= j < from + 1 implies !(#[trigger] v.entries[j]).1.has_pending() by {
            if j == from {
            }
        }
        lemma_first_pending_from(v, from + 1, k);
    }
}

/// In a well-formed table the stream that the next chunk is taken from is
/// the one with the least identifier among those with outgoing bytes left.
pub proof fn lemma_chunk_comes_from_least(v: SessionView)
    requires
        v.wf(),
    ensures
        v.chunk_comes_from_least(),
{
    if v.any_pending() {
        lemma_first_pending_exists(v);
        let i = v.first_pending();
        let id = v.entries[i].0;
        lemma_index_unique(v, id, i);
        assert(v.stream(id).has_pending());
        assert forall|other: u32| other < id && v.contains(other) implies !(#[trigger] v.stream(
            other,
        )).has_pending() by {
            let j = v.index_of(other);
            if j >= i {
                if j > i {
                    assert(v.entries[i].0 < v.entries[j].0);
                }
            }
        }
        lemma_with_stream(v, id, v.stream(id).after_chunk());
    }
    if exists|id: u32| v.contains(id) && (#[trigger] v.stream(id)).has_pending() {
        let id = choose|id: u32| v.contains(id) && (#[trigger] v.stream(id)).has_pending();
        let j = v.index_of(id);
        assert(v.entries[j].1.has_pending());
    }
}

/// The identifiers and stream contents of a list of entries.
pub open spec fn entries_view(entries: Seq<StreamEntry>) -> Seq<(u32, StreamView)> {
    entries.map_values(|e: StreamEntry| (e.id, e.stream@))
}

impl View for SessionState {
    type V = SessionView;

    closed spec fn view(&self) -> SessionView {
        SessionView {
            entries: entries_view(self.entries@),
            next_id: self.next_id,
        }
    }
}

impl SessionState {
    /// A table without streams.
    pub fn new() -> (state: SessionState)
        ensures
            state@ == SessionView::empty(),
            state@.wf(),
    {
        let state = SessionState { entries: Vec::new(), next_id: FIRST_STREAM_ID };
        proof {
            assert(state@.entries =~= Seq::empty());
        }
        state
    }

    /// Whether another stream identifier can be allocated.
    pub fn can_allocate(&self) -> (b: bool)
        ensures
            b == self@.can_allocate(),
    {
        self.next_id <= u32::MAX - 2
    }

    /// The number of tracked streams.
    pub fn len(&self) -> (n: usize)
        ensures
            n == self@.entries.len(),
    {
        self.entries.len()
    }

    /// Stores `stream` under the next client identifier and returns it.
    pub fn insert_outgoing(&mut self, stream: Stream) -> (id: u32)
        requires
            old(self)@.wf(),
            old(self)@.can_allocate(),
            stream@.wf(),
        ensures
            id == old(self)@.next_id,
            final(self)@ == old(self)@.inserted(stream@),
            final(self)@.wf(),
            grows_by(old(self)@, final(self)@, stream@),
    {
        let id: u32 = self.next_id;
        self.entries.push(StreamEntry { id, stream });
        self.next_id = id + 2;
        proof {
            assert(self@.entries =~= old(self)@.entries.push((id, stream@)));
            lemma_inserted(old(self)@, stream@);
        }
        id
    }

    /// The position of the stream with identifier `id`, if it is tracked.
    fn position(&self, id: u32) -> (res: Option<usize>)
        requires
            self@.wf(),
        ensures
            res is Some <==> self@.contains(id),
            res is Some ==> res.unwrap() == self@.index_of(id) && res.unwrap() < self.entries.len(),
    {
        let mut i: usize = 0;
        while i < self.entries.len()
            invariant
                i <= self.entries.len(),
                self@.wf(),
                forall|j: int| 0 <= j < i ==> (#[trigger] self@.entries[j]).0 != id,
            decreases self.entries.len() - i,
        {
            if self.entries[i].id == id {
                proof {
                    lemma_index_unique(self@, id, i as int);
                }
                return Some(i);
            }
            i = i + 1;
        }
        None
    }

    /// The stream with identifier `id`, if it is tracked.
    pub fn get_stream_ref(&self, id: u32) -> (res: Option<&Stream>)
        requires
            self@.wf(),
        ensures
            res is Some <==> self@.contains(id),
            res is Some ==> res.unwrap()@ == self@.stream(id),
    {
        match self.position(id) {
            Some(i) => Some(&self.entries[i].stream),
            None => None,
        }
    }

    /// The stream with identifier `id`, if it is tracked, for changing it in
    /// place. What the caller leaves in it is what the table then holds.
    pub fn get_stream_mut(&mut self, id: u32) -> (res: Option<&mut Stream>)
        requires
            old(self)@.wf(),
        ensures
            res is Some <==> old(self)@.contains(id),
            match res {
                Some(s) => s@ == old(self)@.stream(id) && final(self)@ == old(self)@.with_stream(
                    id,
                    final(s)@,
                ),
                None => final(self)@ == old(self)@,
            },
    {
        match self.position(id) {
            Some(i) => {
                proof {
                    let before = self.entries@;
                    let v = self@;
                    assert forall|e: StreamEntry| e.id == id implies #[trigger] entries_view(
                        before.update(i as int, e),
                    ) == v.entries.update(i as int, (id, e.stream@)) by {
                        assert(entries_view(before.update(i as int, e)) =~= v.entries.update(
                            i as int,
                            (id, e.stream@),
                        ));
                    }
                }
                Some(&mut self.entries[i].stream)
            },
            None => None,
        }
    }

    /// The identifiers of the tracked streams with their contents, in
    /// ascending order of identifier.
    pub fn iter(&self) -> (res: Vec<(u32, &Stream)>)
        ensures
            res@.len() == self@.entries.len(),
            forall|i: int|
                0 <= i < res@.len() ==> (#[trigger] res@[i]).0 == self@.entries[i].0 && res@[i].1@
                    == self@.entries[i].1,
    {
        let mut res: Vec<(u32, &Stream)> = Vec::new();
        let mut i: usize = 0;
        while i < self.entries.len()
            invariant
                i <= self.entries.len(),
                res@.len() == i,
                forall|j: int|
                    0 <= j < i ==> (#[trigger] res@[j]).0 == self@.entries[j].0 && res@[j].1@
                        == self@.entries[j].1,
            decreases self.entries.len() - i,
        {
            let entry = &self.entries[i];
            res.push((entry.id, &entry.stream));
            i = i + 1;
        }
        res
    }

    /// Removes every closed stream from the table and returns them, in
    /// ascending order of identifier. The other streams stay as they are.
    pub fn get_closed(&mut self) -> (closed: Vec<Stream>)
        requires
            old(self)@.wf(),
        ensures
            streams_view(closed@) == old(self)@.closed_streams(),
            final(self)@ == old(self)@.without_closed(),
            final(self)@.wf(),
    {
        let mut closed: Vec<Stream> = Vec::new();
        let mut i: usize = 0;
        let ghost orig = self@.entries;
        let ghost mut k: int = 0;
        let ghost mut taken: Seq<(u32, StreamView)> = Seq::empty();
        proof {
            broadcast use Seq::lemma_filter_push;

            assert(orig.take(0) =~= Seq::empty());
            assert(Seq::<(u32, StreamView)>::empty().filter(entry_open()) =~= Seq::empty()) by {
                reveal(Seq::filter);
            }
            assert(Seq::<(u32, StreamView)>::empty().filter(entry_closed()) =~= Seq::empty()) by {
                reveal(Seq::filter);
            }
            assert(self@.entries.take(0) =~= Seq::empty());
            assert(self@.entries.skip(0) =~= orig.skip(0));
            assert(streams_view(closed@) =~= taken.map_values(|e: (u32, StreamView)| e.1));
        }
        while i < self.entries.len()
            invariant
                0 <= k <= orig.len(),
                i <= self.entries.len(),
                self.entries.len() - i == orig.len() - k,
                self@.wf(),
                self@.next_id == old(self)@.next_id,
                self@.entries.take(i as int) == orig.take(k).filter(entry_open()),
                self@.entries.skip(i as int) == orig.skip(k),
                taken == orig.take(k).filter(entry_closed()),
                streams_view(closed@) == taken.map_values(|e: (u32, StreamView)| e.1),
            decreases self.entries.len() - i,
        {
            broadcast use Seq::lemma_filter_push;

            let ghost cur = self@.entries;
            proof {
                assert(cur.skip(i as int)[0] == orig.skip(k)[0]);
                assert(cur[i as int] == orig[k]);
                assert(orig.take(k + 1) =~= orig.take(k).push(orig[k]));
            }
            if self.entries[i].stream.is_closed() {
                let ghost before = self.entries@;
                let ghost closed_before = closed@;
                let ghost taken_before = taken;
                let entry = self.entries.remove(i);
                proof {
                    assert(entry == before[i as int]);
                    assert(cur[i as int] == (entry.id, entry.stream@));
                    let now = self@.entries;
                    assert(now =~= cur.remove(i as int));
                    assert(now.take(i as int) =~= cur.take(i as int));
                    assert forall|j: int| 0 <= j < now.len() - i implies now.skip(i as int)[j]
                        == orig.skip(k + 1)[j] by {
                        assert(cur.skip(i as int)[j + 1] == orig.skip(k)[j + 1]);
                    }
                    assert(now.skip(i as int) =~= orig.skip(k + 1));
                    assert forall|a: int, b: int| 0 <= a < b < now.len() implies (#[trigger] now[a]).0
                        < (#[trigger] now[b]).0 by {
                        let a0 = if a < i { a } else { a + 1 };
                        let b0 = if b < i { b } else { b + 1 };
                        assert(now[a] == cur[a0] && now[b] == cur[b0]);
                    }
                    assert forall|a: int| 0 <= a < now.len() implies (#[trigger] now[a]).0 % 2 == 1
                        && now[a].0 < self@.next_id && now[a].1.wf() by {
                        let a0 = if a < i { a } else { a + 1 };
                        assert(now[a] == cur[a0]);
                    }
                    taken = taken.push(orig[k]);
                }
                closed.push(entry.stream);
                proof {
                    assert(closed@ == closed_before.push(entry.stream));
                    assert forall|j: int| 0 <= j < closed@.len() implies streams_view(closed@)[j]
                        == taken.map_values(|e: (u32, StreamView)| e.1)[j] by {
                        let firsts = taken_before.map_values(|e: (u32, StreamView)| e.1);
                        assert(streams_view(closed_before).len() == firsts.len());
                        if j < closed_before.len() {
                            assert(streams_view(closed_before)[j] == firsts[j]);
                            assert(taken[j] == taken_before[j]);
                        }
                    }
                    assert(streams_view(closed@) =~= taken.map_values(|e: (u32, StreamView)| e.1));
                    k = k + 1;
                }
            } else {
                i = i + 1;
                proof {
                    assert(cur.take(i as int) =~= cur.take(i - 1).push(cur[i - 1]));
                    assert forall|j: int| 0 <= j < cur.len() - i implies cur.skip(i as int)[j]
                        == orig.skip(k + 1)[j] by {
                        assert(cur.skip(i - 1)[j + 1] == orig.skip(k)[j + 1]);
                    }
                    assert(cur.skip(i as int) =~= orig.skip(k + 1));
                    k = k + 1;
                }
            }
        }
        proof {
            assert(orig.take(k) =~= orig);
            assert(self@.entries.take(i as int) =~= self@.entries);
        }
        closed
    }

    /// Takes the next chunk of outgoing data from the first stream, in
    /// ascending order of identifier, that has bytes left to send. Gives the
    /// stream's identifier, the chunk and whether it ends the stream's body.
    pub fn take_next_chunk(&mut self) -> (res: Option<(u32, Vec<u8>, bool)>)
        requires
            old(self)@.wf(),
        ensures
            res is Some <==> old(self)@.any_pending(),
            final(self)@ == old(self)@.after_next_chunk(),
            final(self)@.wf(),
            res is Some ==> (res.unwrap().0, res.unwrap().1@, res.unwrap().2) == old(
                self,
            )@.next_chunk(),
            old(self)@.chunk_comes_from_least(),
    {
        proof {
            lemma_chunk_comes_from_least(self@);
        }
        let mut i: usize = 0;
        while i < self.entries.len()
            invariant
                i <= self.entries.len(),
                *self == *old(self),
                old(self)@.chunk_comes_from_least(),
                self@.wf(),
                forall|j: int| 0 <= j < i ==> !(#[trigger] self@.entries[j]).1.has_pending(),
            decreases self.entries.len() - i,
        {
            if self.entries[i].stream.has_pending() {
                let id: u32 = self.entries[i].id;
                proof {
                    lemma_first_pending(self@, i as int);
                    lemma_index_unique(self@, id, i as int);
                }
                let ghost before = self.entries@;
                let ghost v = self@;
                let (chunk, last) = self.entries[i].stream.take_data_chunk();
                proof {
                    let e = self.entries@[i as int];
                    assert(self.entries@ =~= before.update(i as int, e));
                    assert(self@.entries =~= v.entries.update(i as int, (id, e.stream@)));
                }
                return Some((id, chunk, last));
            }
            i = i + 1;
        }
        None
    }
}

} // verus!
