//! The streaming part splitter: repackages an irregularly-chunked byte
//! stream into size-conforming, consecutively numbered parts, buffering at
//! most one part's worth of bytes at a time.

use vstd::prelude::*;
use crate::part::{Part, PartSizeRange};

verus! {

/// Concatenation of a sequence of byte chunks, in order.
pub open spec fn concat_chunks(chunks: Seq<Seq<u8>>) -> Seq<u8>
    decreases chunks.len(),
{
    if chunks.len() == 0 {
        Seq::empty()
    } else {
        concat_chunks(chunks.drop_last()) + chunks.last()
    }
}

/// Concatenation of the byte buffers of the input stream, in arrival order.
pub open spec fn payload_of(bufs: Seq<Vec<u8>>) -> Seq<u8>
    decreases bufs.len(),
{
    if bufs.len() == 0 {
        Seq::empty()
    } else {
        payload_of(bufs.drop_last()) + bufs.last()@
    }
}

/// The byte content of each part, in order.
pub open spec fn chunk_views(parts: Seq<Part>) -> Seq<Seq<u8>> {
    parts.map_values(|p: Part| p.bytes@)
}

/// Sum of the recorded content lengths of the parts.
pub open spec fn total_content_length(parts: Seq<Part>) -> nat
    decreases parts.len(),
{
    if parts.len() == 0 {
        0
    } else {
        total_content_length(parts.drop_last()) + parts.last().content_length as nat
    }
}

/// What the splitter promises of a complete run over a payload: at least one
/// part; all parts well formed; part numbers exactly 1..=n in order; every
/// part but the last sized inside the range and the last never oversized (and
/// empty only if it is the sole part of an empty payload); and the parts'
/// bytes, concatenated in part-number order, reproducing the payload exactly.
pub open spec fn is_valid_split(parts: Seq<Part>, payload: Seq<u8>, range: PartSizeRange) -> bool {
    &&& parts.len() >= 1
    &&& forall|i: int| 0 <= i < parts.len() ==> (#[trigger] parts[i]).wf()
    &&& forall|i: int| 0 <= i < parts.len() ==> (#[trigger] parts[i]).part_number == i + 1
    &&& forall|i: int|
        0 <= i < parts.len() - 1 ==> range.min <= (#[trigger] parts[i]).bytes@.len() <= range.max
    &&& parts.last().bytes@.len() <= range.max
    &&& (parts.last().bytes@.len() == 0 ==> parts.len() == 1 && payload.len() == 0)
    &&& concat_chunks(chunk_views(parts)) == payload
}

/// The parts handed back by one call of `Splitter::push`: consecutive
/// numbers starting at `first`, each well formed and exactly `max` bytes.
pub open spec fn full_parts_from(parts: Seq<Part>, first: int, max: usize) -> bool {
    forall|i: int| 0 <= i < parts.len() ==> {
        &&& (#[trigger] parts[i]).wf()
        &&& parts[i].part_number == first + i
        &&& parts[i].bytes@.len() == max
    }
}

/// Appending one chunk extends the concatenation by that chunk.
proof fn lemma_concat_push(chunks: Seq<Seq<u8>>, c: Seq<u8>)
    ensures
        concat_chunks(chunks.push(c)) == concat_chunks(chunks) + c,
{
    assert(chunks.push(c).drop_last() =~= chunks);
    assert(chunks.push(c).last() == c);
}

/// A concatenation of nonempty chunks has at least one byte per chunk.
proof fn lemma_concat_count_le_len(chunks: Seq<Seq<u8>>)
    requires
        forall|i: int| 0 <= i < chunks.len() ==> (#[trigger] chunks[i]).len() >= 1,
    ensures
        chunks.len() <= concat_chunks(chunks).len(),
    decreases chunks.len(),
{
    if chunks.len() > 0 {
        lemma_concat_count_le_len(chunks.drop_last());
    }
}

/// The concatenation is exactly as long as the parts' recorded lengths say.
proof fn lemma_concat_chunk_views_len(parts: Seq<Part>)
    requires
        forall|i: int| 0 <= i < parts.len() ==> (#[trigger] parts[i]).wf(),
    ensures
        concat_chunks(chunk_views(parts)).len() == total_content_length(parts),
    decreases parts.len(),
{
    if parts.len() > 0 {
        lemma_concat_chunk_views_len(parts.drop_last());
        assert(chunk_views(parts).drop_last() =~= chunk_views(parts.drop_last()));
        assert(chunk_views(parts).last() == parts.last().bytes@);
    } else {
        assert(chunk_views(parts) =~= Seq::<Seq<u8>>::empty());
    }
}

/// Law: a valid split accounts for every input byte: the parts' recorded
/// content lengths sum to exactly the payload's total length.
pub proof fn lemma_split_preserves_length(parts: Seq<Part>, payload: Seq<u8>, range: PartSizeRange)
    requires
        is_valid_split(parts, payload, range),
    ensures
        total_content_length(parts) == payload.len(),
{
    lemma_concat_chunk_views_len(parts);
}

/// Peeling the first buffer off the input stream peels its bytes off the
/// front of the payload.
proof fn lemma_payload_first(bufs: Seq<Vec<u8>>)
    requires
        bufs.len() > 0,
    ensures
        payload_of(bufs) == bufs[0]@ + payload_of(bufs.drop_first()),
    decreases bufs.len(),
{
    if bufs.len() == 1 {
        assert(bufs.drop_last() =~= Seq::<Vec<u8>>::empty());
        assert(bufs.drop_first() =~= Seq::<Vec<u8>>::empty());
        assert(payload_of(bufs) =~= bufs[0]@ + payload_of(bufs.drop_first()));
    } else {
        lemma_payload_first(bufs.drop_last());
        assert(bufs.drop_last()[0] == bufs[0]);
        assert(bufs.drop_last().drop_first() =~= bufs.drop_first().drop_last());
        assert(bufs.drop_first().last() == bufs.last());
        assert(payload_of(bufs) == (bufs[0]@ + payload_of(bufs.drop_first().drop_last()))
            + bufs.last()@);
        assert(payload_of(bufs) =~= bufs[0]@ + (payload_of(bufs.drop_first().drop_last())
            + bufs.last()@));
    }
}

/// The incremental splitter.  Bytes go in through `push` in buffers of any
/// size; full parts of exactly `max` bytes come out as soon as they are
/// available, and `finish` flushes whatever remains as the final part.
pub struct Splitter {
    range: PartSizeRange,
    buf: Vec<u8>,
    next_part_number: usize,
    finished: bool,
    pushed: Ghost<Seq<u8>>,
    chunks: Ghost<Seq<Seq<u8>>>,
}

impl Splitter {
    /// The size range this splitter was configured with.
    pub closed spec fn range_spec(self) -> PartSizeRange {
        self.range
    }

    /// All payload bytes received so far, in order.
    pub closed spec fn pushed_bytes(self) -> Seq<u8> {
        self.pushed@
    }

    /// The byte content of every part emitted so far, in emission order.
    pub closed spec fn emitted_chunks(self) -> Seq<Seq<u8>> {
        self.chunks@
    }

    /// Bytes received but not yet emitted in any part.
    pub closed spec fn pending(self) -> Seq<u8> {
        self.buf@
    }

    /// Whether `finish` has been called.
    pub closed spec fn is_finished(self) -> bool {
        self.finished
    }

    /// The number the next emitted part will carry.
    pub closed spec fn next_number(self) -> usize {
        self.next_part_number
    }

    /// The splitter's invariant: emitted bytes plus pending bytes are exactly
    /// the bytes received; while the stream is open every emitted part is
    /// exactly `max` bytes and fewer than `max` bytes are pending; once
    /// finished, nothing is pending, at least one part was emitted, every
    /// part but the last is exactly `max` bytes and the last is never more.
    pub open spec fn wf(self) -> bool {
        &&& self.range_spec().wf()
        &&& concat_chunks(self.emitted_chunks()) + self.pending() == self.pushed_bytes()
        &&& if !self.is_finished() {
            &&& self.pending().len() < self.range_spec().max
            &&& self.next_number() == self.emitted_chunks().len() + 1
            &&& forall|i: int|
                0 <= i < self.emitted_chunks().len() ==> (#[trigger] self.emitted_chunks()[i]).len()
                    == self.range_spec().max
        } else {
            &&& self.pending().len() == 0
            &&& self.emitted_chunks().len() >= 1
            &&& forall|i: int|
                0 <= i < self.emitted_chunks().len() - 1 ==> (
                #[trigger] self.emitted_chunks()[i]).len() == self.range_spec().max
            &&& self.emitted_chunks().last().len() <= self.range_spec().max
            &&& (self.emitted_chunks().last().len() == 0 ==> self.emitted_chunks().len() == 1)
        }
    }

    /// A fresh splitter for the given range: nothing received, nothing
    /// emitted, the first part will be number 1.
    pub fn new(range: PartSizeRange) -> (s: Splitter)
        requires
            range.wf(),
        ensures
            s.wf(),
            !s.is_finished(),
            s.range_spec() == range,
            s.pushed_bytes() == Seq::<u8>::empty(),
            s.emitted_chunks() == Seq::<Seq<u8>>::empty(),
            s.next_number() == 1,
    {
        Splitter {
            range,
            buf: Vec::new(),
            next_part_number: 1,
            finished: false,
            pushed: Ghost(Seq::empty()),
            chunks: Ghost(Seq::empty()),
        }
    }

    /// Feeds one input buffer in.  Every part that becomes full is emitted at
    /// once: the returned parts are well formed, consecutively numbered
    /// continuing from where the splitter stood, and exactly `max` bytes
    /// each; what they do not cover stays pending.
    pub fn push(&mut self, data: Vec<u8>) -> (parts: Vec<Part>)
        requires
            old(self).wf(),
            !old(self).is_finished(),
            old(self).pushed_bytes().len() + data@.len() < usize::MAX,
        ensures
            final(self).wf(),
            !final(self).is_finished(),
            final(self).range_spec() == old(self).range_spec(),
            final(self).pushed_bytes() == old(self).pushed_bytes() + data@,
            final(self).emitted_chunks() == old(self).emitted_chunks() + chunk_views(parts@),
            final(self).next_number() == old(self).next_number() + parts@.len(),
            full_parts_from(parts@, old(self).next_number() as int, old(self).range_spec().max),
    {
        let ghost data_view = data@;
        let ghost chunks0 = self.chunks@;
        let ghost pushed0 = self.pushed@;
        let ghost next0 = self.next_part_number;
        let mut data = data;
        self.pushed = Ghost(self.pushed@ + data_view);
        self.buf.append(&mut data);
        let mut parts: Vec<Part> = Vec::new();
        proof {
            assert(chunk_views(parts@) =~= Seq::<Seq<u8>>::empty());
            assert(concat_chunks(self.chunks@) + self.buf@ =~= self.pushed@);
            assert(self.chunks@ =~= chunks0 + chunk_views(parts@));
        }
        while self.buf.len() >= self.range.max
            invariant
                self.range.wf(),
                !self.finished,
                concat_chunks(self.chunks@) + self.buf@ == self.pushed@,
                self.next_part_number == self.chunks@.len() + 1,
                forall|i: int|
                    0 <= i < self.chunks@.len() ==> (#[trigger] self.chunks@[i]).len()
                        == self.range.max,
                self.pushed@.len() < usize::MAX,
                self.range == old(self).range_spec(),
                self.pushed@ == pushed0 + data_view,
                self.chunks@ == chunks0 + chunk_views(parts@),
                parts@.len() == self.chunks@.len() - chunks0.len(),
                next0 == chunks0.len() + 1,
                full_parts_from(parts@, next0 as int, self.range.max),
            decreases self.buf.len(),
        {
            let ghost chunks_before = self.chunks@;
            let ghost buf_before = self.buf@;
            let mut tail = self.buf.split_off(self.range.max);
            core::mem::swap(&mut self.buf, &mut tail);
            proof {
                assert(tail@ + self.buf@ =~= buf_before);
            }
            // tail now holds exactly the first `max` bytes; the rest pends.
            let content_digest = crate::digest::compute_md5(&tail);
            let number = self.next_part_number;
            proof {
                assert(forall|i: int|
                    0 <= i < self.chunks@.len() ==> (#[trigger] self.chunks@[i]).len() >= 1);
                lemma_concat_count_le_len(self.chunks@);
            }
            self.next_part_number = number + 1;
            let content_length = tail.len();
            let part = Part { part_number: number, content_length, content_digest, bytes: tail };
            self.chunks = Ghost(self.chunks@.push(part.bytes@));
            proof {
                lemma_concat_push(chunks_before, part.bytes@);
                assert(concat_chunks(self.chunks@) + self.buf@ =~= (concat_chunks(chunks_before)
                    + part.bytes@) + self.buf@);
                assert((concat_chunks(chunks_before) + part.bytes@) + self.buf@
                    =~= concat_chunks(chunks_before) + buf_before);
            }
            let ghost parts_before = parts@;
            parts.push(part);
            proof {
                assert(chunk_views(parts@) =~= chunk_views(parts_before).push(part.bytes@));
                assert(self.chunks@ =~= chunks0 + chunk_views(parts@));
            }
        }
        parts
    }

    /// Ends the stream.  Whatever is pending becomes the final part; if
    /// nothing is pending but no part was ever emitted (an empty payload),
    /// one empty part is emitted, so that every upload has at least one
    /// part; otherwise nothing more is emitted.
    pub fn finish(&mut self) -> (last: Option<Part>)
        requires
            old(self).wf(),
            !old(self).is_finished(),
        ensures
            final(self).wf(),
            final(self).is_finished(),
            final(self).range_spec() == old(self).range_spec(),
            final(self).pushed_bytes() == old(self).pushed_bytes(),
            concat_chunks(final(self).emitted_chunks()) == old(self).pushed_bytes(),
            (last is Some) <==> (old(self).pending().len() > 0 || old(self).emitted_chunks().len()
                == 0),
            last matches Some(p) ==> {
                &&& p.wf()
                &&& p.part_number == old(self).next_number()
                &&& p.bytes@ == old(self).pending()
                &&& final(self).emitted_chunks() == old(self).emitted_chunks().push(
                    old(self).pending(),
                )
            },
            last is None ==> final(self).emitted_chunks() == old(self).emitted_chunks(),
    {
        let ghost chunks0 = self.chunks@;
        self.finished = true;
        if self.buf.len() > 0 || self.next_part_number == 1 {
            let mut tail: Vec<u8> = Vec::new();
            core::mem::swap(&mut self.buf, &mut tail);
            let content_digest = crate::digest::compute_md5(&tail);
            let content_length = tail.len();
            let part = Part {
                part_number: self.next_part_number,
                content_length,
                content_digest,
                bytes: tail,
            };
            self.chunks = Ghost(self.chunks@.push(part.bytes@));
            proof {
                lemma_concat_push(chunks0, part.bytes@);
                assert(concat_chunks(self.chunks@) + self.buf@ =~= concat_chunks(self.chunks@));
            }
            Some(part)
        } else {
            proof {
                assert(concat_chunks(self.chunks@) + self.buf@ =~= concat_chunks(self.chunks@));
            }
            None
        }
    }
}

/// Law: the splitter's memory stays bounded: between calls, while the
/// stream is open, it holds strictly less than one full part's worth of
/// bytes beyond what an in-flight input buffer contributes.
pub proof fn lemma_bounded_buffering(s: Splitter)
    requires
        s.wf(),
        !s.is_finished(),
    ensures
        s.pending().len() < s.range_spec().max,
{
}

/// Splits an already-gathered payload in one call: feeds every buffer
/// through a fresh splitter and flushes it, so the returned parts are a
/// valid split of the whole payload.
pub fn split_all(bufs: Vec<Vec<u8>>, range: PartSizeRange) -> (parts: Vec<Part>)
    requires
        range.wf(),
        payload_of(bufs@).len() < usize::MAX,
    ensures
        is_valid_split(parts@, payload_of(bufs@), range),
        forall|i: int|
            0 <= i < parts@.len() - 1 ==> (#[trigger] parts@[i]).bytes@.len() == range.max,
{
    let ghost bufs0 = bufs@;
    let mut splitter = Splitter::new(range);
    let mut parts: Vec<Part> = Vec::new();
    let mut rest = bufs;
    proof {
        assert(payload_of(bufs0) =~= splitter.pushed_bytes() + payload_of(rest@));
    }
    while rest.len() > 0
        invariant
            splitter.wf(),
            !splitter.is_finished(),
            splitter.range_spec() == range,
            range.wf(),
            payload_of(bufs0).len() < usize::MAX,
            splitter.pushed_bytes() + payload_of(rest@) == payload_of(bufs0),
            splitter.emitted_chunks() == chunk_views(parts@),
            splitter.next_number() == parts@.len() + 1,
            full_parts_from(parts@, 1, range.max),
        decreases rest.len(),
    {
        let ghost rest0 = rest@;
        let buf = rest.remove(0);
        proof {
            lemma_payload_first(rest0);
            assert(rest@ =~= rest0.drop_first());
            assert(splitter.pushed_bytes().len() + buf@.len() <= payload_of(bufs0).len());
        }
        let ghost parts_before = parts@;
        let ghost chunks_before = splitter.emitted_chunks();
        let mut emitted = splitter.push(buf);
        let ghost emitted_view = emitted@;
        parts.append(&mut emitted);
        proof {
            assert(parts@ =~= parts_before + emitted_view);
            assert(chunk_views(parts@) =~= chunk_views(parts_before) + chunk_views(emitted_view));
        }
    }
    proof {
        assert(payload_of(rest@) =~= Seq::<u8>::empty());
        assert(splitter.pushed_bytes() =~= payload_of(bufs0));
    }
    let ghost chunks_final = splitter.emitted_chunks();
    let last = splitter.finish();
    match last {
        Some(p) => {
            parts.push(p);
        },
        None => {},
    }
    proof {
        assert(chunk_views(parts@) =~= splitter.emitted_chunks());
        assert(concat_chunks(chunk_views(parts@)) == payload_of(bufs0));
        if splitter.emitted_chunks().last().len() == 0 {
            assert(parts@.len() == 1);
            lemma_concat_push(Seq::<Seq<u8>>::empty(), splitter.emitted_chunks().last());
        }
    }
    parts
}

} // verus!
