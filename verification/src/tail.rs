//! Reading a growing transcript: which lines of it are complete, how far it has
//! been read, and when it has to be read again from the start.

use vstd::prelude::*;
use vstd::utf8::*;

use crate::foreign::{lossy_text, read_lossy, sha256, sha256_digest};
use crate::text::{hex, hex_text, same_text};

verus! {

/// A complete line of a transcript.
#[derive(Debug, PartialEq, Eq)]
pub struct CompleteNativeLine {
    pub line_seq: i64,
    pub start_offset: i64,
    pub end_offset: i64,
    pub raw: String,
}

/// The complete lines of a stretch of a transcript.
#[derive(Debug, PartialEq, Eq)]
pub struct TailChunk {
    pub lines: Vec<CompleteNativeLine>,
    /// Where the next read starts: behind the last complete line.
    pub cursor_offset: i64,
    pub next_line_seq: i64,
    /// How much of an incomplete line was seen behind it.
    pub trailing_bytes: usize,
    pub last_line_offset: Option<i64>,
    pub last_line_hash: Option<String>,
}

/// Where the first line break at `i` or later is, or the end.
pub open spec fn line_break(bytes: Seq<u8>, i: int) -> int
    decreases bytes.len() - i,
{
    if i < 0 || i >= bytes.len() {
        bytes.len() as int
    } else if bytes[i] == 10 {
        i
    } else {
        line_break(bytes, i + 1)
    }
}

pub proof fn lemma_line_break(bytes: Seq<u8>, i: int)
    requires
        0 <= i <= bytes.len(),
    ensures
        i <= line_break(bytes, i) <= bytes.len(),
        forall|j: int| i <= j < line_break(bytes, i) ==> bytes[j] != 10,
        line_break(bytes, i) < bytes.len() ==> bytes[line_break(bytes, i)] == 10,
    decreases bytes.len() - i,
{
    if i < bytes.len() && bytes[i] != 10 {
        lemma_line_break(bytes, i + 1);
    }
}

/// The bounds of the complete lines that start at `i` or later, each with its
/// line break.
pub open spec fn line_spans(bytes: Seq<u8>, i: int) -> Seq<(int, int)>
    decreases bytes.len() - i + 1,
{
    if i < 0 || i >= bytes.len() || line_break(bytes, i) >= bytes.len() {
        Seq::empty()
    } else {
        let e = line_break(bytes, i) + 1;
        proof {
            lemma_line_break(bytes, i);
        }
        seq![(i, e)] + line_spans(bytes, e)
    }
}

/// Where the last of `spans` ends; `from` where there is none.
pub open spec fn spans_end(spans: Seq<(int, int)>, from: int) -> int {
    if spans.len() == 0 {
        from
    } else {
        spans.last().1
    }
}

/// What a line says: its bytes without the line break, be it one character or
/// two.
pub open spec fn line_content(line: Seq<u8>) -> Seq<u8> {
    let body = line.drop_last();
    if body.len() > 0 && body.last() == 13 {
        body.drop_last()
    } else {
        body
    }
}

/// Whether `text` is what `content` reads as. Content that is UTF-8 is read as
/// what it encodes.
pub open spec fn reads_as(content: Seq<u8>, text: Seq<char>) -> bool {
    &&& text == lossy_text(content)
    &&& valid_utf8(content) ==> encode_utf8(text) == content
}

/// The digest that a line is recognised by.
pub open spec fn line_hash(line: Seq<u8>) -> Seq<char> {
    hex(sha256_digest(line))
}

/// Whether `line` is the line with the bounds `span`, number `n` of a stretch
/// that starts at index `from`, which is offset `base` and line number `first`
/// of the transcript.
pub open spec fn is_line(
    bytes: Seq<u8>,
    span: (int, int),
    n: int,
    from: int,
    base: int,
    first: int,
    line: CompleteNativeLine,
) -> bool {
    &&& line.line_seq == first + n
    &&& line.start_offset == base + span.0 - from
    &&& line.end_offset == base + span.1 - from
    &&& reads_as(line_content(bytes.subrange(span.0, span.1)), line.raw@)
}

/// Whether `chunk` holds the lines with the bounds `spans` of a stretch that
/// starts at index `from`, which is offset `base` and line number `first` of the
/// transcript.
pub open spec fn holds_lines(
    bytes: Seq<u8>,
    spans: Seq<(int, int)>,
    from: int,
    base: int,
    first: int,
    chunk: TailChunk,
) -> bool {
    &&& chunk.lines@.len() == spans.len()
    &&& forall|n: int|
        0 <= n < spans.len() ==> is_line(
            bytes,
            spans[n],
            n,
            from,
            base,
            first,
            #[trigger] chunk.lines@[n],
        )
    &&& chunk.cursor_offset == base + spans_end(spans, from) - from
    &&& chunk.next_line_seq == first + spans.len()
    &&& if spans.len() == 0 {
        chunk.last_line_offset is None && chunk.last_line_hash is None
    } else {
        &&& chunk.last_line_offset is Some
        &&& chunk.last_line_offset->0 == base + spans.last().0 - from
        &&& chunk.last_line_hash is Some
        &&& chunk.last_line_hash->0@ == line_hash(
            bytes.subrange(spans.last().0, spans.last().1),
        )
    }
}

pub proof fn lemma_line_spans(bytes: Seq<u8>, i: int)
    requires
        0 <= i <= bytes.len(),
    ensures
        ({
            let s = line_spans(bytes, i);
            &&& forall|n: int|
                0 <= n < s.len() ==> i <= (#[trigger] s[n]).0 < s[n].1 <= bytes.len()
            &&& s.len() > 0 ==> s[0].0 == i
            &&& i <= spans_end(s, i) <= bytes.len()
            &&& forall|j: int| spans_end(s, i) <= j < bytes.len() ==> bytes[j] != 10
            &&& s.len() <= spans_end(s, i) - i
        }),
    decreases bytes.len() - i + 1,
{
    lemma_line_break(bytes, i);
    if i < bytes.len() && line_break(bytes, i) < bytes.len() {
        let e = line_break(bytes, i) + 1;
        lemma_line_spans(bytes, e);
        let rest = line_spans(bytes, e);
        let s = line_spans(bytes, i);
        assert(s == seq![(i, e)] + rest);
        assert forall|n: int| 0 <= n < s.len() implies i <= (#[trigger] s[n]).0 < s[n].1
            <= bytes.len() by {
            if n > 0 {
                assert(s[n] == rest[n - 1]);
            }
        }
        if rest.len() > 0 {
            assert(s.last() == rest.last());
        }
    }
}

/// The digest that a line is recognised by.
pub fn hash_bytes(bytes: &[u8]) -> (out: String)
    ensures
        out@ == line_hash(bytes@),
        out@.len() == 64,
{
    hex_text(&sha256(bytes))
}

/// Lines that are taken one by one, up to a limit.
#[derive(Debug)]
pub struct LineBatch {
    chunk: TailChunk,
    max_lines: usize,
    done: bool,
}

impl LineBatch {
    pub closed spec fn chunk(self) -> TailChunk {
        self.chunk
    }

    pub closed spec fn max_lines(self) -> usize {
        self.max_lines
    }

    /// Whether the end, or an incomplete line, was met.
    pub closed spec fn done(self) -> bool {
        self.done
    }

    /// An empty batch at `base_offset`.
    pub fn new(base_offset: i64, first_line_seq: i64, max_lines: usize) -> (b: LineBatch)
        ensures
            b.chunk().lines@.len() == 0,
            b.chunk().cursor_offset == base_offset,
            b.chunk().next_line_seq == first_line_seq,
            b.chunk().trailing_bytes == 0,
            b.chunk().last_line_offset is None,
            b.chunk().last_line_hash is None,
            b.max_lines() == max_lines,
            !b.done(),
    {
        LineBatch {
            chunk: TailChunk {
                lines: Vec::new(),
                cursor_offset: base_offset,
                next_line_seq: first_line_seq,
                trailing_bytes: 0,
                last_line_offset: None,
                last_line_hash: None,
            },
            max_lines,
            done: false,
        }
    }

    /// Whether another line is to be read.
    pub fn wants_more(&self) -> (r: bool)
        ensures
            r == (!self.done() && self.chunk().lines@.len() < self.max_lines()),
    {
        !self.done && self.chunk.lines.len() < self.max_lines
    }

    /// Takes what the reader gave up to the next line break: nothing at the
    /// end, and no line break behind an incomplete line. Only a complete line
    /// moves the cursor.
    pub fn take_line(&mut self, read: &Vec<u8>)
        requires
            read@.len() > 0 && read@.last() == 10 ==> {
                &&& old(self).chunk().cursor_offset + read@.len() <= i64::MAX
                &&& old(self).chunk().next_line_seq < i64::MAX
            },
        ensures
            final(self).max_lines() == old(self).max_lines(),
            ({
                let complete = read@.len() > 0 && read@.last() == 10;
                let before = old(self).chunk();
                let now = final(self).chunk();
                if complete {
                    &&& final(self).done() == old(self).done()
                    &&& now.lines@.len() == before.lines@.len() + 1
                    &&& now.lines@.drop_last() == before.lines@
                    &&& now.lines@.last().line_seq == before.next_line_seq
                    &&& now.lines@.last().start_offset == before.cursor_offset
                    &&& now.lines@.last().end_offset == before.cursor_offset + read@.len()
                    &&& reads_as(line_content(read@), now.lines@.last().raw@)
                    &&& now.cursor_offset == before.cursor_offset + read@.len()
                    &&& now.next_line_seq == before.next_line_seq + 1
                    &&& now.trailing_bytes == before.trailing_bytes
                    &&& now.last_line_offset == Some(before.cursor_offset)
                    &&& now.last_line_hash is Some
                    &&& now.last_line_hash->0@ == line_hash(read@)
                } else {
                    &&& final(self).done()
                    &&& now.lines == before.lines
                    &&& now.cursor_offset == before.cursor_offset
                    &&& now.next_line_seq == before.next_line_seq
                    &&& now.last_line_offset == before.last_line_offset
                    &&& now.last_line_hash == before.last_line_hash
                    &&& now.trailing_bytes == if read@.len() == 0 {
                        before.trailing_bytes as nat
                    } else {
                        read@.len()
                    }
                }
            }),
    {
        let n: usize = read.len();
        if n == 0 {
            self.done = true;
            return;
        }
        if read[n - 1] != 10 {
            self.done = true;
            self.chunk.trailing_bytes = n;
            return;
        }
        let mut m: usize = n - 1;
        proof {
            assert(read@.drop_last().len() == m);
            if m > 0 {
                assert(read@.drop_last().last() == read@[m - 1]);
            }
        }
        if m > 0 && read[m - 1] == 13 {
            m = m - 1;
        }
        let content = slice_bytes(read, 0, m);
        proof {
            assert(content@ =~= line_content(read@));
        }
        let start: i64 = self.chunk.cursor_offset;
        let end: i64 = (start as i128 + n as i128) as i64;
        let ghost before = self.chunk.lines@;
        self.chunk.lines.push(
            CompleteNativeLine {
                line_seq: self.chunk.next_line_seq,
                start_offset: start,
                end_offset: end,
                raw: read_lossy(content.as_slice()),
            },
        );
        proof {
            assert(self.chunk.lines@.drop_last() =~= before);
        }
        self.chunk.cursor_offset = end;
        self.chunk.next_line_seq = self.chunk.next_line_seq + 1;
        self.chunk.last_line_offset = Some(start);
        self.chunk.last_line_hash = Some(hash_bytes(read.as_slice()));
    }

    /// The lines that were taken.
    pub fn finish(self) -> (chunk: TailChunk)
        ensures
            chunk == self.chunk(),
    {
        self.chunk
    }
}

fn slice_bytes(bytes: &Vec<u8>, from: usize, to: usize) -> (out: Vec<u8>)
    requires
        from <= to <= bytes@.len(),
    ensures
        out@ == bytes@.subrange(from as int, to as int),
{
    let mut out: Vec<u8> = Vec::new();
    for i in from..to
        invariant
            from <= to <= bytes@.len(),
            out@ == bytes@.subrange(from as int, i as int),
    {
        out.push(bytes[i]);
        proof {
            assert(bytes@.subrange(from as int, i + 1) =~= bytes@.subrange(
                from as int,
                i as int,
            ).push(bytes@[i as int]));
        }
    }
    out
}

/// Bytes that are read from the front.
#[derive(Debug)]
pub struct ByteReader {
    pub bytes: Vec<u8>,
    pub position: usize,
}

impl ByteReader {
    pub open spec fn valid(self) -> bool {
        self.position <= self.bytes@.len()
    }

    pub fn new(bytes: Vec<u8>) -> (r: ByteReader)
        ensures
            r.valid(),
            r.bytes == bytes,
            r.position == 0,
    {
        ByteReader { bytes, position: 0 }
    }

    /// Reads up to and with the next line break, or up to the end.
    pub fn read_line(&mut self) -> (read: Vec<u8>)
        requires
            old(self).valid(),
        ensures
            final(self).valid(),
            final(self).bytes == old(self).bytes,
            ({
                let b = old(self).bytes@;
                let p = old(self).position as int;
                let e = line_break(b, p);
                let to = if e < b.len() {
                    e + 1
                } else {
                    e
                };
                &&& final(self).position == to
                &&& read@ == b.subrange(p, to)
            }),
    {
        let n: usize = self.bytes.len();
        let from: usize = self.position;
        let mut e: usize = from;
        while e < n && self.bytes[e] != 10
            invariant
                n == self.bytes@.len(),
                from <= e <= n,
                line_break(self.bytes@, from as int) == line_break(self.bytes@, e as int),
            decreases n - e,
        {
            e = e + 1;
        }
        let to: usize = if e < n {
            e + 1
        } else {
            e
        };
        let read = slice_bytes(&self.bytes, from, to);
        self.position = to;
        read
    }
}

/// The lines that one batch takes.
pub open spec fn batch_spans(bytes: Seq<u8>, from: int, max_lines: nat) -> Seq<(int, int)> {
    let all = line_spans(bytes, from);
    if all.len() <= max_lines {
        all
    } else {
        all.take(max_lines as int)
    }
}

proof fn lemma_spans_split(bytes: Seq<u8>, from: int, k: int)
    requires
        0 <= from <= bytes.len(),
        0 <= k <= line_spans(bytes, from).len(),
    ensures
        line_spans(bytes, from) == line_spans(bytes, from).take(k) + line_spans(
            bytes,
            spans_end(line_spans(bytes, from).take(k), from),
        ),
    decreases k,
{
    let all = line_spans(bytes, from);
    if k == 0 {
        assert(all.take(0) + all =~= all);
    } else {
        lemma_line_break(bytes, from);
        let e = line_break(bytes, from) + 1;
        let rest = line_spans(bytes, e);
        assert(all == seq![(from, e)] + rest);
        lemma_spans_split(bytes, e, k - 1);
        assert(all.take(k) =~= seq![(from, e)] + rest.take(k - 1));
        if k == 1 {
            assert(all.take(1).last() == (from, e));
            assert(rest.take(0) =~= Seq::<(int, int)>::empty());
        } else {
            assert(all.take(k).last() == rest.take(k - 1).last());
        }
        assert(spans_end(all.take(k), from) == spans_end(rest.take(k - 1), e));
        assert(all =~= all.take(k) + line_spans(bytes, spans_end(all.take(k), from)));
    }
}

/// Reading in batches loses and repeats nothing: the lines of a batch, followed
/// by the lines from where it stopped, are all the lines.
pub proof fn law_batches_compose(bytes: Seq<u8>, from: int, max_lines: nat)
    requires
        0 <= from <= bytes.len(),
    ensures
        line_spans(bytes, from) == batch_spans(bytes, from, max_lines) + line_spans(
            bytes,
            spans_end(batch_spans(bytes, from, max_lines), from),
        ),
{
    let all = line_spans(bytes, from);
    if all.len() <= max_lines {
        lemma_spans_split(bytes, from, all.len() as int);
        assert(all.take(all.len() as int) =~= all);
    } else {
        lemma_spans_split(bytes, from, max_lines as int);
    }
}

/// The cursor never moves into an incomplete line: it stops right behind a line
/// break or where it was, and there is no line break behind it.
pub proof fn law_cursor_stops_at_line_break(bytes: Seq<u8>, from: int)
    requires
        0 <= from <= bytes.len(),
    ensures
        ({
            let end = spans_end(line_spans(bytes, from), from);
            &&& from <= end <= bytes.len()
            &&& end == from || bytes[end - 1] == 10
            &&& forall|j: int| end <= j < bytes.len() ==> bytes[j] != 10
        }),
    decreases bytes.len() - from + 1,
{
    lemma_line_spans(bytes, from);
    lemma_line_break(bytes, from);
    if from < bytes.len() && line_break(bytes, from) < bytes.len() {
        let e = line_break(bytes, from) + 1;
        law_cursor_stops_at_line_break(bytes, e);
        let rest = line_spans(bytes, e);
        let all = line_spans(bytes, from);
        if rest.len() > 0 {
            assert(all.last() == rest.last());
        }
    }
}

/// Appending to a transcript leaves the lines that were complete as they were.
pub proof fn law_append_keeps_lines(bytes: Seq<u8>, more: Seq<u8>, from: int)
    requires
        0 <= from <= bytes.len(),
    ensures
        ({
            let old_lines = line_spans(bytes, from);
            let new_lines = line_spans(bytes + more, from);
            &&& old_lines.len() <= new_lines.len()
            &&& new_lines.take(old_lines.len() as int) == old_lines
        }),
    decreases bytes.len() - from + 1,
{
    let old_lines = line_spans(bytes, from);
    let new_lines = line_spans(bytes + more, from);
    lemma_line_break(bytes, from);
    if from < bytes.len() && line_break(bytes, from) < bytes.len() {
        let e = line_break(bytes, from) + 1;
        lemma_same_break(bytes, more, from);
        law_append_keeps_lines(bytes, more, e);
        let old_rest = line_spans(bytes, e);
        let new_rest = line_spans(bytes + more, e);
        assert(new_lines == seq![(from, e)] + new_rest);
        assert(new_lines.take(old_lines.len() as int) =~= seq![(from, e)] + new_rest.take(
            old_rest.len() as int,
        ));
    } else {
        assert(new_lines.take(0) =~= old_lines);
    }
}

proof fn lemma_same_break(bytes: Seq<u8>, more: Seq<u8>, i: int)
    requires
        0 <= i <= bytes.len(),
        line_break(bytes, i) < bytes.len(),
    ensures
        line_break(bytes + more, i) == line_break(bytes, i),
    decreases bytes.len() - i,
{
    if i < bytes.len() && bytes[i] != 10 {
        lemma_same_break(bytes, more, i + 1);
    }
}

/// Reads at most `max_lines` complete lines. An incomplete line at the end is
/// read from this reader but not counted: the cursor stays before it.
pub fn read_complete_line_batch(
    reader: &mut ByteReader,
    base_offset: i64,
    first_line_seq: i64,
    max_lines: usize,
) -> (chunk: TailChunk)
    requires
        old(reader).valid(),
        base_offset + (old(reader).bytes@.len() - old(reader).position) <= i64::MAX,
        first_line_seq + line_spans(old(reader).bytes@, old(reader).position as int).len()
            <= i64::MAX,
    ensures
        final(reader).valid(),
        final(reader).bytes == old(reader).bytes,
        ({
            let bytes = old(reader).bytes@;
            let from = old(reader).position as int;
            let spans = batch_spans(bytes, from, max_lines as nat);
            let end = spans_end(spans, from);
            &&& holds_lines(
                bytes,
                spans,
                from,
                base_offset as int,
                first_line_seq as int,
                chunk,
            )
            &&& if spans.len() < max_lines {
                &&& chunk.trailing_bytes == bytes.len() - end
                &&& final(reader).position == bytes.len()
            } else {
                &&& chunk.trailing_bytes == 0
                &&& final(reader).position == end
            }
        }),
{
    let ghost bytes = reader.bytes@;
    let ghost from = reader.position as int;
    let ghost all = line_spans(bytes, from);
    let ghost mut taken: Seq<(int, int)> = Seq::empty();
    let mut batch = LineBatch::new(base_offset, first_line_seq, max_lines);
    proof {
        lemma_line_spans(bytes, from);
        assert(all.take(0) =~= taken);
    }
    while batch.wants_more()
        invariant
            reader.valid(),
            reader.bytes@ == bytes,
            reader.bytes == old(reader).bytes,
            0 <= from <= reader.position <= bytes.len(),
            base_offset + (bytes.len() - from) <= i64::MAX,
            first_line_seq + all.len() <= i64::MAX,
            all == line_spans(bytes, from),
            batch.max_lines() == max_lines,
            taken.len() <= all.len(),
            taken == all.take(taken.len() as int),
            taken.len() <= max_lines,
            from <= spans_end(taken, from) <= bytes.len(),
            holds_lines(
                bytes,
                taken,
                from,
                base_offset as int,
                first_line_seq as int,
                batch.chunk(),
            ),
            batch.done() ==> {
                &&& taken == all
                &&& taken.len() < max_lines
                &&& batch.chunk().trailing_bytes == bytes.len() - spans_end(taken, from)
                &&& reader.position == bytes.len()
            },
            !batch.done() ==> {
                &&& batch.chunk().trailing_bytes == 0
                &&& reader.position == spans_end(taken, from)
            },
        decreases max_lines - taken.len(), if batch.done() { 0int } else { 1int },
    {
        let ghost at = reader.position as int;
        let ghost taken0 = taken;
        let ghost chunk0 = batch.chunk();
        let read = reader.read_line();
        let ghost e = line_break(bytes, at);
        let ghost rest = line_spans(bytes, at);
        proof {
            lemma_spans_split(bytes, from, taken.len() as int);
            lemma_line_break(bytes, at);
            lemma_line_spans(bytes, from);
            assert(all == taken + rest);
            if e < bytes.len() {
                assert(rest == seq![(at, e + 1)] + line_spans(bytes, e + 1));
                assert(rest.len() >= 1);
                assert(read@.last() == 10);
                assert(all[taken.len() as int] == (at, e + 1));
            } else {
                assert(rest.len() == 0);
                assert(all =~= taken);
                if read@.len() > 0 {
                    assert(read@.last() == bytes[bytes.len() - 1]);
                    assert(bytes[bytes.len() - 1] != 10);
                }
            }
        }
        batch.take_line(&read);
        proof {
            if e < bytes.len() {
                taken = taken0.push((at, e + 1));
                assert(all.take(taken.len() as int) =~= taken);
                assert forall|n: int| 0 <= n < taken.len() implies is_line(
                    bytes,
                    taken[n],
                    n,
                    from,
                    base_offset as int,
                    first_line_seq as int,
                    #[trigger] batch.chunk().lines@[n],
                ) by {
                    if n < taken0.len() {
                        assert(batch.chunk().lines@.drop_last()[n] == chunk0.lines@[n]);
                        assert(is_line(
                            bytes,
                            taken0[n],
                            n,
                            from,
                            base_offset as int,
                            first_line_seq as int,
                            chunk0.lines@[n],
                        ));
                    } else {
                        assert(batch.chunk().lines@[n] == batch.chunk().lines@.last());
                    }
                }
            }
        }
    }
    proof {
        assert(all.take(all.len() as int) =~= all);
    }
    batch.finish()
}

/// Splits a stretch of a transcript that starts at `base_offset` into its
/// complete lines. What is behind the last line break is left for the next
/// time.
pub fn split_complete_lines(bytes: &[u8], base_offset: i64, first_line_seq: i64) -> (chunk:
    TailChunk)
    requires
        base_offset + bytes@.len() <= i64::MAX,
        first_line_seq + line_spans(bytes@, 0).len() <= i64::MAX,
    ensures
        holds_lines(
            bytes@,
            line_spans(bytes@, 0),
            0,
            base_offset as int,
            first_line_seq as int,
            chunk,
        ),
        chunk.trailing_bytes == bytes@.len() - spans_end(line_spans(bytes@, 0), 0),
{
    let n: usize = bytes.len();
    let mut copy: Vec<u8> = Vec::new();
    for i in 0..n
        invariant
            n == bytes@.len(),
            copy@ == bytes@.take(i as int),
    {
        copy.push(bytes[i]);
        proof {
            assert(bytes@.take(i + 1) =~= bytes@.take(i as int).push(bytes@[i as int]));
        }
    }
    proof {
        assert(bytes@.take(n as int) =~= bytes@);
        lemma_line_spans(bytes@, 0);
    }
    let mut reader = ByteReader::new(copy);
    read_complete_line_batch(&mut reader, base_offset, first_line_seq, n)
}

/// How far a transcript was read.
#[derive(Debug, Clone, Copy, PartialEq, Eq)]
pub struct StoredTailState<'a> {
    pub dev: i64,
    pub inode: i64,
    pub cursor_offset: i64,
    pub last_line_hash: Option<&'a str>,
}

/// What the file looks like now.
#[derive(Debug, Clone, Copy, PartialEq, Eq)]
pub struct ObservedFileState<'a> {
    pub dev: i64,
    pub inode: i64,
    pub size: i64,
    /// The digest of what now stands where the last line was read.
    pub verified_last_line_hash: Option<&'a str>,
}

/// Why a transcript is read again from the start.
#[derive(Debug, Clone, Copy, PartialEq, Eq, Structural)]
pub enum RescanReason {
    WatcherError,
    IdentityChanged,
    Truncated,
    LastLineChanged,
}

/// The characters of an optional text.
pub open spec fn opt_str(s: Option<&str>) -> Option<Seq<char>> {
    match s {
        Some(t) => Some(t@),
        None => None,
    }
}

/// Whether, and why, a transcript has to be read again from the start.
pub open spec fn must_rescan(
    stored: StoredTailState<'_>,
    observed: ObservedFileState<'_>,
    watcher_error: bool,
) -> Option<RescanReason> {
    if watcher_error {
        Some(RescanReason::WatcherError)
    } else if stored.dev != observed.dev || stored.inode != observed.inode {
        Some(RescanReason::IdentityChanged)
    } else if observed.size < stored.cursor_offset {
        Some(RescanReason::Truncated)
    } else if stored.cursor_offset > 0 && opt_str(stored.last_line_hash) != opt_str(
        observed.verified_last_line_hash,
    ) {
        Some(RescanReason::LastLineChanged)
    } else {
        None
    }
}

/// Decides whether a transcript has to be read again from the start.
pub fn rescan_reason(
    stored: StoredTailState<'_>,
    observed: ObservedFileState<'_>,
    watcher_error: bool,
) -> (r: Option<RescanReason>)
    ensures
        r == must_rescan(stored, observed, watcher_error),
{
    if watcher_error {
        return Some(RescanReason::WatcherError);
    }
    if stored.dev != observed.dev || stored.inode != observed.inode {
        return Some(RescanReason::IdentityChanged);
    }
    if observed.size < stored.cursor_offset {
        return Some(RescanReason::Truncated);
    }
    let same = match (stored.last_line_hash, observed.verified_last_line_hash) {
        (Some(a), Some(b)) => same_text(a, b),
        (None, None) => true,
        _ => false,
    };
    if stored.cursor_offset > 0 && !same {
        return Some(RescanReason::LastLineChanged);
    }
    None
}

/// A transcript is only read on from the stored cursor where it is the same
/// file, is long enough, and still holds the last line that was read.
pub proof fn law_resume_needs_same_file(
    stored: StoredTailState<'_>,
    observed: ObservedFileState<'_>,
    watcher_error: bool,
)
    requires
        must_rescan(stored, observed, watcher_error) is None,
    ensures
        !watcher_error,
        stored.dev == observed.dev && stored.inode == observed.inode,
        stored.cursor_offset <= observed.size,
        stored.cursor_offset > 0 ==> opt_str(stored.last_line_hash) == opt_str(
            observed.verified_last_line_hash,
        ),
{
}

/// Lines follow each other without a gap. Each ends behind its line break, which is
/// the only one in it.
pub proof fn law_lines_end_at_their_breaks(bytes: Seq<u8>, from: int)
    requires
        0 <= from <= bytes.len(),
    ensures
        ({
            let spans = line_spans(bytes, from);
            &&& spans.len() > 0 ==> spans[0].0 == from
            &&& forall|n: int, m: int|
                0 <= n < spans.len() - 1 && m == n + 1 ==> (#[trigger] spans[n]).1 == (
                #[trigger] spans[m]).0
            &&& forall|n: int|
                0 <= n < spans.len() ==> {
                    &&& from <= (#[trigger] spans[n]).0 < spans[n].1 <= bytes.len()
                    &&& bytes[spans[n].1 - 1] == 10
                    &&& forall|j: int| spans[n].0 <= j < spans[n].1 - 1 ==> bytes[j] != 10
                }
        }),
    decreases bytes.len() - from,
{
    lemma_line_break(bytes, from);
    if from < bytes.len() && line_break(bytes, from) < bytes.len() {
        let e = line_break(bytes, from) + 1;
        law_lines_end_at_their_breaks(bytes, e);
        let rest = line_spans(bytes, e);
        let spans = line_spans(bytes, from);
        assert(spans =~= seq![(from, e)] + rest);
        assert forall|n: int, m: int| 0 <= n < spans.len() - 1 && m == n + 1 implies (
        #[trigger] spans[n]).1 == (#[trigger] spans[m]).0 by {
            assert(spans[m] == rest[m - 1]);
            if n > 0 {
                assert(spans[n] == rest[n - 1]);
            }
        }
        assert forall|n: int| 0 <= n < spans.len() implies {
            &&& from <= (#[trigger] spans[n]).0 < spans[n].1 <= bytes.len()
            &&& bytes[spans[n].1 - 1] == 10
            &&& forall|j: int| spans[n].0 <= j < spans[n].1 - 1 ==> bytes[j] != 10
        } by {
            if n > 0 {
                assert(spans[n] == rest[n - 1]);
            }
        }
    }
}

/// A batch takes as many lines as there are, up to its limit.
pub proof fn law_batch_is_as_large_as_it_may_be(bytes: Seq<u8>, from: int, max_lines: nat)
    ensures
        batch_spans(bytes, from, max_lines).len() <= max_lines,
        batch_spans(bytes, from, max_lines).len() < max_lines ==> batch_spans(bytes, from, max_lines)
            == line_spans(bytes, from),
        line_spans(bytes, from).len() >= max_lines ==> batch_spans(bytes, from, max_lines).len()
            == max_lines,
{
}

/// A line says what stands before its line break, whether that is written with a
/// carriage return or without.
pub proof fn law_line_break_is_not_content(body: Seq<u8>)
    ensures
        line_content(body + seq![13u8, 10u8]) == body,
        body.len() == 0 || body.last() != 13 ==> line_content(body + seq![10u8]) == body,
{
    assert((body + seq![13u8, 10u8]).drop_last() =~= body + seq![13u8]);
    assert((body + seq![13u8]).drop_last() =~= body);
    assert((body + seq![10u8]).drop_last() =~= body);
}

/// A transcript is read again from the start exactly where its watcher failed, it
/// is another file, it became shorter, or the last line that was read is not there
/// any more; the first of these is the reason.
pub proof fn law_rescan_has_its_reason(
    stored: StoredTailState<'_>,
    observed: ObservedFileState<'_>,
    watcher_error: bool,
)
    ensures
        ({
            let r = must_rescan(stored, observed, watcher_error);
            let other = stored.dev != observed.dev || stored.inode != observed.inode;
            let shorter = observed.size < stored.cursor_offset;
            let changed = stored.cursor_offset > 0 && !match (
                stored.last_line_hash,
                observed.verified_last_line_hash,
            ) {
                (Some(was), Some(is)) => was@ == is@,
                (None, None) => true,
                _ => false,
            };
            &&& r is None <==> !watcher_error && !other && !shorter && !changed
            &&& watcher_error ==> r == Some(RescanReason::WatcherError)
            &&& !watcher_error && other ==> r == Some(RescanReason::IdentityChanged)
            &&& !watcher_error && !other && shorter ==> r == Some(RescanReason::Truncated)
            &&& !watcher_error && !other && !shorter && changed ==> r == Some(
                RescanReason::LastLineChanged,
            )
        }),
{
}

/// The lines of a chunk are numbered and follow each other without a gap, from where
/// it was read on; the cursor stands behind the last one, whose place and digest are
/// kept.
pub proof fn law_chunk_holds_its_lines_in_order(
    bytes: Seq<u8>,
    from: int,
    max_lines: nat,
    base: int,
    first: int,
    chunk: TailChunk,
)
    requires
        0 <= from <= bytes.len(),
        holds_lines(bytes, batch_spans(bytes, from, max_lines), from, base, first, chunk),
    ensures
        ({
            let lines = chunk.lines@;
            let n = lines.len() as int;
            &&& forall|k: int| 0 <= k < n ==> (#[trigger] lines[k]).line_seq == first + k
            &&& n > 0 ==> lines[0].start_offset == base
            &&& forall|k: int, m: int|
                0 <= k < n - 1 && m == k + 1 ==> (#[trigger] lines[k]).end_offset == (
                #[trigger] lines[m]).start_offset
            &&& chunk.next_line_seq == first + n
            &&& n > 0 ==> chunk.cursor_offset == lines[n - 1].end_offset
                && chunk.last_line_offset == Some(lines[n - 1].start_offset)
                && chunk.last_line_hash is Some
            &&& n == 0 ==> chunk.cursor_offset == base && chunk.last_line_offset is None
                && chunk.last_line_hash is None
            &&& forall|k: int|
                0 <= k < n ==> {
                    let line = #[trigger] lines[k];
                    let a = line.start_offset - base + from;
                    let b = line.end_offset - base + from;
                    &&& from <= a < b <= bytes.len()
                    &&& bytes[b - 1] == 10
                    &&& line.raw@ == lossy_text(line_content(bytes.subrange(a, b)))
                }
        }),
{
    let spans = batch_spans(bytes, from, max_lines);
    let all = line_spans(bytes, from);
    let lines = chunk.lines@;
    law_lines_end_at_their_breaks(bytes, from);
    assert forall|k: int| 0 <= k < spans.len() implies #[trigger] spans[k] == all[k] by {}
    assert forall|k: int| 0 <= k < lines.len() implies is_line(
        bytes,
        spans[k],
        k,
        from,
        base,
        first,
        #[trigger] lines[k],
    ) && spans[k] == all[k] by {}
}

} // verus!
