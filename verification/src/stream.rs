//! Framing of streamed model output: incoming chunks are queued within a
//! byte budget, moved into a working buffer within a size limit, and cut
//! into newline-terminated lines, each trimmed; the bytes after the last
//! newline wait for the next chunk.

use vstd::prelude::*;
use vstd::utf8::{valid_utf8, decode_utf8};
use std::collections::VecDeque;
use crate::text::{chars_of, owned, string_of, trim, trim_chars};

verus! {

/// The text that a byte sequence decodes to as UTF-8, if it is valid UTF-8.
pub open spec fn utf8_text(bytes: Seq<u8>) -> Option<Seq<char>> {
    if valid_utf8(bytes) {
        Some(decode_utf8(bytes))
    } else {
        None
    }
}

/// Decodes bytes as UTF-8 with `std::str::from_utf8`, which accepts exactly
/// the valid UTF-8 sequences and then gives the characters they encode.
#[verifier::external_body]
fn decode_utf8_bytes(bytes: &[u8]) -> (r: Option<String>)
    ensures
        match r {
            Some(t) => valid_utf8(bytes@) && t@ == decode_utf8(bytes@),
            None => !valid_utf8(bytes@),
        },
{
    match std::str::from_utf8(bytes) {
        Ok(t) => Some(t.to_string()),
        Err(_) => None,
    }
}

/// The sum of the lengths of the queued chunks.
pub open spec fn queued_bytes(q: Seq<Vec<u8>>) -> int
    decreases q.len(),
{
    if q.len() == 0 {
        0
    } else {
        queued_bytes(q.drop_last()) + q.last()@.len()
    }
}

/// The queued chunks one after the other.
pub open spec fn flatten(q: Seq<Vec<u8>>) -> Seq<u8>
    decreases q.len(),
{
    if q.len() == 0 {
        seq![]
    } else {
        flatten(q.drop_last()) + q.last()@
    }
}

/// Counts and limits of a buffer.
#[derive(Clone, Copy, Debug, PartialEq, Eq, Structural)]
pub struct BufferStats {
    pub buffer_size: usize,
    pub max_buffer_size: usize,
    pub queued_chunks: usize,
    pub total_queued_bytes: usize,
    pub max_queue_size: usize,
}

/// A queue of incoming chunks and a working buffer of bytes not yet cut
/// into lines.
pub struct StreamingBuffer {
    pub buffer: Vec<u8>,
    pub max_buffer_size: usize,
    pub chunk_queue: VecDeque<Vec<u8>>,
    pub total_queued_bytes: usize,
    pub max_queue_size: usize,
}

/// One step of cutting the buffer into lines.
#[derive(Debug)]
pub enum LineScan {
    /// A complete, valid, non-blank line: its trimmed text, where its bytes
    /// start, and where the bytes after its newline start.
    Line { text: String, start: usize, next: usize },
    /// No further complete line; the bytes before `consumed_to` have been
    /// cut (blank or undecodable lines are passed over).
    End { consumed_to: usize },
}

/// Cutting `buf` from `pos`: the first newline at or after `pos` ends a
/// segment; a segment that decodes and is not blank once trimmed is the next
/// line, any other is passed over. The result is whether a line was found,
/// its trimmed text, where it starts, and where scanning goes on (or, if no
/// line was found, where the last newline ended).
pub open spec fn scan(buf: Seq<u8>, pos: int) -> (bool, Seq<char>, int, int)
    decreases buf.len() - pos,
{
    if pos < 0 || pos >= buf.len() {
        (false, seq![], pos, pos)
    } else {
        let nl = first_newline(buf, pos);
        if nl >= buf.len() {
            (false, seq![], pos, pos)
        } else {
            let seg = buf.subrange(pos, nl);
            match utf8_text(seg) {
                Some(t) if trim(t).len() > 0 => (true, trim(t), pos, nl + 1),
                _ => {
                    proof {
                        lemma_first_newline(buf, pos);
                    }
                    scan(buf, nl + 1)
                },
            }
        }
    }
}

/// The index of the first newline byte at or after `pos`, or the length of
/// `buf` if there is none.
pub open spec fn first_newline(buf: Seq<u8>, pos: int) -> int
    decreases buf.len() - pos,
{
    if pos >= buf.len() || pos < 0 {
        buf.len() as int
    } else if buf[pos] == 10u8 {
        pos
    } else {
        first_newline(buf, pos + 1)
    }
}

/// Where the first newline from `pos` lies, and that none comes before it.
pub proof fn lemma_first_newline(buf: Seq<u8>, pos: int)
    requires
        0 <= pos,
    ensures
        pos <= first_newline(buf, pos) <= buf.len() || (pos > buf.len() && first_newline(buf, pos) == buf.len()),
        first_newline(buf, pos) < buf.len() ==> buf[first_newline(buf, pos)] == 10u8,
        forall|k: int| pos <= k < first_newline(buf, pos) ==> buf[k] != 10u8,
    decreases buf.len() - pos,
{
    if pos < buf.len() && buf[pos] != 10u8 {
        lemma_first_newline(buf, pos + 1);
    }
}

/// Cutting lines only moves forward: a line found from `pos` starts at or
/// after `pos` and ends with a newline before the end of the buffer; when no
/// line is found, no newline follows the point scanning stopped at, so what
/// is kept there is an incomplete line.
pub proof fn law_scan_moves_forward(buf: Seq<u8>, pos: int)
    requires
        0 <= pos <= buf.len(),
    ensures
        pos <= scan(buf, pos).2,
        pos <= scan(buf, pos).3 <= buf.len(),
        scan(buf, pos).0 ==> scan(buf, pos).2 < scan(buf, pos).3 && buf[scan(buf, pos).3 - 1] == 10u8,
        !scan(buf, pos).0 ==> forall|k: int| scan(buf, pos).3 <= k < buf.len() ==> buf[k] != 10u8,
    decreases buf.len() - pos,
{
    if pos < buf.len() {
        lemma_first_newline(buf, pos);
        let nl = first_newline(buf, pos);
        if nl < buf.len() {
            let seg = buf.subrange(pos, nl);
            match utf8_text(seg) {
                Some(t) if trim(t).len() > 0 => {},
                _ => {
                    law_scan_moves_forward(buf, nl + 1);
                },
            }
        }
    }
}

impl StreamingBuffer {
    /// The queue's byte count is the sum of its chunks and within the queue
    /// budget; the buffer is within its limit.
    pub open spec fn wf(&self) -> bool {
        &&& self.total_queued_bytes == queued_bytes(self.chunk_queue@)
        &&& self.total_queued_bytes <= self.max_queue_size
        &&& self.buffer@.len() <= self.max_buffer_size
    }

    /// A 1 MiB working buffer and a 10 MiB queue, both empty.
    pub fn new() -> (r: Self)
        ensures
            r.wf(),
            r.buffer@ == Seq::<u8>::empty(),
            r.chunk_queue@ == Seq::<Vec<u8>>::empty(),
            r.total_queued_bytes == 0,
            r.max_buffer_size == 1024 * 1024,
            r.max_queue_size == 10 * 1024 * 1024,
    {
        Self::with_capacity(1024 * 1024, 10 * 1024 * 1024)
    }

    /// Empty, with the given limits on the buffer and the queue.
    pub fn with_capacity(buffer_size: usize, queue_size: usize) -> (r: Self)
        ensures
            r.wf(),
            r.buffer@ == Seq::<u8>::empty(),
            r.chunk_queue@ == Seq::<Vec<u8>>::empty(),
            r.total_queued_bytes == 0,
            r.max_buffer_size == buffer_size,
            r.max_queue_size == queue_size,
    {
        StreamingBuffer {
            buffer: Vec::new(),
            max_buffer_size: buffer_size,
            chunk_queue: VecDeque::new(),
            total_queued_bytes: 0,
            max_queue_size: queue_size,
        }
    }

    /// Queues a chunk, unless it would take the queue over its budget; then
    /// the error says the client consumes too slowly and nothing changes.
    pub fn enqueue_chunk(&mut self, chunk: Vec<u8>) -> (r: Result<(), String>)
        requires
            old(self).wf(),
        ensures
            final(self).wf(),
            final(self).max_buffer_size == old(self).max_buffer_size,
            final(self).max_queue_size == old(self).max_queue_size,
            final(self).buffer@ == old(self).buffer@,
            old(self).total_queued_bytes + chunk@.len() > old(self).max_queue_size ==> (r matches Err(e) && e@
                == "Stream buffer queue overflow - client consuming too slowly"@) && final(self).chunk_queue@
                == old(self).chunk_queue@ && final(self).total_queued_bytes == old(self).total_queued_bytes,
            old(self).total_queued_bytes + chunk@.len() <= old(self).max_queue_size ==> r is Ok
                && final(self).chunk_queue@ == old(self).chunk_queue@.push(chunk)
                && final(self).total_queued_bytes == old(self).total_queued_bytes + chunk@.len(),
    {
        if chunk.len() > self.max_queue_size - self.total_queued_bytes {
            return Err(owned("Stream buffer queue overflow - client consuming too slowly"));
        }
        self.total_queued_bytes = self.total_queued_bytes + chunk.len();
        let ghost q0 = self.chunk_queue@;
        let ghost c = chunk;
        self.chunk_queue.push_back(chunk);
        assert(self.chunk_queue@.drop_last() =~= q0);
        assert(self.chunk_queue@.last() == c);
        Ok(())
    }

    /// Moves the queued chunks, front first, to the end of the buffer. A
    /// chunk that does not fit clears the buffer and ends the move with an
    /// error; the chunks behind it stay queued.
    pub fn absorb_queue(&mut self) -> (r: Result<(), String>)
        requires
            old(self).wf(),
        ensures
            final(self).wf(),
            final(self).max_buffer_size == old(self).max_buffer_size,
            final(self).max_queue_size == old(self).max_queue_size,
            match r {
                Ok(_) => final(self).chunk_queue@ == Seq::<Vec<u8>>::empty() && final(self).buffer@ == old(
                    self,
                ).buffer@ + flatten(old(self).chunk_queue@),
                Err(e) => e@ == "Stream buffer overflow - single message too large"@ && final(self).buffer@
                    == Seq::<u8>::empty() && exists|k: int|
                    #![trigger old(self).chunk_queue@.take(k)]
                    0 <= k < old(self).chunk_queue@.len() && final(self).chunk_queue@ == old(
                        self,
                    ).chunk_queue@.skip(k + 1) && old(self).buffer@.len() + flatten(
                        old(self).chunk_queue@.take(k),
                    ).len() <= old(self).max_buffer_size && old(self).buffer@.len() + flatten(
                        old(self).chunk_queue@.take(k + 1),
                    ).len() > old(self).max_buffer_size,
            },
    {
        let ghost q0 = self.chunk_queue@;
        let ghost b0 = self.buffer@;
        let ghost mut k: int = 0;
        proof {
            lemma_queued_split(q0, 0);
        }
        while self.chunk_queue.len() > 0
            invariant
                0 <= k <= q0.len(),
                self.chunk_queue@ == q0.skip(k),
                self.buffer@ == b0 + flatten(q0.take(k)),
                self.buffer@.len() <= self.max_buffer_size,
                self.total_queued_bytes == queued_bytes(q0.skip(k)),
                self.total_queued_bytes <= self.max_queue_size,
                self.max_buffer_size == old(self).max_buffer_size,
                self.max_queue_size == old(self).max_queue_size,
                q0 == old(self).chunk_queue@,
                b0 == old(self).buffer@,
                queued_bytes(q0.skip(k)) + queued_bytes(q0.take(k)) == queued_bytes(q0),
            decreases q0.len() - k,
        {
            let ghost before = self.chunk_queue@;
            let chunk = match self.chunk_queue.pop_front() {
                Some(c) => c,
                None => {
                    return Ok(());
                },
            };
            proof {
                assert(before.len() > 0);
                assert(chunk == q0[k]);
                assert(self.chunk_queue@ =~= q0.skip(k + 1));
                lemma_queued_split(q0, k + 1);
                lemma_queued_front(q0.skip(k));
                assert(q0.skip(k).drop_first() =~= q0.skip(k + 1));
                assert(q0.take(k + 1).drop_last() =~= q0.take(k));
                assert(q0.take(k + 1).last() == q0[k]);
            }
            self.total_queued_bytes = self.total_queued_bytes - chunk.len();
            if chunk.len() > self.max_buffer_size - self.buffer.len() {
                self.buffer.clear();
                return Err(owned("Stream buffer overflow - single message too large"));
            }
            let mut j: usize = 0;
            let ghost mid = self.buffer@;
            while j < chunk.len()
                invariant
                    j <= chunk@.len(),
                    self.buffer@ == mid + chunk@.take(j as int),
                    mid.len() + chunk@.len() <= self.max_buffer_size,
                    self.chunk_queue@ == q0.skip(k + 1),
                    self.total_queued_bytes == queued_bytes(q0.skip(k + 1)),
                    self.total_queued_bytes <= self.max_queue_size,
                    self.max_buffer_size == old(self).max_buffer_size,
                    self.max_queue_size == old(self).max_queue_size,
                decreases chunk@.len() - j,
            {
                self.buffer.push(chunk[j]);
                assert(chunk@.take(j + 1) =~= chunk@.take(j as int).push(chunk@[j as int]));
                j += 1;
            }
            assert(chunk@.take(chunk@.len() as int) =~= chunk@);
            proof {
                k = k + 1;
                assert(self.buffer@ =~= b0 + flatten(q0.take(k)));
            }
        }
        assert(q0.skip(k).len() == 0);
        assert(k == q0.len());
        assert(q0.take(k) =~= q0);
        Ok(())
    }

    /// The next line of the buffer from byte `pos`.
    pub fn next_line(&self, pos: usize) -> (r: LineScan)
        requires
            pos <= self.buffer@.len(),
        ensures
            ({
                let s = scan(self.buffer@, pos as int);
                match r {
                    LineScan::Line { text, start, next } => s.0 && text@ == s.1 && start == s.2 && next == s.3,
                    LineScan::End { consumed_to } => !s.0 && consumed_to == s.3,
                }
            }),
    {
        let ghost buf = self.buffer@;
        let mut p: usize = pos;
        loop
            invariant
                buf == self.buffer@,
                pos <= p <= buf.len(),
                scan(buf, pos as int) == scan(buf, p as int),
            decreases buf.len() - p,
        {
            if p >= self.buffer.len() {
                return LineScan::End { consumed_to: p };
            }
            let mut nl: usize = p;
            while nl < self.buffer.len() && self.buffer[nl] != 10u8
                invariant
                    buf == self.buffer@,
                    p <= nl <= buf.len(),
                    first_newline(buf, p as int) == first_newline(buf, nl as int),
                decreases buf.len() - nl,
            {
                nl += 1;
            }
            if nl >= self.buffer.len() {
                return LineScan::End { consumed_to: p };
            }
            let mut seg: Vec<u8> = Vec::new();
            let mut i: usize = p;
            while i < nl
                invariant
                    buf == self.buffer@,
                    p <= i <= nl < buf.len(),
                    seg@ == buf.subrange(p as int, i as int),
                decreases nl - i,
            {
                seg.push(self.buffer[i]);
                assert(buf.subrange(p as int, i + 1) =~= buf.subrange(p as int, i as int).push(buf[i as int]));
                i += 1;
            }
            match decode_utf8_bytes(seg.as_slice()) {
                Some(t) => {
                    let cs = chars_of(t.as_str());
                    let tr = trim_chars(cs.as_slice());
                    if tr.len() > 0 {
                        return LineScan::Line { text: string_of(tr.as_slice()), start: p, next: nl + 1 };
                    }
                },
                None => {},
            }
            p = nl + 1;
        }
    }

    /// Drops the first `n` bytes of the buffer: the lines cut so far.
    pub fn consume(&mut self, n: usize)
        requires
            old(self).wf(),
            n <= old(self).buffer@.len(),
        ensures
            final(self).wf(),
            final(self).buffer@ == old(self).buffer@.skip(n as int),
            final(self).chunk_queue@ == old(self).chunk_queue@,
            final(self).total_queued_bytes == old(self).total_queued_bytes,
            final(self).max_buffer_size == old(self).max_buffer_size,
            final(self).max_queue_size == old(self).max_queue_size,
    {
        if n == 0 {
            assert(self.buffer@.skip(0) =~= self.buffer@);
            return;
        }
        let mut rest: Vec<u8> = Vec::new();
        let mut i: usize = n;
        while i < self.buffer.len()
            invariant
                n <= i <= self.buffer@.len(),
                self.buffer@ == old(self).buffer@,
                rest@ == old(self).buffer@.subrange(n as int, i as int),
            decreases self.buffer@.len() - i,
        {
            rest.push(self.buffer[i]);
            assert(old(self).buffer@.subrange(n as int, i + 1) =~= old(self).buffer@.subrange(n as int, i as int).push(
                old(self).buffer@[i as int],
            ));
            i += 1;
        }
        self.buffer = rest;
        assert(self.buffer@ =~= old(self).buffer@.skip(n as int));
    }

    /// The buffer's counts and limits.
    pub fn get_stats(&self) -> (r: BufferStats)
        ensures
            r.buffer_size == self.buffer@.len(),
            r.max_buffer_size == self.max_buffer_size,
            r.queued_chunks == self.chunk_queue@.len(),
            r.total_queued_bytes == self.total_queued_bytes,
            r.max_queue_size == self.max_queue_size,
    {
        BufferStats {
            buffer_size: self.buffer.len(),
            max_buffer_size: self.max_buffer_size,
            queued_chunks: self.chunk_queue.len(),
            total_queued_bytes: self.total_queued_bytes,
            max_queue_size: self.max_queue_size,
        }
    }

    /// Empties the buffer and the queue.
    pub fn clear(&mut self)
        ensures
            final(self).buffer@ == Seq::<u8>::empty(),
            final(self).chunk_queue@ == Seq::<Vec<u8>>::empty(),
            final(self).total_queued_bytes == 0,
            final(self).max_buffer_size == old(self).max_buffer_size,
            final(self).max_queue_size == old(self).max_queue_size,
            final(self).wf(),
    {
        self.buffer.clear();
        self.chunk_queue.clear();
        self.total_queued_bytes = 0;
    }
}

proof fn lemma_queued_split(q: Seq<Vec<u8>>, k: int)
    requires
        0 <= k <= q.len(),
    ensures
        queued_bytes(q.skip(k)) + queued_bytes(q.take(k)) == queued_bytes(q),
        queued_bytes(q.skip(k)) >= 0,
        queued_bytes(q.take(k)) >= 0,
    decreases q.len(),
{
    lemma_queued_nonneg(q.skip(k));
    lemma_queued_nonneg(q.take(k));
    if k < q.len() {
        lemma_queued_split(q.drop_last(), k);
        assert(q.drop_last().take(k) =~= q.take(k));
        assert(q.skip(k).drop_last() =~= q.drop_last().skip(k));
        assert(q.skip(k).last() == q.last());
    } else {
        assert(q.take(k) =~= q);
        assert(q.skip(k) =~= Seq::<Vec<u8>>::empty());
    }
}

proof fn lemma_queued_nonneg(q: Seq<Vec<u8>>)
    ensures
        queued_bytes(q) >= 0,
    decreases q.len(),
{
    if q.len() > 0 {
        lemma_queued_nonneg(q.drop_last());
    }
}

proof fn lemma_queued_front(q: Seq<Vec<u8>>)
    requires
        q.len() > 0,
    ensures
        queued_bytes(q) == q[0]@.len() + queued_bytes(q.drop_first()),
    decreases q.len(),
{
    if q.len() > 1 {
        lemma_queued_front(q.drop_last());
        assert(q.drop_last().drop_first() =~= q.drop_first().drop_last());
        assert(q.drop_first().last() == q.last());
    } else {
        assert(q.drop_first() =~= Seq::<Vec<u8>>::empty());
        assert(q.drop_last() =~= Seq::<Vec<u8>>::empty());
    }
}

} // verus!
