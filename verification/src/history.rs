//! Bounded traffic histories: the bytes of one direction of a raw flow with
//! their chunk index, and the messages of an HTTP flow.

use vstd::prelude::*;
use std::ops::Range;
use crate::clock::Timestamp;
use crate::clock::now;
use crate::http::HttpRequest;
use crate::http::HttpResponse;

verus! {

/// One socket read: the bytes `range` of the history and when they arrived.
#[derive(Debug)]
pub struct RawChunk {
    pub range: Range<usize>,
    pub timestamp: Timestamp,
}

impl Clone for RawChunk {
    fn clone(&self) -> (c: RawChunk)
        ensures
            c == *self,
    {
        RawChunk { range: self.range.start..self.range.end, timestamp: self.timestamp }
    }
}

/// The chunks tile `[0, len)`: the first starts at 0, each starts where the
/// one before ends, and the last ends at `len`.
pub open spec fn chunks_cover(chunks: Seq<RawChunk>, len: int) -> bool {
    &&& forall|i: int|
        0 <= i < chunks.len() ==> (#[trigger] chunks[i]).range.start <= chunks[i].range.end
    &&& chunks.len() > 0 ==> chunks[0].range.start == 0
    &&& forall|i: int, j: int|
        0 <= i && j == i + 1 && j < chunks.len() ==> (#[trigger] chunks[i]).range.end == (
        #[trigger] chunks[j]).range.start
    &&& len == (if chunks.len() == 0 {
        0
    } else {
        chunks.last().range.end as int
    })
}

/// The timestamps never go backwards along the sequence.
pub open spec fn chronological(chunks: Seq<RawChunk>) -> bool {
    forall|i: int, j: int|
        0 <= i <= j < chunks.len() ==> (#[trigger] chunks[i]).timestamp.le(
            (#[trigger] chunks[j]).timestamp,
        )
}

/// The recorded bytes of one direction of a flow, with the index of the
/// chunks they arrived in and the ceiling past which the flow is closed.
pub struct RawHistory {
    pub bytes: Vec<u8>,
    pub chunks: Vec<RawChunk>,
    pub max_size: usize,
}

impl RawHistory {
    /// The chunk index tiles the recorded bytes exactly.
    pub open spec fn wf(&self) -> bool {
        chunks_cover(self.chunks@, self.bytes@.len() as int)
    }

    /// Where the last chunk starts; 0 for an empty index.
    pub open spec fn last_start(&self) -> int {
        if self.chunks@.len() == 0 {
            0
        } else {
            self.chunks@.last().range.start as int
        }
    }

    /// The bytes of the last chunk; empty for an empty index.
    pub open spec fn last_chunk_view(&self) -> Seq<u8> {
        if self.chunks@.len() == 0 {
            Seq::<u8>::empty()
        } else {
            self.bytes@.subrange(
                self.chunks@.last().range.start as int,
                self.chunks@.last().range.end as int,
            )
        }
    }

    /// An empty history with the given ceiling.
    pub fn new(max_size: usize) -> (h: RawHistory)
        ensures
            h.wf(),
            h.bytes@.len() == 0,
            h.chunks@.len() == 0,
            h.max_size == max_size,
    {
        RawHistory { bytes: Vec::new(), chunks: Vec::new(), max_size }
    }

    /// The bytes of the most recent chunk, or nothing before the first read.
    pub fn last_chunk(&self) -> (s: &[u8])
        requires
            self.wf(),
        ensures
            s@ == self.last_chunk_view(),
    {
        let n = self.chunks.len();
        if n == 0 {
            let s = vstd::slice::slice_subrange(self.bytes.as_slice(), 0, 0);
            assert(s@ =~= Seq::<u8>::empty());
            s
        } else {
            let start = self.chunks[n - 1].range.start;
            let end = self.chunks[n - 1].range.end;
            vstd::slice::slice_subrange(self.bytes.as_slice(), start, end)
        }
    }

    /// When the most recent chunk arrived, or `fallback` before the first read.
    pub fn last_timestamp_or(&self, fallback: Timestamp) -> (t: Timestamp)
        ensures
            t == (if self.chunks@.len() == 0 {
                fallback
            } else {
                self.chunks@.last().timestamp
            }),
    {
        let n = self.chunks.len();
        if n == 0 {
            fallback
        } else {
            self.chunks[n - 1].timestamp
        }
    }

    /// When the most recent chunk arrived; before the first read, the current
    /// time, of which only its range is known here.
    pub fn last_timestamp(&self) -> (t: Timestamp)
        ensures
            self.chunks@.len() > 0 ==> t == self.chunks@.last().timestamp,
            self.chunks@.len() == 0 ==> t.secs >= 0 && t.nanos < 1_000_000_000,
    {
        self.last_timestamp_or(now())
    }

    /// Replaces the bytes of the last chunk by `bytes`, keeping the chunk's
    /// timestamp. With an empty index the bytes become the first chunk,
    /// stamped `at`.
    pub fn set_last_chunk_at(&mut self, bytes: &[u8], at: Timestamp)
        requires
            old(self).wf(),
        ensures
            final(self).wf(),
            final(self).max_size == old(self).max_size,
            final(self).bytes@ == old(self).bytes@.subrange(0, old(self).last_start()) + bytes@,
            final(self).last_chunk_view() == bytes@,
            final(self).chunks@ == replace_last(old(self).chunks@, bytes@.len() as int, at),
            chronological(old(self).chunks@) ==> chronological(final(self).chunks@),
    {
        let ghost before = self.chunks@;
        let ghost old_bytes = self.bytes@;
        let stamp = match self.chunks.pop() {
            Some(chunk) => {
                self.bytes.truncate(chunk.range.start);
                chunk.timestamp
            },
            None => at,
        };
        let start = self.bytes.len();
        self.bytes.extend_from_slice(bytes);
        let end = self.bytes.len();
        self.chunks.push(RawChunk { range: start..end, timestamp: stamp });
        proof {
            let after = self.chunks@;
            assert(after =~= replace_last(before, bytes@.len() as int, at));
            assert(self.bytes@ =~= old_bytes.subrange(0, old(self).last_start()) + bytes@);
            assert(self.last_chunk_view() =~= bytes@);
            assert(chunks_cover(after, self.bytes@.len() as int)) by {
                assert forall|i: int| 0 <= i < after.len() implies (#[trigger] after[i]).range.start
                    <= after[i].range.end by {
                    if i < after.len() - 1 {
                        assert(after[i] == before[i]);
                    }
                }
                assert forall|i: int, j: int| 0 <= i && j == i + 1 && j < after.len() implies (
                #[trigger] after[i]).range.end == (#[trigger] after[j]).range.start by {
                    assert(after[i] == before[i]);
                    if j < after.len() - 1 {
                        assert(after[j] == before[j]);
                    }
                }
                if after.len() > 1 {
                    assert(after[0] == before[0]);
                }
            }
            if chronological(before) {
                assert forall|i: int, j: int| 0 <= i <= j < after.len() implies (
                #[trigger] after[i]).timestamp.le((#[trigger] after[j]).timestamp) by {
                    if before.len() > 0 {
                        assert(after[i].timestamp == before[i].timestamp);
                        assert(after[j].timestamp == before[j].timestamp);
                    }
                }
            }
        }
    }

    /// Replaces the bytes of the last chunk by `bytes`, keeping the chunk's
    /// timestamp. With an empty index the bytes become the first chunk,
    /// stamped with the current time.
    pub fn set_last_chunk(&mut self, bytes: &[u8])
        requires
            old(self).wf(),
        ensures
            final(self).wf(),
            final(self).max_size == old(self).max_size,
            final(self).bytes@ == old(self).bytes@.subrange(0, old(self).last_start()) + bytes@,
            final(self).last_chunk_view() == bytes@,
            exists|at: Timestamp|
                final(self).chunks@ == replace_last(old(self).chunks@, bytes@.len() as int, at),
            old(self).chunks@.len() > 0 ==> final(self).chunks@.last().timestamp == old(
                self,
            ).chunks@.last().timestamp,
            chronological(old(self).chunks@) ==> chronological(final(self).chunks@),
    {
        let at = now();
        self.set_last_chunk_at(bytes, at);
    }

    /// Appends `data` as a new chunk stamped `at`.
    pub fn push_chunk(&mut self, data: &[u8], at: Timestamp)
        requires
            old(self).wf(),
        ensures
            final(self).wf(),
            final(self).max_size == old(self).max_size,
            final(self).bytes@ == old(self).bytes@ + data@,
            final(self).chunks@ == old(self).chunks@.push(
                RawChunk {
                    range: (old(self).bytes@.len() as usize)..((old(self).bytes@.len()
                        + data@.len()) as usize),
                    timestamp: at,
                },
            ),
            final(self).last_chunk_view() == data@,
            chronological(old(self).chunks@) && (old(self).chunks@.len() > 0 ==> old(
                self,
            ).chunks@.last().timestamp.le(at)) ==> chronological(final(self).chunks@),
    {
        let ghost before = self.chunks@;
        let start = self.bytes.len();
        self.bytes.extend_from_slice(data);
        let end = self.bytes.len();
        self.chunks.push(RawChunk { range: start..end, timestamp: at });
        proof {
            let after = self.chunks@;
            assert(self.last_chunk_view() =~= data@);
            assert forall|i: int| 0 <= i < after.len() implies (#[trigger] after[i]).range.start
                <= after[i].range.end by {
                if i < before.len() {
                    assert(after[i] == before[i]);
                }
            }
            assert forall|i: int, j: int| 0 <= i && j == i + 1 && j < after.len() implies (
            #[trigger] after[i]).range.end == (#[trigger] after[j]).range.start by {
                assert(after[i] == before[i]);
                if j < before.len() {
                    assert(after[j] == before[j]);
                }
            }
            if before.len() > 0 {
                assert(after[0] == before[0]);
            }
            if chronological(before) && (before.len() > 0 ==> before.last().timestamp.le(at)) {
                assert forall|i: int, j: int| 0 <= i <= j < after.len() implies (
                #[trigger] after[i]).timestamp.le((#[trigger] after[j]).timestamp) by {
                    if j < before.len() {
                        assert(after[i] == before[i]);
                        assert(after[j] == before[j]);
                    } else if i < before.len() {
                        assert(after[i] == before[i]);
                        assert(before[i].timestamp.le(before.last().timestamp));
                    }
                }
            }
        }
    }
}

/// The chunk index after its last chunk was given `len` bytes: the last
/// chunk keeps its start and its timestamp; an empty index gets one chunk
/// from 0, stamped `at`.
pub open spec fn replace_last(chunks: Seq<RawChunk>, len: int, at: Timestamp) -> Seq<RawChunk> {
    if chunks.len() == 0 {
        seq![RawChunk { range: 0usize..(len as usize), timestamp: at }]
    } else {
        chunks.drop_last().push(
            RawChunk {
                range: chunks.last().range.start..((chunks.last().range.start + len) as usize),
                timestamp: chunks.last().timestamp,
            },
        )
    }
}

/// The messages of an HTTP flow in the order they were recorded, each with
/// its time, and the body bytes counted against each side's ceiling.
pub struct HttpHistory {
    pub requests: Vec<(HttpRequest, Timestamp)>,
    pub responses: Vec<(HttpResponse, Timestamp)>,
    pub client_size: usize,
    pub server_size: usize,
    pub client_max: usize,
    pub server_max: usize,
}

impl HttpHistory {
    /// Neither side has counted more than its ceiling.
    pub open spec fn wf(&self) -> bool {
        self.client_size <= self.client_max && self.server_size <= self.server_max
    }

    /// An empty history with the given ceilings.
    pub fn new(client_max: usize, server_max: usize) -> (h: HttpHistory)
        ensures
            h.wf(),
            h.requests@.len() == 0,
            h.responses@.len() == 0,
            h.client_size == 0,
            h.server_size == 0,
            h.client_max == client_max,
            h.server_max == server_max,
    {
        HttpHistory {
            requests: Vec::new(),
            responses: Vec::new(),
            client_size: 0,
            server_size: 0,
            client_max,
            server_max,
        }
    }

    /// Records `req` at time `at` if `len` more bytes fit under the client
    /// side's ceiling, and says whether it did; otherwise changes nothing.
    pub fn push_request_at(&mut self, req: HttpRequest, len: usize, at: Timestamp) -> (pushed: bool)
        requires
            old(self).wf(),
        ensures
            final(self).wf(),
            pushed == (len + old(self).client_size <= old(self).client_max),
            pushed ==> final(self).requests@ == old(self).requests@.push((req, at))
                && final(self).client_size == old(self).client_size + len,
            !pushed ==> final(self).requests@ == old(self).requests@ && final(self).client_size
                == old(self).client_size,
            final(self).responses@ == old(self).responses@,
            final(self).server_size == old(self).server_size,
            final(self).client_max == old(self).client_max,
            final(self).server_max == old(self).server_max,
    {
        if len > self.client_max - self.client_size {
            false
        } else {
            self.client_size = self.client_size + len;
            self.requests.push((req, at));
            true
        }
    }

    /// Records `resp` at time `at` if `len` more bytes fit under the server
    /// side's ceiling, and says whether it did; otherwise changes nothing.
    pub fn push_response_at(&mut self, resp: HttpResponse, len: usize, at: Timestamp) -> (pushed:
        bool)
        requires
            old(self).wf(),
        ensures
            final(self).wf(),
            pushed == (len + old(self).server_size <= old(self).server_max),
            pushed ==> final(self).responses@ == old(self).responses@.push((resp, at))
                && final(self).server_size == old(self).server_size + len,
            !pushed ==> final(self).responses@ == old(self).responses@ && final(self).server_size
                == old(self).server_size,
            final(self).requests@ == old(self).requests@,
            final(self).client_size == old(self).client_size,
            final(self).client_max == old(self).client_max,
            final(self).server_max == old(self).server_max,
    {
        if len > self.server_max - self.server_size {
            false
        } else {
            self.server_size = self.server_size + len;
            self.responses.push((resp, at));
            true
        }
    }

    /// Records `req` now if `len` more bytes fit under the client side's
    /// ceiling, and says whether it did; otherwise changes nothing.
    pub fn push_request(&mut self, req: HttpRequest, len: usize) -> (pushed: bool)
        requires
            old(self).wf(),
        ensures
            final(self).wf(),
            pushed == (len + old(self).client_size <= old(self).client_max),
            pushed ==> final(self).requests@.len() == old(self).requests@.len() + 1
                && final(self).requests@.drop_last() == old(self).requests@
                && final(self).requests@.last().0 == req
                && final(self).client_size == old(self).client_size + len,
            !pushed ==> final(self).requests@ == old(self).requests@ && final(self).client_size
                == old(self).client_size,
            final(self).responses@ == old(self).responses@,
            final(self).server_size == old(self).server_size,
            final(self).client_max == old(self).client_max,
            final(self).server_max == old(self).server_max,
    {
        let at = now();
        let pushed = self.push_request_at(req, len, at);
        proof {
            if pushed {
                assert(self.requests@.drop_last() =~= old(self).requests@);
            }
        }
        pushed
    }

    /// Records `resp` now if `len` more bytes fit under the server side's
    /// ceiling, and says whether it did; otherwise changes nothing.
    pub fn push_response(&mut self, resp: HttpResponse, len: usize) -> (pushed: bool)
        requires
            old(self).wf(),
        ensures
            final(self).wf(),
            pushed == (len + old(self).server_size <= old(self).server_max),
            pushed ==> final(self).responses@.len() == old(self).responses@.len() + 1
                && final(self).responses@.drop_last() == old(self).responses@
                && final(self).responses@.last().0 == resp
                && final(self).server_size == old(self).server_size + len,
            !pushed ==> final(self).responses@ == old(self).responses@ && final(self).server_size
                == old(self).server_size,
            final(self).requests@ == old(self).requests@,
            final(self).client_size == old(self).client_size,
            final(self).client_max == old(self).client_max,
            final(self).server_max == old(self).server_max,
    {
        let at = now();
        let pushed = self.push_response_at(resp, len, at);
        proof {
            if pushed {
                assert(self.responses@.drop_last() =~= old(self).responses@);
            }
        }
        pushed
    }
}

/// The chunks of an index written out one after the other.
pub open spec fn written_out(chunks: Seq<RawChunk>, bytes: Seq<u8>) -> Seq<u8>
    decreases chunks.len(),
{
    if chunks.len() == 0 {
        Seq::<u8>::empty()
    } else {
        written_out(chunks.drop_last(), bytes) + bytes.subrange(
            chunks.last().range.start as int,
            chunks.last().range.end as int,
        )
    }
}

/// Chunks that tile the first `len` bytes, written out one after the
/// other, are exactly those bytes.
pub proof fn lemma_written_out_prefix(chunks: Seq<RawChunk>, bytes: Seq<u8>, len: int)
    requires
        chunks_cover(chunks, len),
        len <= bytes.len(),
    ensures
        written_out(chunks, bytes) == bytes.subrange(0, len),
    decreases chunks.len(),
{
    if chunks.len() == 0 {
        assert(bytes.subrange(0, 0) =~= Seq::<u8>::empty());
    } else {
        let front = chunks.drop_last();
        let last = chunks.last();
        assert(chunks[chunks.len() - 1].range.start <= chunks[chunks.len() - 1].range.end);
        assert(chunks_cover(front, last.range.start as int)) by {
            assert forall|i: int| 0 <= i < front.len() implies (#[trigger] front[i]).range.start
                <= front[i].range.end by {
                assert(front[i] == chunks[i]);
            }
            assert forall|i: int, j: int| 0 <= i && j == i + 1 && j < front.len() implies (
            #[trigger] front[i]).range.end == (#[trigger] front[j]).range.start by {
                assert(front[i] == chunks[i]);
                assert(front[j] == chunks[j]);
            }
            if front.len() > 0 {
                assert(front[0] == chunks[0]);
                assert(front.last() == chunks[chunks.len() - 2]);
                assert(chunks[chunks.len() - 2].range.end == chunks[chunks.len() - 1].range.start);
            }
        }
        lemma_written_out_prefix(front, bytes, last.range.start as int);
        assert(written_out(chunks, bytes) =~= bytes.subrange(0, len));
    }
}

/// What a relay without hooks writes to the peer, chunk after chunk, is
/// exactly what it has read.
pub proof fn lemma_passthrough(history: RawHistory)
    requires
        history.wf(),
    ensures
        written_out(history.chunks@, history.bytes@) == history.bytes@,
{
    lemma_written_out_prefix(history.chunks@, history.bytes@, history.bytes@.len() as int);
    assert(history.bytes@.subrange(0, history.bytes@.len() as int) =~= history.bytes@);
}

} // verus!
