//! Fixed-size chunking of a sample stream.

use vstd::prelude::*;

verus! {

/// Collects incoming samples and releases them in chunks of a fixed size, in
/// arrival order. No chunk is ever released in part.
pub struct SampleAccumulator<T> {
    buffer: Vec<T>,
    chunk_size: usize,
}

/// Number of whole chunks of `chunk_size` samples among `total` samples.
pub open spec fn chunk_count(total: int, chunk_size: int) -> int
    recommends
        chunk_size > 0,
{
    total / chunk_size
}

/// The `k`-th chunk of `chunk_size` samples of a stream.
pub open spec fn chunk_of<T>(stream: Seq<T>, chunk_size: int, k: int) -> Seq<T> {
    stream.subrange(k * chunk_size, (k + 1) * chunk_size)
}

/// What is left of a stream once its whole chunks are taken off its front.
pub open spec fn leftover<T>(stream: Seq<T>, chunk_size: int) -> Seq<T> {
    stream.subrange(chunk_count(stream.len() as int, chunk_size) * chunk_size, stream.len() as int)
}

/// The whole chunks of a stream lie within it, and the rest is shorter than a
/// chunk.
pub proof fn lemma_chunks_fit(total: int, chunk_size: int)
    requires
        total >= 0,
        chunk_size > 0,
    ensures
        0 <= chunk_count(total, chunk_size) * chunk_size <= total,
        total - chunk_count(total, chunk_size) * chunk_size < chunk_size,
        total - chunk_count(total, chunk_size) * chunk_size == total % chunk_size,
{
    assert(total == chunk_size * (total / chunk_size) + total % chunk_size) by (nonlinear_arith)
        requires
            chunk_size > 0,
    ;
    assert(0 <= total % chunk_size < chunk_size) by (nonlinear_arith)
        requires
            chunk_size > 0,
    ;
    assert(chunk_size * (total / chunk_size) == (total / chunk_size) * chunk_size)
        by (nonlinear_arith);
    assert(0 <= (total / chunk_size) * chunk_size) by (nonlinear_arith)
        requires
            chunk_size > 0,
            total >= 0,
    ;
}

/// Chunking loses nothing and repeats nothing: every sample of a stream has its
/// one place, either in the chunk that its position falls in or in what is
/// left over.
pub proof fn lemma_chunks_partition_stream<T>(stream: Seq<T>, chunk_size: int, position: int)
    requires
        chunk_size > 0,
        0 <= position < stream.len(),
    ensures
        ({
            let released = chunk_count(stream.len() as int, chunk_size) * chunk_size;
            &&& position < released ==> {
                &&& 0 <= position / chunk_size < chunk_count(stream.len() as int, chunk_size)
                &&& chunk_of(stream, chunk_size, position / chunk_size).len() == chunk_size
                &&& chunk_of(stream, chunk_size, position / chunk_size)[position % chunk_size]
                    == stream[position]
            }
            &&& position >= released ==> leftover(stream, chunk_size)[position - released]
                == stream[position]
            &&& leftover(stream, chunk_size).len() == stream.len() - released
        }),
{
    let total = stream.len() as int;
    let count = chunk_count(total, chunk_size);
    lemma_chunks_fit(total, chunk_size);
    let k = position / chunk_size;
    let within = position % chunk_size;
    assert(position == chunk_size * k + within && 0 <= within < chunk_size) by (nonlinear_arith)
        requires
            k == position / chunk_size,
            within == position % chunk_size,
            chunk_size > 0,
    ;
    if position < count * chunk_size {
        assert(0 <= k < count) by (nonlinear_arith)
            requires
                position == chunk_size * k + within,
                0 <= within < chunk_size,
                0 <= position < count * chunk_size,
                chunk_size > 0,
        ;
        assert(k * chunk_size == chunk_size * k && (k + 1) * chunk_size == chunk_size * k
            + chunk_size && (k + 1) * chunk_size <= count * chunk_size) by (nonlinear_arith)
            requires
                k < count,
                chunk_size > 0,
        ;
    }
}

impl<T> SampleAccumulator<T> {
    /// The samples that wait for a chunk to fill up, oldest first.
    pub closed spec fn pending(&self) -> Seq<T> {
        self.buffer@
    }

    /// The chunk size chosen at construction.
    pub closed spec fn spec_chunk_size(&self) -> int {
        self.chunk_size as int
    }

    /// A chunk holds at least one sample.
    pub open spec fn wf(&self) -> bool {
        self.spec_chunk_size() > 0
    }

    /// Every full chunk has been released.
    pub open spec fn is_drained(&self) -> bool {
        self.pending().len() < self.spec_chunk_size()
    }

    /// An empty accumulator that releases chunks of `chunk_size` samples.
    pub fn new(chunk_size: usize) -> (r: Self)
        requires
            chunk_size > 0,
        ensures
            r.wf(),
            r.is_drained(),
            r.spec_chunk_size() == chunk_size,
            r.pending() == Seq::<T>::empty(),
    {
        SampleAccumulator { buffer: Vec::new(), chunk_size }
    }

    /// The chunk size chosen at construction.
    pub fn chunk_size(&self) -> (r: usize)
        ensures
            r == self.spec_chunk_size(),
    {
        self.chunk_size
    }

    /// Number of samples that wait for the next chunk.
    pub fn pending_len(&self) -> (r: usize)
        ensures
            r == self.pending().len(),
    {
        self.buffer.len()
    }

    /// Appends `samples` behind the pending ones and releases nothing.
    pub fn push_samples(&mut self, samples: Vec<T>)
        ensures
            final(self).pending() == old(self).pending() + samples@,
            final(self).spec_chunk_size() == old(self).spec_chunk_size(),
    {
        let mut samples = samples;
        self.buffer.append(&mut samples);
    }

    /// Releases the oldest chunk if one has filled up.
    pub fn take_chunk(&mut self) -> (chunk: Option<Vec<T>>)
        requires
            old(self).wf(),
        ensures
            final(self).spec_chunk_size() == old(self).spec_chunk_size(),
            chunk is Some <==> !old(self).is_drained(),
            chunk is Some ==> chunk->0@ == old(self).pending().subrange(
                0,
                old(self).spec_chunk_size(),
            ) && final(self).pending() == old(self).pending().subrange(
                old(self).spec_chunk_size(),
                old(self).pending().len() as int,
            ),
            chunk is None ==> final(self).pending() == old(self).pending(),
    {
        if self.buffer.len() < self.chunk_size {
            return None;
        }
        let rest = self.buffer.split_off(self.chunk_size);
        let mut chunk = rest;
        std::mem::swap(&mut self.buffer, &mut chunk);
        Some(chunk)
    }

    /// Appends `samples` to the pending ones and releases every chunk that has
    /// filled up. The chunks come out in stream order, each exactly one chunk
    /// size long; what is left over stays pending for the next call.
    pub fn ingest(&mut self, samples: Vec<T>) -> (chunks: Vec<Vec<T>>)
        requires
            old(self).wf(),
        ensures
            final(self).wf(),
            final(self).is_drained(),
            final(self).spec_chunk_size() == old(self).spec_chunk_size(),
            chunks@.len() == chunk_count(
                (old(self).pending() + samples@).len() as int,
                old(self).spec_chunk_size(),
            ),
            forall|k: int|
                0 <= k < chunks@.len() ==> (#[trigger] chunks@[k])@ == chunk_of(
                    old(self).pending() + samples@,
                    old(self).spec_chunk_size(),
                    k,
                ),
            final(self).pending() == leftover(
                old(self).pending() + samples@,
                old(self).spec_chunk_size(),
            ),
    {
        let ghost stream = self.buffer@ + samples@;
        let ghost size = self.chunk_size as int;
        self.push_samples(samples);
        let mut chunks: Vec<Vec<T>> = Vec::new();
        proof {
            assert(chunks@.len() * size == 0) by (nonlinear_arith)
                requires
                    chunks@.len() == 0,
            ;
            assert(self.buffer@ =~= stream.subrange(0, stream.len() as int));
        }
        loop
            invariant
                self.chunk_size == size,
                size > 0,
                chunks@.len() * size + self.buffer@.len() == stream.len(),
                self.buffer@ == stream.subrange(chunks@.len() * size, stream.len() as int),
                forall|k: int|
                    0 <= k < chunks@.len() ==> (#[trigger] chunks@[k])@ == chunk_of(stream, size, k),
            ensures
                self.buffer@.len() < size,
            decreases self.buffer@.len(),
        {
            let ghost done = chunks@.len() as int;
            proof {
                assert((done + 1) * size == done * size + size) by (nonlinear_arith);
            }
            match self.take_chunk() {
                Some(chunk) => {
                    assert(chunk@ =~= chunk_of(stream, size, done));
                    assert(self.buffer@ =~= stream.subrange(
                        (done + 1) * size,
                        stream.len() as int,
                    ));
                    chunks.push(chunk);
                },
                None => {
                    break ;
                },
            }
        }
        proof {
            let n = chunks@.len() as int;
            let total = stream.len() as int;
            assert(n == total / size) by (nonlinear_arith)
                requires
                    size > 0,
                    n >= 0,
                    n * size <= total < n * size + size,
            ;
        }
        chunks
    }
}

} // verus!
