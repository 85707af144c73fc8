//! Cutting a file of known length into fixed-size chunks.
//!
//! A file of `total` bytes cut at `size` bytes per chunk has
//! `ceil(total / size)` chunks. Chunk `i` starts at byte `i * size`; every
//! chunk is `size` bytes long except possibly the last, which holds the rest.

use crate::error::UploadError;
use vstd::arithmetic::div_mod::{lemma_fundamental_div_mod, lemma_mod_bound};
use vstd::arithmetic::mul::{
    lemma_mul_inequality, lemma_mul_is_commutative, lemma_mul_is_distributive_add,
};
use vstd::prelude::*;

verus! {

/// Number of chunks: the quotient rounded up.
pub open spec fn chunk_count(total: nat, size: nat) -> nat
    recommends
        size > 0,
{
    if total % size == 0 {
        total / size
    } else {
        total / size + 1
    }
}

/// Byte offset at which chunk `index` starts.
pub open spec fn chunk_offset(size: nat, index: nat) -> nat {
    index * size
}

/// Length of chunk `index`: a full chunk, or what is left of the file.
pub open spec fn chunk_length(total: nat, size: nat, index: nat) -> nat
    recommends
        size > 0,
        index < chunk_count(total, size),
{
    if (index + 1) * size <= total {
        size
    } else {
        (total - index * size) as nat
    }
}

/// Sum of the lengths of the first `n` chunks.
pub open spec fn lengths_sum(total: nat, size: nat, n: nat) -> nat
    decreases n,
{
    if n == 0 {
        0
    } else {
        lengths_sum(total, size, (n - 1) as nat) + chunk_length(total, size, (n - 1) as nat)
    }
}

/// The chunk count is the least number of `size`-byte pieces that hold
/// `total` bytes.
pub proof fn chunk_count_is_ceiling(total: nat, size: nat)
    requires
        size > 0,
    ensures
        chunk_count(total, size) * size >= total,
        total > 0 ==> (chunk_count(total, size) - 1) * size < total,
        total == 0 ==> chunk_count(total, size) == 0,
        chunk_count(total, size) <= total,
{
    let q = (total / size) as int;
    let r = (total % size) as int;
    let d = size as int;
    lemma_fundamental_div_mod(total as int, d);
    lemma_mod_bound(total as int, d);
    lemma_mul_is_commutative(d, q);
    assert(total == q * d + r);
    assert((q + 1) * d == q * d + d) by (nonlinear_arith);
    assert((q - 1) * d == q * d - d) by (nonlinear_arith);
    assert(q >= 0) by (nonlinear_arith)
        requires
            q * d + r >= 0,
            r < d,
            d > 0,
    ;
    assert(q * d >= q) by (nonlinear_arith)
        requires
            q >= 0,
            d >= 1,
    ;
}

/// Every chunk that exists starts inside the file, is not empty and ends
/// inside the file; all but the last are full.
pub proof fn chunk_bounds(total: nat, size: nat, index: nat)
    requires
        size > 0,
        index < chunk_count(total, size),
    ensures
        chunk_offset(size, index) < total,
        0 < chunk_length(total, size, index) <= size,
        chunk_offset(size, index) + chunk_length(total, size, index) <= total,
        index + 1 < chunk_count(total, size) ==> chunk_length(total, size, index) == size,
        index + 1 == chunk_count(total, size) ==> chunk_offset(size, index) + chunk_length(
            total,
            size,
            index,
        ) == total,
{
    chunk_count_is_ceiling(total, size);
    let n = chunk_count(total, size) as int;
    let i = index as int;
    let d = size as int;
    assert(i * d <= (n - 1) * d) by (nonlinear_arith)
        requires
            i <= n - 1,
            d > 0,
    ;
    assert((i + 1) * d == i * d + d) by (nonlinear_arith);
    if i + 1 < n {
        assert((i + 1) * d <= (n - 1) * d) by (nonlinear_arith)
            requires
                i + 1 <= n - 1,
                d > 0,
        ;
    }
}

/// The first `n` chunks together hold the first `n * size` bytes, or the
/// whole file once `n` reaches the chunk count.
pub proof fn lengths_sum_closed_form(total: nat, size: nat, n: nat)
    requires
        size > 0,
        n <= chunk_count(total, size),
    ensures
        lengths_sum(total, size, n) == if n == chunk_count(total, size) {
            total
        } else {
            n * size
        },
        lengths_sum(total, size, n) <= total,
    decreases n,
{
    chunk_count_is_ceiling(total, size);
    if n > 0 {
        let k = (n - 1) as nat;
        lengths_sum_closed_form(total, size, k);
        chunk_bounds(total, size, k);
        assert(n * size == k * size + size) by (nonlinear_arith)
            requires
                n == k + 1,
        ;
        if n < chunk_count(total, size) {
            chunk_bounds(total, size, n);
        }
    } else {
        assert(n * size == 0) by (nonlinear_arith)
            requires
                n == 0,
        ;
    }
}

/// A file is cut into `ceil(total / size)` chunks whose lengths add up to the
/// length of the file.
pub proof fn chunks_cover_file(total: nat, size: nat)
    requires
        size > 0,
    ensures
        chunk_count(total, size) * size >= total,
        total > 0 ==> (chunk_count(total, size) - 1) * size < total,
        lengths_sum(total, size, chunk_count(total, size)) == total,
{
    chunk_count_is_ceiling(total, size);
    lengths_sum_closed_form(total, size, chunk_count(total, size));
}

/// One chunk of the file: where it starts and how long it is. The bytes
/// themselves are read by whoever transmits the chunk.
#[derive(Clone, Copy, Debug, PartialEq, Eq, Structural)]
pub struct Chunk {
    /// Position of the chunk in the file, counted from zero.
    pub index: u64,
    /// Byte offset of the chunk's first byte.
    pub offset: u64,
    /// Number of bytes in the chunk.
    pub length: u32,
}

/// The chunk of a file at a position, as the cutting rule gives it.
pub open spec fn chunk_of(total: nat, size: nat, index: nat) -> Chunk {
    Chunk {
        index: index as u64,
        offset: chunk_offset(size, index) as u64,
        length: chunk_length(total, size, index) as u32,
    }
}

/// What a [`ChunkSource`] stands for: the file's length, the chunk size and
/// how many chunks have been handed out.
pub struct ChunkSourceView {
    pub total: nat,
    pub size: nat,
    pub next: nat,
}

impl ChunkSourceView {
    /// Number of chunks the file is cut into.
    pub open spec fn count(self) -> nat {
        chunk_count(self.total, self.size)
    }

    /// The chunk size is positive and no more chunks were handed out than
    /// there are.
    pub open spec fn wf(self) -> bool {
        &&& 0 < self.size <= u32::MAX
        &&& self.total <= u64::MAX
        &&& self.next <= self.count()
    }
}

/// A file seen as a finite sequence of chunks, handed out in order of
/// increasing offset. Any chunk can be described again by its index, so a
/// failed chunk is re-read without disturbing the others.
#[derive(Clone, Copy, Debug)]
pub struct ChunkSource {
    total_size: u64,
    chunk_size: u32,
    next_index: u64,
}

impl View for ChunkSource {
    type V = ChunkSourceView;

    closed spec fn view(&self) -> ChunkSourceView {
        ChunkSourceView {
            total: self.total_size as nat,
            size: self.chunk_size as nat,
            next: self.next_index as nat,
        }
    }
}

impl ChunkSource {
    /// The invariant of a chunk source.
    pub open spec fn wf(&self) -> bool {
        self@.wf()
    }

    /// A source over a file of `total_size` bytes cut at `chunk_size` bytes,
    /// positioned before the first chunk. A chunk size of zero cuts nothing
    /// and gives no source.
    pub fn new(total_size: u64, chunk_size: u32) -> (source: Option<ChunkSource>)
        ensures
            source is Some <==> chunk_size > 0,
            source matches Some(s) ==> s.wf() && s@ == (ChunkSourceView {
                total: total_size as nat,
                size: chunk_size as nat,
                next: 0,
            }),
    {
        if chunk_size == 0 {
            None
        } else {
            Some(ChunkSource { total_size, chunk_size, next_index: 0 })
        }
    }

    /// A source for a file that was just opened: `length` is the length that
    /// opening it gave, or `None` where it could not be opened. A file that
    /// could not be opened, or that is to be read in chunks of no bytes, gives
    /// `IoError`.
    pub fn open(length: Option<u64>, chunk_size: u32) -> (source: Result<ChunkSource, UploadError>)
        ensures
            source is Ok <==> length is Some && chunk_size > 0,
            source matches Ok(s) ==> s.wf() && s@ == (ChunkSourceView {
                total: length->0 as nat,
                size: chunk_size as nat,
                next: 0,
            }),
            source matches Err(error) ==> error == UploadError::IoError,
    {
        match length {
            Some(total_size) => match ChunkSource::new(total_size, chunk_size) {
                Some(source) => Ok(source),
                None => Err(UploadError::IoError),
            },
            None => Err(UploadError::IoError),
        }
    }

    /// The same file cut the same way, positioned before the first chunk.
    pub fn rewound(&self) -> (source: ChunkSource)
        requires
            self.wf(),
        ensures
            source.wf(),
            source@ == (ChunkSourceView { next: 0, ..self@ }),
    {
        ChunkSource { total_size: self.total_size, chunk_size: self.chunk_size, next_index: 0 }
    }

    /// Length of the file in bytes.
    pub fn total_size(&self) -> (total: u64)
        ensures
            total == self@.total,
    {
        self.total_size
    }

    /// Length of every chunk but the last.
    pub fn chunk_size(&self) -> (size: u32)
        ensures
            size == self@.size,
    {
        self.chunk_size
    }

    /// Number of chunks handed out so far.
    pub fn position(&self) -> (next: u64)
        ensures
            next == self@.next,
    {
        self.next_index
    }

    /// Number of chunks the file is cut into.
    pub fn chunk_count(&self) -> (count: u64)
        requires
            self.wf(),
        ensures
            count == self@.count(),
    {
        proof {
            chunk_count_is_ceiling(self@.total, self@.size);
        }
        let size: u64 = self.chunk_size as u64;
        let whole: u64 = self.total_size / size;
        if self.total_size % size == 0 {
            whole
        } else {
            whole + 1
        }
    }

    /// The chunk at `index`, or `None` past the end of the file. Asking again
    /// gives the same chunk and does not move the source.
    pub fn chunk_at(&self, index: u64) -> (chunk: Option<Chunk>)
        requires
            self.wf(),
        ensures
            chunk is Some <==> index < self@.count(),
            chunk matches Some(c) ==> c == chunk_of(self@.total, self@.size, index as nat),
            chunk matches Some(c) ==> c.index == index && c.offset == index * self@.size
                && c.length == chunk_length(self@.total, self@.size, index as nat),
    {
        let count: u64 = self.chunk_count();
        if index >= count {
            return None;
        }
        proof {
            chunk_bounds(self@.total, self@.size, index as nat);
            assert((index + 1) * self@.size == index * self@.size + self@.size)
                by (nonlinear_arith);
        }
        let size: u64 = self.chunk_size as u64;
        let offset: u64 = index * size;
        let rest: u64 = self.total_size - offset;
        let length: u32 = if rest >= size {
            self.chunk_size
        } else {
            rest as u32
        };
        Some(Chunk { index, offset, length })
    }

    /// Hands out the next chunk and moves past it; `None`, with the source
    /// unchanged, once every chunk has been handed out.
    pub fn next_chunk(&mut self) -> (chunk: Option<Chunk>)
        requires
            old(self).wf(),
        ensures
            final(self).wf(),
            final(self)@.total == old(self)@.total,
            final(self)@.size == old(self)@.size,
            chunk is Some <==> old(self)@.next < old(self)@.count(),
            chunk matches Some(c) ==> c == chunk_of(
                old(self)@.total,
                old(self)@.size,
                old(self)@.next,
            ) && final(self)@.next == old(self)@.next + 1,
            chunk is None ==> final(self)@ == old(self)@,
    {
        proof {
            chunk_count_is_ceiling(self@.total, self@.size);
        }
        let chunk = self.chunk_at(self.next_index);
        if chunk.is_some() {
            self.next_index = self.next_index + 1;
        }
        chunk
    }

    /// Number of chunks not handed out yet.
    pub fn remaining(&self) -> (left: u64)
        requires
            self.wf(),
        ensures
            left == self@.count() - self@.next,
    {
        self.chunk_count() - self.next_index
    }
}

} // verus!
