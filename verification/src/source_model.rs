//! The source block cache as a mathematical object.
//!
//! The source is read forward only, one block after the other. A block is
//! complete when it holds a full block's bytes or when a read brings no
//! bytes. The cache keeps the newest blocks and lets the oldest go when a
//! new block is begun and the cache is full.

use vstd::prelude::*;

verus! {

/// Number of blocks that make up the source window.
pub const SOURCE_BLOCK_COUNT: u64 = 32;

/// Number of blocks the cache keeps: enough for every block that a stretch
/// of one source window's length can touch.
pub const RESIDENT_BLOCKS: u64 = 33;

/// What the driver and the engine tell each other about the source.
#[derive(Clone, Copy, Debug, PartialEq, Eq, Structural)]
pub struct SourceDescriptor {
    /// Size of every block but a last, shorter one.
    pub block_size: u32,
    /// Most source bytes the engine may look back over.
    pub max_source_window: u64,
    /// The block that the descriptor describes.
    pub current_block_index: u64,
    /// The block that the engine asked for last.
    pub requested_block_index: u64,
    /// Number of bytes in the current block.
    pub current_block_length: u32,
    /// Whether the end of the source has been seen.
    pub eof_known: bool,
    /// Index of the last block, once the end has been seen; until then the
    /// current block.
    pub max_block_index: u64,
    /// Length of the last block, once the end has been seen; until then the
    /// length of the current block.
    pub last_block_length: u32,
}

/// Number of bytes in all of `blocks`.
pub open spec fn total_len(blocks: Seq<Seq<u8>>) -> nat
    decreases blocks.len(),
{
    if blocks.len() == 0 {
        0
    } else {
        total_len(blocks.drop_last()) + blocks.last().len()
    }
}

/// The bytes of all of `blocks`, one block after the other.
pub open spec fn concat(blocks: Seq<Seq<u8>>) -> Seq<u8>
    decreases blocks.len(),
{
    if blocks.len() == 0 {
        Seq::empty()
    } else {
        concat(blocks.drop_last()) + blocks.last()
    }
}

/// State of the source block cache.
pub struct CacheModel {
    /// Size of a full block, in bytes.
    pub block_size: nat,
    /// Most blocks kept at once, the one being filled included.
    pub capacity: nat,
    /// Every block completed so far; a block's index is its position.
    pub blocks: Seq<Seq<u8>>,
    /// Index of the oldest block still kept.
    pub lowest: nat,
    /// Bytes of the block being filled, if one has been begun.
    pub pending: Option<Seq<u8>>,
    /// Whether a read has brought no bytes.
    pub eof: bool,
    /// The descriptor as the engine sees it.
    pub desc: SourceDescriptor,
    /// Whether the block the descriptor describes is still kept.
    pub current_valid: bool,
}

impl CacheModel {
    /// The cache before anything was read.
    pub open spec fn init(block_size: u32, max_source_window: u64, capacity: nat) -> CacheModel {
        CacheModel {
            block_size: block_size as nat,
            capacity,
            blocks: Seq::empty(),
            lowest: 0,
            pending: None,
            eof: false,
            desc: SourceDescriptor {
                block_size,
                max_source_window,
                current_block_index: 0,
                requested_block_index: 0,
                current_block_length: 0,
                eof_known: false,
                max_block_index: 0,
                last_block_length: 0,
            },
            current_valid: false,
        }
    }

    /// Number of blocks completed so far, which is the index of the next one.
    pub open spec fn fetched(self) -> nat {
        self.blocks.len()
    }

    /// Number of completed blocks still kept.
    pub open spec fn resident(self) -> nat {
        (self.blocks.len() - self.lowest) as nat
    }

    /// Whether block `k` is kept.
    pub open spec fn holds(self, k: nat) -> bool {
        self.lowest <= k < self.blocks.len()
    }

    /// Number of bytes in the block being filled.
    pub open spec fn filled(self) -> nat {
        match self.pending {
            Some(p) => p.len(),
            None => 0,
        }
    }

    /// Number of slots taken by a block being filled: one or none.
    pub open spec fn filling(self) -> nat {
        if self.pending is Some {
            1
        } else {
            0
        }
    }

    /// Most bytes the next read may bring.
    pub open spec fn wanted(self) -> nat {
        (self.block_size - self.filled()) as nat
    }

    /// Number of source bytes read so far.
    pub open spec fn total(self) -> nat {
        total_len(self.blocks) + self.filled()
    }

    /// Every source byte read so far, in the order read.
    pub open spec fn stream(self) -> Seq<u8> {
        match self.pending {
            Some(p) => concat(self.blocks) + p,
            None => concat(self.blocks),
        }
    }

    /// Index of the oldest block kept under the eviction rule: nothing goes
    /// while there is room, and then exactly the oldest goes.
    pub open spec fn oldest_kept(self) -> nat {
        if self.fetched() + self.filling() > self.capacity {
            (self.fetched() + self.filling() - self.capacity) as nat
        } else {
            0
        }
    }

    /// What holds of every state the cache can reach.
    pub open spec fn inv(self) -> bool {
        &&& 1 <= self.block_size <= u32::MAX
        &&& 1 <= self.capacity
        &&& self.lowest == self.oldest_kept()
        &&& forall|i: int| 0 <= i < self.blocks.len() ==> (#[trigger] self.blocks[i]).len() <= self.block_size
        &&& !self.eof ==> forall|i: int| 0 <= i < self.blocks.len() ==> (#[trigger] self.blocks[i]).len() == self.block_size
        &&& self.eof ==> self.blocks.len() >= 1
        &&& total_len(self.blocks) <= self.blocks.len() * self.block_size
        &&& !self.eof ==> total_len(self.blocks) == self.blocks.len() * self.block_size
        &&& self.filled() < self.block_size
        &&& self.desc.block_size == self.block_size
        &&& self.current_valid ==> {
            &&& self.holds(self.desc.current_block_index as nat)
            &&& self.desc.current_block_length == self.blocks[self.desc.current_block_index as int].len()
        }
    }

    /// Whether beginning a block now lets the oldest block go.
    pub open spec fn evicts(self) -> bool {
        self.pending is None && self.resident() >= self.capacity
    }

    /// Whether a read that brings `chunk` completes a block.
    pub open spec fn completes(self, chunk: Seq<u8>) -> bool {
        chunk.len() == 0 || self.filled() + chunk.len() >= self.block_size
    }

    /// The cache after a read from the source has brought `chunk`. An empty
    /// `chunk` is the end of the source.
    pub open spec fn supply(self, chunk: Seq<u8>) -> CacheModel {
        let lowest = if self.evicts() {
            self.lowest + 1
        } else {
            self.lowest
        };
        let block = match self.pending {
            Some(p) => p + chunk,
            None => chunk,
        };
        CacheModel {
            blocks: if self.completes(chunk) {
                self.blocks.push(block)
            } else {
                self.blocks
            },
            lowest,
            pending: if self.completes(chunk) {
                None
            } else {
                Some(block)
            },
            eof: self.eof || chunk.len() == 0,
            current_valid: self.current_valid && self.desc.current_block_index >= lowest,
            ..self
        }
    }

    /// The descriptor of block `k`, which must be kept.
    pub open spec fn describe(self, k: u64) -> SourceDescriptor {
        let len = self.blocks[k as int].len() as u32;
        SourceDescriptor {
            block_size: self.desc.block_size,
            max_source_window: self.desc.max_source_window,
            current_block_index: k,
            requested_block_index: k,
            current_block_length: len,
            eof_known: self.eof,
            max_block_index: if self.eof {
                (self.blocks.len() - 1) as u64
            } else {
                k
            },
            last_block_length: if self.eof {
                (self.total() % self.block_size) as u32
            } else {
                len
            },
        }
    }

    /// The cache after block `k`, which is kept, was made the current block.
    pub open spec fn select(self, k: u64) -> CacheModel {
        CacheModel { desc: self.describe(k), current_valid: true, ..self }
    }

    /// The cache after block `k`, which is still to be read, was asked for.
    pub open spec fn request(self, k: u64) -> CacheModel {
        CacheModel { desc: SourceDescriptor { requested_block_index: k, ..self.desc }, ..self }
    }

    /// The cache after the reads `chunks`, in their order.
    pub open spec fn run(self, chunks: Seq<Seq<u8>>) -> CacheModel
        decreases chunks.len(),
    {
        if chunks.len() == 0 {
            self
        } else {
            self.run(chunks.drop_last()).supply(chunks.last())
        }
    }

    /// Whether no read of `chunks` brings more than was asked for.
    pub open spec fn accepts(self, chunks: Seq<Seq<u8>>) -> bool
        decreases chunks.len(),
    {
        chunks.len() == 0 || {
            &&& self.accepts(chunks.drop_last())
            &&& chunks.last().len() <= self.run(chunks.drop_last()).wanted()
        }
    }

    /// Whether every read of `chunks` completes a block: it brings all that
    /// was asked for, or nothing.
    pub open spec fn fills(self, chunks: Seq<Seq<u8>>) -> bool
        decreases chunks.len(),
    {
        chunks.len() == 0 || {
            &&& self.fills(chunks.drop_last())
            &&& self.run(chunks.drop_last()).completes(chunks.last())
        }
    }

    /// Number of blocks that the reads `chunks` complete.
    pub open spec fn completed(self, chunks: Seq<Seq<u8>>) -> nat
        decreases chunks.len(),
    {
        if chunks.len() == 0 {
            0
        } else {
            self.completed(chunks.drop_last()) + if self.run(chunks.drop_last()).completes(
                chunks.last(),
            ) {
                1nat
            } else {
                0nat
            }
        }
    }
}

/// Appending a block adds its length to the total.
pub proof fn lemma_total_len_push(blocks: Seq<Seq<u8>>, block: Seq<u8>)
    ensures
        total_len(blocks.push(block)) == total_len(blocks) + block.len(),
{
    assert(blocks.push(block).drop_last() =~= blocks);
}

/// `concat` has `total_len` bytes.
pub proof fn lemma_concat_len(blocks: Seq<Seq<u8>>)
    ensures
        concat(blocks).len() == total_len(blocks),
    decreases blocks.len(),
{
    if blocks.len() > 0 {
        lemma_concat_len(blocks.drop_last());
    }
}

/// Where the blocks before block `k` all hold `size` bytes, block `k` is the
/// stretch of `concat(blocks)` that begins at `k * size`.
pub proof fn lemma_concat_block(blocks: Seq<Seq<u8>>, size: nat, k: int)
    requires
        0 <= k < blocks.len(),
        forall|i: int| 0 <= i < k ==> (#[trigger] blocks[i]).len() == size,
    ensures
        k * size + blocks[k].len() <= concat(blocks).len(),
        concat(blocks).subrange(k * size, k * size + blocks[k].len()) == blocks[k],
    decreases blocks.len(),
{
    let front = blocks.drop_last();
    let n = blocks.len() as int;
    if k == n - 1 {
        assert forall|i: int| 0 <= i < front.len() implies (#[trigger] front[i]).len() == size by {
            assert(front[i] == blocks[i]);
        }
        lemma_concat_full(front, size);
        assert(concat(blocks).subrange(k * size, k * size + blocks[k].len()) =~= blocks[k]);
    } else {
        assert forall|i: int| 0 <= i < k implies (#[trigger] front[i]).len() == size by {
            assert(front[i] == blocks[i]);
        }
        assert(front[k] == blocks[k]);
        lemma_concat_block(front, size, k);
        assert(concat(blocks).subrange(k * size, k * size + blocks[k].len()) =~= concat(
            front,
        ).subrange(k * size, k * size + blocks[k].len()));
    }
}

/// Blocks that all hold `size` bytes hold `len * size` bytes together.
pub proof fn lemma_concat_full(blocks: Seq<Seq<u8>>, size: nat)
    requires
        forall|i: int| 0 <= i < blocks.len() ==> (#[trigger] blocks[i]).len() == size,
    ensures
        concat(blocks).len() == blocks.len() * size,
    decreases blocks.len(),
{
    if blocks.len() > 0 {
        let front = blocks.drop_last();
        assert forall|i: int| 0 <= i < front.len() implies (#[trigger] front[i]).len() == size by {
            assert(front[i] == blocks[i]);
        }
        lemma_concat_full(front, size);
        let n = front.len() as int;
        let b = size as int;
        assert((n + 1) * b == n * b + b) by (nonlinear_arith);
    }
}

/// A read adds its bytes to the end of the stream, and `total` counts the
/// bytes of the stream.
pub proof fn law_stream_grows(m: CacheModel, chunk: Seq<u8>)
    ensures
        m.supply(chunk).stream() == m.stream() + chunk,
        m.stream().len() == m.total(),
{
    let block = match m.pending {
        Some(p) => p + chunk,
        None => chunk,
    };
    lemma_concat_len(m.blocks);
    if m.completes(chunk) {
        assert(m.blocks.push(block).drop_last() =~= m.blocks);
        assert(m.supply(chunk).stream() =~= m.stream() + chunk);
    } else {
        assert(m.supply(chunk).stream() =~= m.stream() + chunk);
    }
}

/// A block that is served holds the bytes of the source at its place: block
/// `k` is the stretch of the stream that begins at `k * block_size`, as long
/// as every block before it is a full one. That is so for every block while
/// the end of the source has not been seen.
pub proof fn law_block_is_stretch_of_source(m: CacheModel, k: nat)
    requires
        m.inv(),
        k < m.fetched(),
        forall|i: int| 0 <= i < k ==> (#[trigger] m.blocks[i]).len() == m.block_size,
    ensures
        k * m.block_size + m.blocks[k as int].len() <= m.stream().len(),
        m.stream().subrange(
            (k * m.block_size) as int,
            (k * m.block_size + m.blocks[k as int].len()) as int,
        ) == m.blocks[k as int],
{
    lemma_concat_block(m.blocks, m.block_size, k as int);
    let lo = (k * m.block_size) as int;
    let hi = lo + m.blocks[k as int].len();
    assert(m.stream().subrange(lo, hi) =~= concat(m.blocks).subrange(lo, hi));
}

/// A read that brings no more than was asked for keeps the cache in order,
/// adds its bytes to the total, and completes one block or none.
pub proof fn lemma_supply(m: CacheModel, chunk: Seq<u8>)
    requires
        m.inv(),
        chunk.len() <= m.wanted(),
    ensures
        m.supply(chunk).inv(),
        m.supply(chunk).total() == m.total() + chunk.len(),
        m.supply(chunk).fetched() == m.fetched() + if m.completes(chunk) {
            1nat
        } else {
            0nat
        },
        m.supply(chunk).eof == (m.eof || chunk.len() == 0),
{
    let after = m.supply(chunk);
    let block = match m.pending {
        Some(p) => p + chunk,
        None => chunk,
    };
    let n = m.blocks.len() as int;
    let b = m.block_size as int;
    assert(block.len() == m.filled() + chunk.len());
    assert((n + 1) * b == n * b + b) by (nonlinear_arith);
    if m.completes(chunk) {
        lemma_total_len_push(m.blocks, block);
        assert forall|i: int| 0 <= i < after.blocks.len() implies (#[trigger] after.blocks[i]).len()
            <= after.block_size by {
            if i < n {
                assert(after.blocks[i] == m.blocks[i]);
            }
        }
        if !after.eof {
            assert forall|i: int| 0 <= i < after.blocks.len() implies (
            #[trigger] after.blocks[i]).len() == after.block_size by {
                if i < n {
                    assert(after.blocks[i] == m.blocks[i]);
                }
            }
        }
    }
    if after.current_valid {
        assert(after.blocks[after.desc.current_block_index as int]
            == m.blocks[m.desc.current_block_index as int]);
    }
}

/// Making a kept block the current one keeps the cache in order.
pub proof fn lemma_select(m: CacheModel, k: u64)
    requires
        m.inv(),
        m.holds(k as nat),
    ensures
        m.select(k).inv(),
{
}

/// While the end of the source has not been seen, every block served is a
/// full block: a shorter one is served only once a read has shown that the
/// source ends there.
pub proof fn law_short_block_only_at_end(m: CacheModel, k: nat)
    requires
        m.inv(),
        m.holds(k),
        m.blocks[k as int].len() < m.block_size,
    ensures
        m.eof,
{
}

/// The cache keeps at most `capacity` blocks, and never lets go of one of the
/// newest `capacity - 1`.
pub proof fn law_retention(m: CacheModel, k: nat)
    requires
        m.inv(),
    ensures
        m.resident() + m.filling() <= m.capacity,
        k < m.fetched() && m.fetched() - k < m.capacity ==> m.holds(k),
        m.pending is None && k + 1 == m.fetched() ==> m.holds(k),
{
}

/// A run of reads keeps the cache in order, and the number of blocks grows
/// by the number of blocks that the run completes.
pub proof fn lemma_run(m: CacheModel, chunks: Seq<Seq<u8>>)
    requires
        m.inv(),
        m.accepts(chunks),
    ensures
        m.run(chunks).inv(),
        m.run(chunks).fetched() == m.fetched() + m.completed(chunks),
        m.run(chunks).block_size == m.block_size,
        m.run(chunks).capacity == m.capacity,
    decreases chunks.len(),
{
    if chunks.len() > 0 {
        lemma_run(m, chunks.drop_last());
        lemma_supply(m.run(chunks.drop_last()), chunks.last());
    }
}

/// To serve block `k` that has not been read yet, exactly
/// `k - fetched + 1` more blocks have to be read: fewer never make it
/// available, and once that many are complete it is there.
pub proof fn law_fetches_needed(m: CacheModel, chunks: Seq<Seq<u8>>, k: nat)
    requires
        m.inv(),
        m.accepts(chunks),
        k >= m.fetched(),
    ensures
        m.completed(chunks) < k - m.fetched() + 1 ==> !m.run(chunks).holds(k),
        m.completed(chunks) == k - m.fetched() + 1 && m.run(chunks).pending is None ==> m.run(
            chunks,
        ).holds(k),
{
    lemma_run(m, chunks);
    law_retention(m.run(chunks), k);
}

/// Where every read completes a block, each read counts for one block.
pub proof fn lemma_full_reads(m: CacheModel, chunks: Seq<Seq<u8>>)
    requires
        m.fills(chunks),
    ensures
        m.completed(chunks) == chunks.len(),
        chunks.len() > 0 ==> m.run(chunks).pending is None,
    decreases chunks.len(),
{
    if chunks.len() > 0 {
        lemma_full_reads(m, chunks.drop_last());
    }
}

/// With reads that each bring a whole block, or nothing at the end of the
/// source, block `k` that has not been read yet is there after exactly
/// `k - fetched + 1` reads, and not before.
pub proof fn law_reads_needed(m: CacheModel, chunks: Seq<Seq<u8>>, k: nat)
    requires
        m.inv(),
        m.accepts(chunks),
        m.fills(chunks),
        k >= m.fetched(),
    ensures
        chunks.len() < k - m.fetched() + 1 ==> !m.run(chunks).holds(k),
        chunks.len() == k - m.fetched() + 1 ==> m.run(chunks).holds(k),
{
    lemma_full_reads(m, chunks);
    law_fetches_needed(m, chunks, k);
}

/// When the end of the source is first seen, the number of bytes read is the
/// length `L` of the source, the last block is block `L / B`, and it holds
/// `L % B` bytes. Where `B` does not divide `L`, that index is
/// `ceil(L / B) - 1`.
pub proof fn law_end_of_source(m: CacheModel, k: u64)
    requires
        m.inv(),
        !m.eof,
        m.blocks.len() < u64::MAX,
    ensures
        ({
            let end = m.supply(Seq::empty());
            let len = m.total() as int;
            let b = m.block_size as int;
            &&& end.eof
            &&& end.total() == len
            &&& end.fetched() == len / b + 1
            &&& end.blocks.last().len() == len % b
            &&& end.holds(k as nat) ==> {
                &&& end.describe(k).eof_known
                &&& end.describe(k).max_block_index == len / b
                &&& end.describe(k).last_block_length == len % b
            }
            &&& len % b != 0 ==> len / b == (len + b - 1) / b - 1
        }),
{
    let end = m.supply(Seq::<u8>::empty());
    let len = m.total() as int;
    let b = m.block_size as int;
    let n = m.blocks.len() as int;
    let r = m.filled() as int;
    lemma_supply(m, Seq::<u8>::empty());
    assert(len == n * b + r);
    assert(len / b == n && len % b == r) by (nonlinear_arith)
        requires
            len == n * b + r,
            0 <= r < b,
    ;
    let block = match m.pending {
        Some(p) => p + Seq::<u8>::empty(),
        None => Seq::<u8>::empty(),
    };
    assert(end.blocks.last() == block);
    assert(block.len() == r);
    if r != 0 {
        assert((len + b - 1) / b == n + 1) by (nonlinear_arith)
            requires
                len == n * b + r,
                0 < r < b,
        ;
    }
}

} // verus!
