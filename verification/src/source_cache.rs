//! The source block cache: blocks of a forward-only source, served on demand.
//!
//! The cache reads nothing itself. It says how many bytes it wants next, and
//! the caller reports what a read from the source brought.

use std::collections::BTreeMap;
use vstd::prelude::*;
use vstd::arithmetic::power2::{lemma2_to64, lemma_pow2_strictly_increases, lemma_pow2_subtracts, pow2};
use crate::config::Xd3Config;
use crate::pow2::is_power_of_two;
use crate::error::{ReadEvent, Xd3Error};
use crate::source_model::{
    lemma_select, lemma_supply, lemma_total_len_push, CacheModel, SourceDescriptor,
    RESIDENT_BLOCKS, SOURCE_BLOCK_COUNT,
};

verus! {

/// The block size that a well-formed configuration gives, where it can be
/// used at all, is a power of two.
pub proof fn law_block_size_is_power_of_two(cfg: &Xd3Config)
    requires
        cfg.wf(),
        SrcBuffer::block_size_ok(cfg),
    ensures
        is_power_of_two((cfg.spec_source_window_size() / SOURCE_BLOCK_COUNT) as int),
{
    let size = cfg.spec_source_window_size() as int;
    let k = choose|k: nat| pow2(k) == size;
    lemma2_to64();
    if k < 5 {
        lemma_pow2_strictly_increases(k, 5);
    }
    lemma_pow2_subtracts(5, k);
    assert(pow2((k - 5) as nat) == size / 32);
}

/// One block of the source as it was read.
pub struct CacheEntry {
    len: usize,
    buf: Vec<u8>,
}

/// Whether a block can be handed to the engine yet.
#[derive(Clone, Copy, Debug, PartialEq, Eq, Structural)]
pub enum BlockStatus {
    /// The block is the current block of the descriptor.
    Ready,
    /// The block has not been read yet: read up to this many bytes from the
    /// source and report them.
    NeedRead(usize),
}

/// The source block cache.
pub struct SrcBuffer {
    src: SourceDescriptor,
    read_len: u128,
    eof_known: bool,
    block_offset: u64,
    block_len: usize,
    lowest: u64,
    cache: BTreeMap<u64, CacheEntry>,
    pending: Option<CacheEntry>,
    current_valid: bool,
    blocks: Ghost<Seq<Seq<u8>>>,
}

impl View for SrcBuffer {
    type V = CacheModel;

    closed spec fn view(&self) -> CacheModel {
        CacheModel {
            block_size: self.block_len as nat,
            capacity: RESIDENT_BLOCKS as nat,
            blocks: self.blocks@,
            lowest: self.lowest as nat,
            pending: match self.pending {
                Some(e) => Some(e.buf@),
                None => None,
            },
            eof: self.eof_known,
            desc: self.src,
            current_valid: self.current_valid,
        }
    }
}

impl SrcBuffer {
    /// The fields agree with the model, and the map holds the kept blocks.
    pub closed spec fn repr(&self) -> bool {
        &&& self.block_offset == self.blocks@.len()
        &&& self.read_len == self@.total()
        &&& forall|k: u64| #[trigger]
            self.cache@.contains_key(k) <==> self.lowest <= k < self.block_offset
        &&& forall|k: u64|
            self.lowest <= k < self.block_offset ==> {
                &&& (#[trigger] self.cache@[k]).buf@ == self.blocks@[k as int]
                &&& self.cache@[k].len == self.cache@[k].buf@.len()
            }
        &&& match self.pending {
            Some(e) => e.len == e.buf@.len(),
            None => true,
        }
    }

    /// The cache is in a state it can reach, and keeps `RESIDENT_BLOCKS` blocks.
    pub open spec fn wf(&self) -> bool {
        &&& self@.inv()
        &&& self@.capacity == RESIDENT_BLOCKS
        &&& self@.fetched() <= u64::MAX
        &&& self.repr()
    }

    /// Whether `cfg` gives a block size that can be used: at least one byte,
    /// and a length that fits the descriptor.
    pub open spec fn block_size_ok(cfg: &Xd3Config) -> bool {
        1 <= cfg.spec_source_window_size() / SOURCE_BLOCK_COUNT <= u32::MAX
    }

    /// An empty cache for a source window of the size in `cfg`, cut into
    /// `SOURCE_BLOCK_COUNT` blocks.
    pub fn new(cfg: &Xd3Config) -> (r: Result<SrcBuffer, Xd3Error>)
        ensures
            match r {
                Ok(b) => {
                    &&& Self::block_size_ok(cfg)
                    &&& b.wf()
                    &&& b@ == CacheModel::init(
                        (cfg.spec_source_window_size() / SOURCE_BLOCK_COUNT) as u32,
                        cfg.spec_source_window_size(),
                        RESIDENT_BLOCKS as nat,
                    )
                },
                Err(e) => e == Xd3Error::ConfigurationError && !Self::block_size_ok(cfg),
            },
    {
        let max_winsize: u64 = cfg.source_window();
        let blksize: u64 = max_winsize / SOURCE_BLOCK_COUNT;
        if blksize == 0 || blksize > 0xFFFF_FFFF {
            return Err(Xd3Error::ConfigurationError);
        }
        let src = SourceDescriptor {
            block_size: blksize as u32,
            max_source_window: max_winsize,
            current_block_index: 0,
            requested_block_index: 0,
            current_block_length: 0,
            eof_known: false,
            max_block_index: 0,
            last_block_length: 0,
        };
        let buffer = SrcBuffer {
            src,
            read_len: 0,
            eof_known: false,
            block_offset: 0,
            block_len: blksize as usize,
            lowest: 0,
            cache: BTreeMap::new(),
            pending: None,
            current_valid: false,
            blocks: Ghost(Seq::empty()),
        };
        proof {
            assert(buffer@.blocks =~= Seq::<Seq<u8>>::empty());
        }
        Ok(buffer)
    }

    /// Looks for block `blkno`. If it is kept, the descriptor is made to
    /// describe it. If it is still to be read, says how many bytes to read
    /// next. If it was let go, the run cannot go on.
    pub fn getblk(&mut self, blkno: u64) -> (r: Result<BlockStatus, Xd3Error>)
        requires
            old(self).wf(),
        ensures
            final(self).wf(),
            match r {
                Ok(BlockStatus::Ready) => {
                    &&& old(self)@.holds(blkno as nat)
                    &&& final(self)@ == old(self)@.select(blkno)
                },
                Ok(BlockStatus::NeedRead(n)) => {
                    &&& blkno >= old(self)@.fetched()
                    &&& n == old(self)@.wanted()
                    &&& final(self)@ == old(self)@.request(blkno)
                },
                Err(e) => {
                    &&& e == Xd3Error::CacheConsistencyError
                    &&& blkno < old(self)@.lowest
                    &&& final(self)@ == old(self)@
                },
            },
    {
        if blkno >= self.block_offset {
            let filled: usize = match &self.pending {
                Some(e) => e.len,
                None => 0,
            };
            self.src.requested_block_index = blkno;
            return Ok(BlockStatus::NeedRead(self.block_len - filled));
        }
        if blkno < self.lowest {
            return Err(Xd3Error::CacheConsistencyError);
        }
        let len: usize = match self.cache.get(&blkno) {
            Some(entry) => entry.len,
            None => 0,
        };
        assert(self.cache@.contains_key(blkno));
        assert(len == self.blocks@[blkno as int].len());
        let last: u32 = if self.eof_known {
            (self.read_len % (self.block_len as u128)) as u32
        } else {
            len as u32
        };
        let max_block: u64 = if self.eof_known {
            self.block_offset - 1
        } else {
            blkno
        };
        self.src.current_block_index = blkno;
        self.src.requested_block_index = blkno;
        self.src.current_block_length = len as u32;
        self.src.eof_known = self.eof_known;
        self.src.max_block_index = max_block;
        self.src.last_block_length = last;
        self.current_valid = true;
        proof {
            lemma_select(old(self)@, blkno);
            assert(self@ == old(self)@.select(blkno));
        }
        Ok(BlockStatus::Ready)
    }

    /// Takes in what a read from the source brought. The bytes go to the
    /// block being filled; a block is begun if none is, and then the oldest
    /// block is let go if the cache is full. The block is complete when it is
    /// full or when the read brought nothing.
    pub fn fetch(&mut self, event: ReadEvent<'_>) -> (r: Result<(), Xd3Error>)
        requires
            old(self).wf(),
            old(self)@.fetched() < u64::MAX,
            event matches ReadEvent::Data(chunk) ==> chunk@.len() <= old(self)@.wanted(),
        ensures
            final(self).wf(),
            match event {
                ReadEvent::Data(chunk) => r == Ok::<(), Xd3Error>(()) && final(self)@ == old(self)@.supply(chunk@),
                ReadEvent::Failed => r == Err::<(), Xd3Error>(Xd3Error::SourceReadError) && final(self)@ == old(self)@,
            },
    {
        let chunk: &[u8] = match event {
            ReadEvent::Data(chunk) => chunk,
            ReadEvent::Failed => {
                return Err(Xd3Error::SourceReadError);
            },
        };
        let ghost before = self@;
        proof {
            lemma_supply(before, chunk@);
        }
        let mut entry: CacheEntry = match self.pending.take() {
            Some(e) => e,
            None => {
                if self.block_offset - self.lowest >= RESIDENT_BLOCKS {
                    let oldest = self.cache.remove(&self.lowest);
                    if self.current_valid && self.src.current_block_index == self.lowest {
                        self.current_valid = false;
                    }
                    self.lowest = self.lowest + 1;
                    match oldest {
                        Some(e) => {
                            let mut buf = e.buf;
                            buf.clear();
                            CacheEntry { len: 0, buf }
                        },
                        None => CacheEntry { len: 0, buf: Vec::new() },
                    }
                } else {
                    CacheEntry { len: 0, buf: Vec::with_capacity(self.block_len) }
                }
            },
        };
        let ghost head = entry.buf@;
        entry.buf.extend_from_slice(chunk);
        entry.len = entry.len + chunk.len();
        let ghost block = entry.buf@;
        assert(block =~= head + chunk@);
        proof {
            let n = before.blocks.len() as int;
            let b = before.block_size as int;
            assert(n * b <= 0xFFFF_FFFF_FFFF_FFFF * 0xFFFF_FFFF) by (nonlinear_arith)
                requires
                    0 <= n <= 0xFFFF_FFFF_FFFF_FFFF,
                    0 <= b <= 0xFFFF_FFFF,
            ;
        }
        self.read_len = self.read_len + chunk.len() as u128;
        if chunk.len() == 0 {
            self.eof_known = true;
        }
        if chunk.len() == 0 || entry.len >= self.block_len {
            self.cache.insert(self.block_offset, entry);
            self.block_offset = self.block_offset + 1;
            self.blocks = Ghost(self.blocks@.push(block));
            proof {
                lemma_total_len_push(before.blocks, block);
            }
        } else {
            self.pending = Some(entry);
        }
        assert(self@ == before.supply(chunk@));
        Ok(())
    }

    /// The descriptor as the engine is to see it.
    pub fn descriptor(&self) -> (r: SourceDescriptor)
        ensures
            r == self@.desc,
    {
        self.src
    }

    /// The bytes of the block that the descriptor describes, while that block
    /// is kept.
    pub fn current_block(&self) -> (r: Option<&[u8]>)
        requires
            self.wf(),
        ensures
            match r {
                Some(bytes) => {
                    &&& self@.current_valid
                    &&& bytes@ == self@.blocks[self@.desc.current_block_index as int]
                },
                None => !self@.current_valid,
            },
    {
        if !self.current_valid {
            return None;
        }
        match self.cache.get(&self.src.current_block_index) {
            Some(entry) => Some(entry.buf.as_slice()),
            None => None,
        }
    }

    /// Number of blocks read so far, which is the index of the next one.
    pub fn blocks_fetched(&self) -> (r: u64)
        requires
            self.wf(),
        ensures
            r == self@.fetched(),
    {
        self.block_offset
    }

    /// Number of completed blocks that are kept.
    pub fn resident_blocks(&self) -> (r: u64)
        requires
            self.wf(),
        ensures
            r == self@.resident(),
    {
        self.block_offset - self.lowest
    }

    /// Number of source bytes read so far.
    pub fn bytes_read(&self) -> (r: u128)
        requires
            self.wf(),
        ensures
            r == self@.total(),
    {
        self.read_len
    }

    /// Whether a read has shown the end of the source.
    pub fn eof_reached(&self) -> (r: bool)
        ensures
            r == self@.eof,
    {
        self.eof_known
    }
}

} // verus!
