use xdelta_stream::config::Xd3Config;
use xdelta_stream::error::{ReadEvent, Xd3Error};
use xdelta_stream::source_cache::{BlockStatus, SrcBuffer};
use xdelta_stream::source_model::{RESIDENT_BLOCKS, SOURCE_BLOCK_COUNT};

/// A cache with blocks of `block_size` bytes.
fn cache(block_size: u64) -> SrcBuffer {
    let cfg = Xd3Config::new().source_window_size(block_size * SOURCE_BLOCK_COUNT);
    match SrcBuffer::new(&cfg) {
        Ok(b) => b,
        Err(e) => panic!("no cache: {:?}", e),
    }
}

/// Serves `blkno` from `source`, every read bringing all that is asked for
/// and there is. Returns the number of reads made.
fn serve(buf: &mut SrcBuffer, source: &[u8], pos: &mut usize, blkno: u64) -> usize {
    let mut reads = 0;
    loop {
        match buf.getblk(blkno) {
            Ok(BlockStatus::Ready) => return reads,
            Ok(BlockStatus::NeedRead(n)) => {
                let end = (*pos + n).min(source.len());
                assert!(buf.blocks_fetched() < u64::MAX);
                assert_eq!(buf.fetch(ReadEvent::Data(&source[*pos..end])), Ok(()));
                *pos = end;
                reads += 1;
            }
            Err(e) => panic!("block {} not served: {:?}", blkno, e),
        }
    }
}

#[test]
fn block_size_is_a_thirty_second_of_the_window() {
    let buf = match SrcBuffer::new(&Xd3Config::new()) {
        Ok(b) => b,
        Err(e) => panic!("{:?}", e),
    };
    let d = buf.descriptor();
    assert_eq!(d.block_size, 1 << 21);
    assert_eq!(d.max_source_window, 1 << 26);
    assert_eq!(d.current_block_index, 0);
    assert_eq!(d.current_block_length, 0);
    assert!(!d.eof_known);
    assert_eq!(buf.blocks_fetched(), 0);
    assert_eq!(buf.resident_blocks(), 0);
    assert_eq!(buf.bytes_read(), 0);
    assert!(buf.current_block().is_none());
    assert_eq!(SOURCE_BLOCK_COUNT, 32);
}

#[test]
fn too_small_a_window_is_refused() {
    let cfg = Xd3Config::new().source_window_size(16);
    assert!(matches!(SrcBuffer::new(&cfg), Err(Xd3Error::ConfigurationError)));
    let cfg = Xd3Config::new().source_window_size(0);
    assert!(matches!(SrcBuffer::new(&cfg), Err(Xd3Error::ConfigurationError)));
}

#[test]
fn smallest_window_gives_blocks_of_one_byte() {
    assert_eq!(cache(1).descriptor().block_size, 1);
}

#[test]
fn too_large_a_window_is_refused() {
    let cfg = Xd3Config::new().source_window_size(1 << 37);
    assert!(matches!(SrcBuffer::new(&cfg), Err(Xd3Error::ConfigurationError)));
    let cfg = Xd3Config::new().source_window_size(1 << 36);
    match SrcBuffer::new(&cfg) {
        Ok(b) => assert_eq!(b.descriptor().block_size, 1 << 31),
        Err(e) => panic!("{:?}", e),
    }
}

#[test]
fn a_block_that_is_not_read_yet_asks_for_a_read() {
    let mut buf = cache(4);
    assert_eq!(buf.getblk(0), Ok(BlockStatus::NeedRead(4)));
    assert_eq!(buf.descriptor().requested_block_index, 0);
    assert_eq!(buf.getblk(7), Ok(BlockStatus::NeedRead(4)));
    assert_eq!(buf.descriptor().requested_block_index, 7);
    assert_eq!(buf.blocks_fetched(), 0);
}

#[test]
fn short_reads_are_gathered_into_one_block() {
    let mut buf = cache(4);
    assert_eq!(buf.fetch(ReadEvent::Data(&[1])), Ok(()));
    assert_eq!(buf.blocks_fetched(), 0);
    assert_eq!(buf.getblk(0), Ok(BlockStatus::NeedRead(3)));
    assert_eq!(buf.fetch(ReadEvent::Data(&[2, 3])), Ok(()));
    assert_eq!(buf.getblk(0), Ok(BlockStatus::NeedRead(1)));
    assert_eq!(buf.fetch(ReadEvent::Data(&[4])), Ok(()));
    assert_eq!(buf.blocks_fetched(), 1);
    assert_eq!(buf.bytes_read(), 4);
    assert!(!buf.eof_reached());
    assert_eq!(buf.getblk(0), Ok(BlockStatus::Ready));
    assert_eq!(buf.current_block(), Some(&[1u8, 2, 3, 4][..]));
}

#[test]
fn descriptor_takes_the_current_block_for_the_last_until_the_end_is_seen() {
    let mut buf = cache(2);
    let source = [10u8, 11, 12, 13, 14];
    let mut pos = 0;
    serve(&mut buf, &source, &mut pos, 1);
    let d = buf.descriptor();
    assert_eq!(d.current_block_index, 1);
    assert_eq!(d.requested_block_index, 1);
    assert_eq!(d.current_block_length, 2);
    assert!(!d.eof_known);
    assert_eq!(d.max_block_index, 1);
    assert_eq!(d.last_block_length, 2);
    assert_eq!(buf.current_block(), Some(&[12u8, 13][..]));
    serve(&mut buf, &source, &mut pos, 0);
    let d = buf.descriptor();
    assert_eq!(d.current_block_index, 0);
    assert_eq!(d.max_block_index, 0);
    assert_eq!(buf.current_block(), Some(&[10u8, 11][..]));
}

#[test]
fn end_of_source_with_a_short_last_block() {
    // 5 bytes in blocks of 2: the last block is block 2 and holds 1 byte.
    let mut buf = cache(2);
    let source = [10u8, 11, 12, 13, 14];
    let mut pos = 0;
    serve(&mut buf, &source, &mut pos, 2);
    assert!(buf.eof_reached());
    assert_eq!(buf.bytes_read(), 5);
    assert_eq!(buf.blocks_fetched(), 3);
    let d = buf.descriptor();
    assert!(d.eof_known);
    assert_eq!(d.current_block_index, 2);
    assert_eq!(d.current_block_length, 1);
    assert_eq!(d.max_block_index, 2);
    assert_eq!(d.last_block_length, 1);
    assert_eq!(buf.current_block(), Some(&[14u8][..]));
    // An earlier block now also reports the end.
    serve(&mut buf, &source, &mut pos, 0);
    let d = buf.descriptor();
    assert!(d.eof_known);
    assert_eq!(d.current_block_index, 0);
    assert_eq!(d.current_block_length, 2);
    assert_eq!(d.max_block_index, 2);
    assert_eq!(d.last_block_length, 1);
}

#[test]
fn end_of_source_on_a_block_boundary() {
    // 4 bytes in blocks of 2: the end is seen when block 2 is asked for, and
    // that block is empty.
    let mut buf = cache(2);
    let source = [10u8, 11, 12, 13];
    let mut pos = 0;
    serve(&mut buf, &source, &mut pos, 1);
    assert!(!buf.eof_reached());
    assert!(!buf.descriptor().eof_known);
    serve(&mut buf, &source, &mut pos, 2);
    assert!(buf.eof_reached());
    let d = buf.descriptor();
    assert!(d.eof_known);
    assert_eq!(d.current_block_length, 0);
    assert_eq!(d.max_block_index, 2);
    assert_eq!(d.last_block_length, 0);
    assert_eq!(buf.current_block(), Some(&[][..]));
}

#[test]
fn empty_source_has_one_empty_block() {
    let mut buf = cache(8);
    let mut pos = 0;
    assert_eq!(serve(&mut buf, &[], &mut pos, 0), 1);
    let d = buf.descriptor();
    assert!(d.eof_known);
    assert_eq!(d.max_block_index, 0);
    assert_eq!(d.last_block_length, 0);
    assert_eq!(d.current_block_length, 0);
    assert_eq!(buf.bytes_read(), 0);
}

#[test]
fn a_short_block_is_served_only_after_the_end_was_seen() {
    let mut buf = cache(4);
    assert_eq!(buf.fetch(ReadEvent::Data(&[1, 2, 3])), Ok(()));
    // Three of four bytes are there, the end is not: the block is not served.
    assert_eq!(buf.getblk(0), Ok(BlockStatus::NeedRead(1)));
    assert!(!buf.eof_reached());
    assert_eq!(buf.fetch(ReadEvent::Data(&[])), Ok(()));
    assert!(buf.eof_reached());
    assert_eq!(buf.getblk(0), Ok(BlockStatus::Ready));
    assert_eq!(buf.descriptor().current_block_length, 3);
}

#[test]
fn block_k_takes_k_minus_fetched_plus_one_reads() {
    let source: Vec<u8> = (0..200u8).collect();
    let mut buf = cache(4);
    let mut pos = 0;
    assert_eq!(serve(&mut buf, &source, &mut pos, 0), 1);
    assert_eq!(buf.blocks_fetched(), 1);
    assert_eq!(serve(&mut buf, &source, &mut pos, 5), 5);
    assert_eq!(buf.blocks_fetched(), 6);
    assert_eq!(serve(&mut buf, &source, &mut pos, 5), 0);
    assert_eq!(serve(&mut buf, &source, &mut pos, 3), 0);
    assert_eq!(serve(&mut buf, &source, &mut pos, 6), 1);
    assert_eq!(serve(&mut buf, &source, &mut pos, 16), 10);
    assert_eq!(buf.blocks_fetched(), 17);
    assert_eq!(buf.current_block(), Some(&[64u8, 65, 66, 67][..]));
}

#[test]
fn blocks_past_the_end_are_read_for_again_and_are_empty() {
    let mut buf = cache(2);
    let source = [1u8, 2, 3];
    let mut pos = 0;
    // Block 0 takes one read; block 1 takes one read for its byte and one
    // that brings nothing.
    assert_eq!(serve(&mut buf, &source, &mut pos, 1), 3);
    assert_eq!(buf.blocks_fetched(), 2);
    assert!(buf.eof_reached());
    assert_eq!(serve(&mut buf, &source, &mut pos, 3), 2);
    assert_eq!(buf.blocks_fetched(), 4);
    let d = buf.descriptor();
    assert_eq!(d.current_block_length, 0);
    assert_eq!(d.max_block_index, 3);
    assert_eq!(d.last_block_length, 1);
    assert_eq!(buf.bytes_read(), 3);
}

#[test]
fn cache_size_stays_constant_under_forward_access() {
    let source: Vec<u8> = (0..200u8).collect();
    let mut buf = cache(1);
    let mut pos = 0;
    for k in 0..200u64 {
        serve(&mut buf, &source, &mut pos, k);
        assert_eq!(buf.resident_blocks(), (k + 1).min(RESIDENT_BLOCKS));
        assert_eq!(buf.current_block(), Some(&[k as u8][..]));
    }
    assert_eq!(RESIDENT_BLOCKS, 33);
}

#[test]
fn the_newest_blocks_stay_and_older_ones_are_refused() {
    let source: Vec<u8> = (0..100u8).collect();
    let mut buf = cache(1);
    let mut pos = 0;
    serve(&mut buf, &source, &mut pos, 39);
    // 40 blocks were read, 33 are kept: 7 to 39.
    assert_eq!(buf.resident_blocks(), 33);
    for k in 7..40u64 {
        assert_eq!(buf.getblk(k), Ok(BlockStatus::Ready));
        assert_eq!(buf.current_block(), Some(&[k as u8][..]));
    }
    let before = buf.descriptor();
    for k in 0..7u64 {
        assert_eq!(buf.getblk(k), Err(Xd3Error::CacheConsistencyError));
    }
    assert_eq!(buf.descriptor(), before);
    assert_eq!(buf.blocks_fetched(), 40);
}

#[test]
fn nothing_is_let_go_while_there_is_room() {
    let source: Vec<u8> = (0..100u8).collect();
    let mut buf = cache(2);
    let mut pos = 0;
    serve(&mut buf, &source, &mut pos, 32);
    assert_eq!(buf.resident_blocks(), 33);
    assert_eq!(buf.getblk(0), Ok(BlockStatus::Ready));
    assert_eq!(buf.current_block(), Some(&[0u8, 1][..]));
}

#[test]
fn the_current_block_is_dropped_when_it_is_let_go() {
    let source: Vec<u8> = (0..100u8).collect();
    let mut buf = cache(1);
    let mut pos = 0;
    serve(&mut buf, &source, &mut pos, 32);
    assert_eq!(buf.getblk(0), Ok(BlockStatus::Ready));
    assert_eq!(buf.current_block(), Some(&[0u8][..]));
    // Beginning block 33 lets block 0 go.
    assert_eq!(buf.getblk(33), Ok(BlockStatus::NeedRead(1)));
    assert_eq!(buf.fetch(ReadEvent::Data(&[33])), Ok(()));
    assert!(buf.current_block().is_none());
    assert_eq!(buf.getblk(0), Err(Xd3Error::CacheConsistencyError));
    assert_eq!(buf.getblk(1), Ok(BlockStatus::Ready));
}

#[test]
fn a_failed_read_is_a_source_read_error_and_changes_nothing() {
    let mut buf = cache(4);
    assert_eq!(buf.fetch(ReadEvent::Data(&[1, 2])), Ok(()));
    assert_eq!(buf.fetch(ReadEvent::Failed), Err(Xd3Error::SourceReadError));
    assert_eq!(buf.bytes_read(), 2);
    assert_eq!(buf.blocks_fetched(), 0);
    assert!(!buf.eof_reached());
    assert_eq!(buf.getblk(0), Ok(BlockStatus::NeedRead(2)));
}

#[test]
fn a_million_zero_bytes_take_no_more_fetches_than_blocks() {
    let source = vec![0u8; 1_000_000];
    // Default blocks of 2 MiB: one block.
    let mut buf = match SrcBuffer::new(&Xd3Config::new()) {
        Ok(b) => b,
        Err(e) => panic!("{:?}", e),
    };
    let mut pos = 0;
    serve(&mut buf, &source, &mut pos, 0);
    assert_eq!(buf.blocks_fetched(), 1);
    assert_eq!(buf.descriptor().current_block_length, 1_000_000);
    assert!(buf.descriptor().eof_known);
    assert_eq!(buf.descriptor().last_block_length, 1_000_000);
    // Blocks of 2048 bytes: 489 blocks, the last of 576 bytes.
    let mut buf = cache(2048);
    let mut pos = 0;
    for k in 0..489u64 {
        serve(&mut buf, &source, &mut pos, k);
    }
    assert_eq!(buf.blocks_fetched(), 489);
    assert_eq!(buf.bytes_read(), 1_000_000);
    let d = buf.descriptor();
    assert!(d.eof_known);
    assert_eq!(d.max_block_index, 488);
    assert_eq!(d.last_block_length, 576);
    assert_eq!(d.current_block_length, 576);
}
