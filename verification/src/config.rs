//! The configuration record and its builder.

use vstd::prelude::*;
use crate::pow2::{is_power_of_two, lemma_next_power_of_two, next_power_of_two, next_power_of_two_u32, next_power_of_two_u64};

verus! {

/// Default size of one target window, in bytes.
pub const XD3_DEFAULT_WINSIZE: u32 = 0x0080_0000;

/// Default size of the source window, in bytes.
pub const XD3_DEFAULT_SRCWINSZ: u64 = 0x0400_0000;

/// Default size of the engine's table of previous matches.
pub const XD3_DEFAULT_SPREVSZ: u32 = 0x0004_0000;

/// Flag bit that tells the engine to finish the stream with the input at hand.
pub const XD3_FLUSH: u32 = 0x0000_0010;

/// Flag bit that switches off compression of the target against itself.
pub const XD3_NOCOMPRESS: u32 = 0x0000_2000;

/// Position of the compression level in the flag word.
pub const XD3_COMPLEVEL_SHIFT: u32 = 20;

/// The four bits of the flag word that hold the compression level.
pub const XD3_COMPLEVEL_MASK: u32 = 0x00F0_0000;

/// Largest value a 32-bit size may have before it is rounded up to a power of two.
pub const MAX_SIZE_U32: u32 = 0x8000_0000;

/// Largest value a 64-bit size may have before it is rounded up to a power of two.
pub const MAX_SIZE_U64: u64 = 0x8000_0000_0000_0000;

/// Which set of string-matching parameters the engine uses.
#[derive(Clone, Copy, Debug, PartialEq, Eq, Structural)]
pub enum Xd3SmatchCfg {
    Default,
    Slow,
    Fast,
    Faster,
    Fastest,
    Soft,
}

/// The level a request for `level` selects: `level` brought into `0..=9`.
pub open spec fn clamp_level(level: int) -> int {
    if level < 0 {
        0
    } else if level > 9 {
        9
    } else {
        level
    }
}

/// The compression level held in a flag word.
pub open spec fn level_of_flags(flags: u32) -> int {
    ((flags & XD3_COMPLEVEL_MASK) >> XD3_COMPLEVEL_SHIFT) as int
}

/// Whether a flag word switches compression off.
pub open spec fn no_compress_of_flags(flags: u32) -> bool {
    flags & XD3_NOCOMPRESS != 0
}

/// A flag word with the compression level replaced by `level`.
pub open spec fn flags_with_level(flags: u32, level: u32) -> u32 {
    (flags & !XD3_COMPLEVEL_MASK) | (level << XD3_COMPLEVEL_SHIFT)
}

/// A flag word with the no-compression bit set to `on`.
pub open spec fn flags_with_no_compress(flags: u32, on: bool) -> u32 {
    if on {
        flags | XD3_NOCOMPRESS
    } else {
        flags & !XD3_NOCOMPRESS
    }
}

/// Tunable parameters of one run, fixed once the driver is built.
#[derive(Debug)]
pub struct Xd3Config {
    winsize: u32,
    sprevsz: u32,
    flags: u32,
    smatch_cfg: Xd3SmatchCfg,
    source_window_size: u64,
}

impl Xd3Config {
    /// Size of one target window, in bytes.
    pub closed spec fn spec_winsize(&self) -> u32 {
        self.winsize
    }

    /// Size of the engine's table of previous matches.
    pub closed spec fn spec_sprevsz(&self) -> u32 {
        self.sprevsz
    }

    /// The flag word handed to the engine.
    pub closed spec fn spec_flags(&self) -> u32 {
        self.flags
    }

    /// The string-matching parameters.
    pub closed spec fn spec_smatch_cfg(&self) -> Xd3SmatchCfg {
        self.smatch_cfg
    }

    /// Size of the source window, in bytes.
    pub closed spec fn spec_source_window_size(&self) -> u64 {
        self.source_window_size
    }

    /// Every size is a power of two, and only the level and the
    /// no-compression bit are set in the flag word.
    pub open spec fn wf(&self) -> bool {
        &&& is_power_of_two(self.spec_winsize() as int)
        &&& is_power_of_two(self.spec_sprevsz() as int)
        &&& is_power_of_two(self.spec_source_window_size() as int)
        &&& self.spec_flags() & !(XD3_COMPLEVEL_MASK | XD3_NOCOMPRESS) == 0
        &&& 0 <= level_of_flags(self.spec_flags()) <= 9
    }

    /// The defaults: no flags, default matcher, default sizes.
    pub fn new() -> (cfg: Self)
        ensures
            cfg.wf(),
            cfg.spec_winsize() == XD3_DEFAULT_WINSIZE,
            cfg.spec_sprevsz() == XD3_DEFAULT_SPREVSZ,
            cfg.spec_flags() == 0,
            cfg.spec_smatch_cfg() == Xd3SmatchCfg::Default,
            cfg.spec_source_window_size() == XD3_DEFAULT_SRCWINSZ,
    {
        proof {
            vstd::arithmetic::power2::lemma2_to64();
            assert(vstd::arithmetic::power2::pow2(23) == XD3_DEFAULT_WINSIZE as int);
            assert(vstd::arithmetic::power2::pow2(18) == XD3_DEFAULT_SPREVSZ as int);
            assert(vstd::arithmetic::power2::pow2(26) == XD3_DEFAULT_SRCWINSZ as int);
            assert(0u32 & !(XD3_COMPLEVEL_MASK | XD3_NOCOMPRESS) == 0) by (bit_vector);
            assert((0u32 & XD3_COMPLEVEL_MASK) >> XD3_COMPLEVEL_SHIFT == 0) by (bit_vector);
        }
        Xd3Config {
            winsize: XD3_DEFAULT_WINSIZE,
            sprevsz: XD3_DEFAULT_SPREVSZ,
            flags: 0,
            smatch_cfg: Xd3SmatchCfg::Default,
            source_window_size: XD3_DEFAULT_SRCWINSZ,
        }
    }

    /// Sets the target window size to `winsize` rounded up to a power of two.
    pub fn window_size(self, winsize: u32) -> (cfg: Self)
        requires
            self.wf(),
            winsize <= MAX_SIZE_U32,
        ensures
            cfg.wf(),
            cfg.spec_winsize() == next_power_of_two(winsize as nat),
            cfg.spec_sprevsz() == self.spec_sprevsz(),
            cfg.spec_flags() == self.spec_flags(),
            cfg.spec_smatch_cfg() == self.spec_smatch_cfg(),
            cfg.spec_source_window_size() == self.spec_source_window_size(),
    {
        proof {
            lemma_next_power_of_two(winsize as nat);
        }
        Xd3Config { winsize: next_power_of_two_u32(winsize), ..self }
    }

    /// Sets the size of the table of previous matches to `sprevsz` rounded up
    /// to a power of two.
    pub fn sprev_size(self, sprevsz: u32) -> (cfg: Self)
        requires
            self.wf(),
            sprevsz <= MAX_SIZE_U32,
        ensures
            cfg.wf(),
            cfg.spec_sprevsz() == next_power_of_two(sprevsz as nat),
            cfg.spec_winsize() == self.spec_winsize(),
            cfg.spec_flags() == self.spec_flags(),
            cfg.spec_smatch_cfg() == self.spec_smatch_cfg(),
            cfg.spec_source_window_size() == self.spec_source_window_size(),
    {
        proof {
            lemma_next_power_of_two(sprevsz as nat);
        }
        Xd3Config { sprevsz: next_power_of_two_u32(sprevsz), ..self }
    }

    /// Sets the source window size to `source_window_size` rounded up to a
    /// power of two.
    pub fn source_window_size(self, source_window_size: u64) -> (cfg: Self)
        requires
            self.wf(),
            source_window_size <= MAX_SIZE_U64,
        ensures
            cfg.wf(),
            cfg.spec_source_window_size() == next_power_of_two(source_window_size as nat),
            cfg.spec_winsize() == self.spec_winsize(),
            cfg.spec_sprevsz() == self.spec_sprevsz(),
            cfg.spec_flags() == self.spec_flags(),
            cfg.spec_smatch_cfg() == self.spec_smatch_cfg(),
    {
        proof {
            lemma_next_power_of_two(source_window_size as nat);
        }
        Xd3Config { source_window_size: next_power_of_two_u64(source_window_size), ..self }
    }

    /// Switches compression of the target against itself off or on. The
    /// level is left as it was.
    pub fn no_compress(self, no_compress: bool) -> (cfg: Self)
        requires
            self.wf(),
        ensures
            cfg.wf(),
            cfg.spec_flags() == flags_with_no_compress(self.spec_flags(), no_compress),
            no_compress_of_flags(cfg.spec_flags()) == no_compress,
            level_of_flags(cfg.spec_flags()) == level_of_flags(self.spec_flags()),
            cfg.spec_winsize() == self.spec_winsize(),
            cfg.spec_sprevsz() == self.spec_sprevsz(),
            cfg.spec_smatch_cfg() == self.spec_smatch_cfg(),
            cfg.spec_source_window_size() == self.spec_source_window_size(),
    {
        let old_flags: u32 = self.flags;
        let flags: u32 = if no_compress {
            old_flags | XD3_NOCOMPRESS
        } else {
            old_flags & !XD3_NOCOMPRESS
        };
        proof {
            lemma_no_compress_bits(old_flags, no_compress);
        }
        Xd3Config { flags, ..self }
    }

    /// Chooses the string-matching parameters.
    pub fn set_smatch_config(self, smatch_cfg: Xd3SmatchCfg) -> (cfg: Self)
        requires
            self.wf(),
        ensures
            cfg.wf(),
            cfg.spec_smatch_cfg() == smatch_cfg,
            cfg.spec_winsize() == self.spec_winsize(),
            cfg.spec_sprevsz() == self.spec_sprevsz(),
            cfg.spec_flags() == self.spec_flags(),
            cfg.spec_source_window_size() == self.spec_source_window_size(),
    {
        Xd3Config { smatch_cfg, ..self }
    }

    /// Sets the compression level to `level` brought into `0..=9`. The
    /// no-compression bit is left as it was.
    pub fn level(self, level: i32) -> (cfg: Self)
        requires
            self.wf(),
        ensures
            cfg.wf(),
            cfg.spec_flags() == flags_with_level(self.spec_flags(), clamp_level(level as int) as u32),
            level_of_flags(cfg.spec_flags()) == clamp_level(level as int),
            no_compress_of_flags(cfg.spec_flags()) == no_compress_of_flags(self.spec_flags()),
            cfg.spec_winsize() == self.spec_winsize(),
            cfg.spec_sprevsz() == self.spec_sprevsz(),
            cfg.spec_smatch_cfg() == self.spec_smatch_cfg(),
            cfg.spec_source_window_size() == self.spec_source_window_size(),
    {
        let clamped: u32 = if level < 0 {
            0
        } else if level > 9 {
            9
        } else {
            level as u32
        };
        let old_flags: u32 = self.flags;
        let flags: u32 = (old_flags & !XD3_COMPLEVEL_MASK) | (clamped << XD3_COMPLEVEL_SHIFT);
        proof {
            lemma_level_bits(old_flags, clamped);
        }
        Xd3Config { flags, ..self }
    }

    /// Size of one target window, in bytes.
    pub fn winsize(&self) -> (r: u32)
        ensures
            r == self.spec_winsize(),
    {
        self.winsize
    }

    /// Size of the engine's table of previous matches.
    pub fn sprevsz(&self) -> (r: u32)
        ensures
            r == self.spec_sprevsz(),
    {
        self.sprevsz
    }

    /// The flag word handed to the engine.
    pub fn flags(&self) -> (r: u32)
        ensures
            r == self.spec_flags(),
    {
        self.flags
    }

    /// The string-matching parameters.
    pub fn smatch_cfg(&self) -> (r: Xd3SmatchCfg)
        ensures
            r == self.spec_smatch_cfg(),
    {
        self.smatch_cfg
    }

    /// Size of the source window, in bytes.
    pub fn source_window(&self) -> (r: u64)
        ensures
            r == self.spec_source_window_size(),
    {
        self.source_window_size
    }

    /// The compression level, `0..=9`.
    pub fn compression_level(&self) -> (r: u32)
        ensures
            r == level_of_flags(self.spec_flags()),
    {
        (self.flags & XD3_COMPLEVEL_MASK) >> XD3_COMPLEVEL_SHIFT
    }

    /// Whether compression of the target against itself is switched off.
    pub fn is_no_compress(&self) -> (r: bool)
        ensures
            r == no_compress_of_flags(self.spec_flags()),
    {
        self.flags & XD3_NOCOMPRESS != 0
    }
}

proof fn lemma_no_compress_bits(flags: u32, on: bool)
    requires
        flags & !(XD3_COMPLEVEL_MASK | XD3_NOCOMPRESS) == 0,
    ensures
        flags_with_no_compress(flags, on) & !(XD3_COMPLEVEL_MASK | XD3_NOCOMPRESS) == 0,
        no_compress_of_flags(flags_with_no_compress(flags, on)) == on,
        level_of_flags(flags_with_no_compress(flags, on)) == level_of_flags(flags),
{
    assert((flags | 0x2000u32) & !(0x00F0_0000u32 | 0x2000u32) == 0) by (bit_vector)
        requires
            flags & !(0x00F0_0000u32 | 0x2000u32) == 0,
    ;
    assert((flags & !0x2000u32) & !(0x00F0_0000u32 | 0x2000u32) == 0) by (bit_vector)
        requires
            flags & !(0x00F0_0000u32 | 0x2000u32) == 0,
    ;
    assert((flags | 0x2000u32) & 0x2000u32 != 0) by (bit_vector);
    assert((flags & !0x2000u32) & 0x2000u32 == 0) by (bit_vector);
    assert(((flags | 0x2000u32) & 0x00F0_0000u32) >> 20u32 == (flags & 0x00F0_0000u32) >> 20u32)
        by (bit_vector);
    assert(((flags & !0x2000u32) & 0x00F0_0000u32) >> 20u32 == (flags & 0x00F0_0000u32) >> 20u32)
        by (bit_vector);
}

proof fn lemma_level_bits(flags: u32, level: u32)
    requires
        flags & !(XD3_COMPLEVEL_MASK | XD3_NOCOMPRESS) == 0,
        level <= 9,
    ensures
        flags_with_level(flags, level) & !(XD3_COMPLEVEL_MASK | XD3_NOCOMPRESS) == 0,
        level_of_flags(flags_with_level(flags, level)) == level,
        no_compress_of_flags(flags_with_level(flags, level)) == no_compress_of_flags(flags),
{
    let f = (flags & !0x00F0_0000u32) | (level << 20u32);
    assert(f & !(0x00F0_0000u32 | 0x2000u32) == 0) by (bit_vector)
        requires
            f == (flags & !0x00F0_0000u32) | (level << 20u32),
            flags & !(0x00F0_0000u32 | 0x2000u32) == 0,
            level <= 9,
    ;
    assert((f & 0x00F0_0000u32) >> 20u32 == level) by (bit_vector)
        requires
            f == (flags & !0x00F0_0000u32) | (level << 20u32),
            level <= 9,
    ;
    assert(f & 0x2000u32 == flags & 0x2000u32) by (bit_vector)
        requires
            f == (flags & !0x00F0_0000u32) | (level << 20u32),
            level <= 9,
    ;
}

} // verus!
