use xdelta_stream::config::{
    Xd3Config, Xd3SmatchCfg, XD3_COMPLEVEL_MASK, XD3_COMPLEVEL_SHIFT, XD3_DEFAULT_SPREVSZ,
    XD3_DEFAULT_SRCWINSZ, XD3_DEFAULT_WINSIZE, XD3_FLUSH, XD3_NOCOMPRESS,
};
use xdelta_stream::error::Xd3Error;
use xdelta_stream::pow2::{next_power_of_two_u32, next_power_of_two_u64};
use xdelta_stream::signal::{ProcessMode, Signal};

#[test]
fn defaults_are_the_documented_sizes() {
    let cfg = Xd3Config::new();
    assert_eq!(cfg.winsize(), 1 << 23);
    assert_eq!(cfg.sprevsz(), 1 << 18);
    assert_eq!(cfg.source_window(), 1 << 26);
    assert_eq!(cfg.flags(), 0);
    assert_eq!(cfg.compression_level(), 0);
    assert!(!cfg.is_no_compress());
    assert_eq!(cfg.smatch_cfg(), Xd3SmatchCfg::Default);
    assert_eq!(XD3_DEFAULT_WINSIZE, 8_388_608);
    assert_eq!(XD3_DEFAULT_SPREVSZ, 262_144);
    assert_eq!(XD3_DEFAULT_SRCWINSZ, 67_108_864);
}

#[test]
fn flag_constants_have_their_bits() {
    assert_eq!(XD3_FLUSH, 1 << 4);
    assert_eq!(XD3_NOCOMPRESS, 1 << 13);
    assert_eq!(XD3_COMPLEVEL_SHIFT, 20);
    assert_eq!(XD3_COMPLEVEL_MASK, 0xF << 20);
}

#[test]
fn next_power_of_two_rounds_up() {
    assert_eq!(next_power_of_two_u32(0), 1);
    assert_eq!(next_power_of_two_u32(1), 1);
    assert_eq!(next_power_of_two_u32(2), 2);
    assert_eq!(next_power_of_two_u32(3), 4);
    assert_eq!(next_power_of_two_u32(5), 8);
    assert_eq!(next_power_of_two_u32(1000), 1024);
    assert_eq!(next_power_of_two_u32(1 << 31), 1 << 31);
    assert_eq!(next_power_of_two_u32((1 << 30) + 1), 1 << 31);
    assert_eq!(next_power_of_two_u64(0), 1);
    assert_eq!(next_power_of_two_u64(1_000_000), 1 << 20);
    assert_eq!(next_power_of_two_u64((1 << 62) + 1), 1 << 63);
    assert_eq!(next_power_of_two_u64(1 << 63), 1 << 63);
}

#[test]
fn next_power_of_two_agrees_with_std() {
    for n in 0u32..5000 {
        assert_eq!(next_power_of_two_u32(n), n.next_power_of_two());
        assert_eq!(next_power_of_two_u64(n as u64), (n as u64).next_power_of_two());
    }
}

#[test]
fn window_size_is_rounded_up() {
    assert_eq!(Xd3Config::new().window_size(5).winsize(), 8);
    assert_eq!(Xd3Config::new().window_size(0).winsize(), 1);
    assert_eq!(Xd3Config::new().window_size(4096).winsize(), 4096);
    assert_eq!(Xd3Config::new().window_size(4097).winsize(), 8192);
}

#[test]
fn sprev_size_is_rounded_up() {
    assert_eq!(Xd3Config::new().sprev_size(100).sprevsz(), 128);
    assert_eq!(Xd3Config::new().sprev_size(1 << 31).sprevsz(), 1 << 31);
}

#[test]
fn source_window_size_is_rounded_up() {
    assert_eq!(Xd3Config::new().source_window_size(1_000_000).source_window(), 1 << 20);
    assert_eq!(Xd3Config::new().source_window_size(64).source_window(), 64);
    assert_eq!(Xd3Config::new().source_window_size(65).source_window(), 128);
}

#[test]
fn setters_leave_the_other_fields() {
    let cfg = Xd3Config::new()
        .window_size(100)
        .sprev_size(200)
        .source_window_size(300)
        .level(4)
        .no_compress(true)
        .set_smatch_config(Xd3SmatchCfg::Fast);
    assert_eq!(cfg.winsize(), 128);
    assert_eq!(cfg.sprevsz(), 256);
    assert_eq!(cfg.source_window(), 512);
    assert_eq!(cfg.compression_level(), 4);
    assert!(cfg.is_no_compress());
    assert_eq!(cfg.smatch_cfg(), Xd3SmatchCfg::Fast);
}

#[test]
fn level_is_clamped() {
    assert_eq!(Xd3Config::new().level(-5).compression_level(), 0);
    assert_eq!(Xd3Config::new().level(0).compression_level(), 0);
    assert_eq!(Xd3Config::new().level(6).compression_level(), 6);
    assert_eq!(Xd3Config::new().level(9).compression_level(), 9);
    assert_eq!(Xd3Config::new().level(10).compression_level(), 9);
    assert_eq!(Xd3Config::new().level(i32::MAX).compression_level(), 9);
    assert_eq!(Xd3Config::new().level(i32::MIN).compression_level(), 0);
}

#[test]
fn level_sits_in_its_four_bits() {
    assert_eq!(Xd3Config::new().level(6).flags(), 0x0060_0000);
    assert_eq!(Xd3Config::new().level(9).flags(), 0x0090_0000);
    assert_eq!(Xd3Config::new().level(9).level(2).flags(), 0x0020_0000);
}

#[test]
fn no_compress_sets_and_clears_its_bit() {
    assert_eq!(Xd3Config::new().no_compress(true).flags(), 0x2000);
    assert_eq!(Xd3Config::new().no_compress(true).no_compress(false).flags(), 0);
    assert_eq!(Xd3Config::new().no_compress(false).flags(), 0);
    assert!(Xd3Config::new().no_compress(true).no_compress(true).is_no_compress());
}

#[test]
fn level_and_no_compress_do_not_disturb_each_other() {
    let cfg = Xd3Config::new().level(7).no_compress(true);
    assert_eq!(cfg.flags(), 0x0070_2000);
    let cfg = cfg.level(3);
    assert_eq!(cfg.flags(), 0x0030_2000);
    assert!(cfg.is_no_compress());
    let cfg = cfg.no_compress(false);
    assert_eq!(cfg.flags(), 0x0030_0000);
    assert_eq!(cfg.compression_level(), 3);
}

#[test]
fn smatch_config_is_stored() {
    let all = [
        Xd3SmatchCfg::Default,
        Xd3SmatchCfg::Slow,
        Xd3SmatchCfg::Fast,
        Xd3SmatchCfg::Faster,
        Xd3SmatchCfg::Fastest,
        Xd3SmatchCfg::Soft,
    ];
    for s in all {
        assert_eq!(Xd3Config::new().set_smatch_config(s).smatch_cfg(), s);
    }
}

#[test]
fn signals_have_the_engine_names() {
    assert_eq!(Signal::NeedInput.name(), "XD3_INPUT");
    assert_eq!(Signal::HaveOutput.name(), "XD3_OUTPUT");
    assert_eq!(Signal::NeedSourceBlock.name(), "XD3_GETSRCBLK");
    assert_eq!(Signal::HeaderParsed.name(), "XD3_GOTHEADER");
    assert_eq!(Signal::WindowStart.name(), "XD3_WINSTART");
    assert_eq!(Signal::WindowFinish.name(), "XD3_WINFINISH");
    assert_eq!(Signal::TooFarBack.name(), "XD3_TOOFARBACK");
    assert_eq!(Signal::Internal.name(), "XD3_INTERNAL");
    assert_eq!(Signal::Invalid.name(), "XD3_INVALID");
    assert_eq!(Signal::InvalidInput.name(), "XD3_INVALID_INPUT");
    assert_eq!(Signal::NoSecond.name(), "XD3_NOSECOND");
    assert_eq!(Signal::Unimplemented.name(), "XD3_UNIMPLEMENTED");
}

#[test]
fn six_signals_are_errors() {
    let errors = [
        Signal::TooFarBack,
        Signal::Internal,
        Signal::Invalid,
        Signal::InvalidInput,
        Signal::NoSecond,
        Signal::Unimplemented,
    ];
    let others = [
        Signal::NeedInput,
        Signal::HaveOutput,
        Signal::NeedSourceBlock,
        Signal::HeaderParsed,
        Signal::WindowStart,
        Signal::WindowFinish,
    ];
    for s in errors {
        assert!(s.is_error());
    }
    for s in others {
        assert!(!s.is_error());
    }
}

#[test]
fn error_kinds_have_a_text() {
    assert_eq!(Xd3Error::TargetReadError.kind(), "xd3: read_input");
    assert_eq!(Xd3Error::EngineSignalError(Signal::Internal).kind(), "XD3_INTERNAL");
    assert_eq!(Xd3Error::EngineSignalError(Signal::InvalidInput).kind(), "XD3_INVALID_INPUT");
    assert!(!Xd3Error::ConfigurationError.kind().is_empty());
    assert!(!Xd3Error::SourceReadError.kind().is_empty());
    assert!(!Xd3Error::OutputWriteError.kind().is_empty());
    assert!(!Xd3Error::CacheConsistencyError.kind().is_empty());
}

#[test]
fn modes_are_distinct() {
    assert_ne!(ProcessMode::Encode, ProcessMode::Decode);
}
