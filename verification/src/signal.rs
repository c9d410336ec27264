//! The signals with which the codec engine answers every call.

use vstd::prelude::*;

verus! {

/// Direction of a run.
#[derive(Clone, Copy, Debug, PartialEq, Eq, Structural)]
pub enum ProcessMode {
    Encode,
    Decode,
}

/// What the engine reports when it hands control back to the driver.
#[derive(Clone, Copy, Debug, PartialEq, Eq, Structural)]
pub enum Signal {
    /// The engine has used up its input.
    NeedInput,
    /// The engine holds output that must be written out.
    HaveOutput,
    /// The engine needs a block of the source.
    NeedSourceBlock,
    /// The header of the delta has been read.
    HeaderParsed,
    /// A window begins.
    WindowStart,
    /// A window is done.
    WindowFinish,
    /// The source block asked for is no longer available.
    TooFarBack,
    /// The engine met an internal error.
    Internal,
    /// The engine was configured wrongly.
    Invalid,
    /// The input is not a valid delta.
    InvalidInput,
    /// Secondary compression brought no gain.
    NoSecond,
    /// The input needs a feature the engine lacks.
    Unimplemented,
}

impl Signal {
    /// The signals that end a run with a failure.
    pub open spec fn spec_is_error(self) -> bool {
        match self {
            Signal::TooFarBack
            | Signal::Internal
            | Signal::Invalid
            | Signal::InvalidInput
            | Signal::NoSecond
            | Signal::Unimplemented => true,
            _ => false,
        }
    }

    /// The signals that ask nothing of the driver.
    pub open spec fn spec_is_notice(self) -> bool {
        match self {
            Signal::HeaderParsed | Signal::WindowStart | Signal::WindowFinish => true,
            _ => false,
        }
    }

    /// The engine's own name for the signal.
    pub open spec fn spec_name(self) -> Seq<char> {
        match self {
            Signal::NeedInput => "XD3_INPUT"@,
            Signal::HaveOutput => "XD3_OUTPUT"@,
            Signal::NeedSourceBlock => "XD3_GETSRCBLK"@,
            Signal::HeaderParsed => "XD3_GOTHEADER"@,
            Signal::WindowStart => "XD3_WINSTART"@,
            Signal::WindowFinish => "XD3_WINFINISH"@,
            Signal::TooFarBack => "XD3_TOOFARBACK"@,
            Signal::Internal => "XD3_INTERNAL"@,
            Signal::Invalid => "XD3_INVALID"@,
            Signal::InvalidInput => "XD3_INVALID_INPUT"@,
            Signal::NoSecond => "XD3_NOSECOND"@,
            Signal::Unimplemented => "XD3_UNIMPLEMENTED"@,
        }
    }

    /// Whether the signal ends the run with a failure.
    pub fn is_error(self) -> (r: bool)
        ensures
            r == self.spec_is_error(),
    {
        match self {
            Signal::TooFarBack
            | Signal::Internal
            | Signal::Invalid
            | Signal::InvalidInput
            | Signal::NoSecond
            | Signal::Unimplemented => true,
            _ => false,
        }
    }

    /// The engine's own name for the signal, as it appears in error messages.
    pub fn name(self) -> (r: &'static str)
        ensures
            r@ == self.spec_name(),
    {
        match self {
            Signal::NeedInput => "XD3_INPUT",
            Signal::HaveOutput => "XD3_OUTPUT",
            Signal::NeedSourceBlock => "XD3_GETSRCBLK",
            Signal::HeaderParsed => "XD3_GOTHEADER",
            Signal::WindowStart => "XD3_WINSTART",
            Signal::WindowFinish => "XD3_WINFINISH",
            Signal::TooFarBack => "XD3_TOOFARBACK",
            Signal::Internal => "XD3_INTERNAL",
            Signal::Invalid => "XD3_INVALID",
            Signal::InvalidInput => "XD3_INVALID_INPUT",
            Signal::NoSecond => "XD3_NOSECOND",
            Signal::Unimplemented => "XD3_UNIMPLEMENTED",
        }
    }
}

} // verus!
