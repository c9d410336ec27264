//! What can end a run early, and what a read reports.

use vstd::prelude::*;
use crate::signal::Signal;

verus! {

/// Why a run was given up. None of these is retried by the driver.
#[derive(Clone, Copy, Debug, PartialEq, Eq, Structural)]
pub enum Xd3Error {
    /// The configuration cannot be used.
    ConfigurationError,
    /// Reading the source failed.
    SourceReadError,
    /// Reading the target failed.
    TargetReadError,
    /// Writing or flushing the output failed.
    OutputWriteError,
    /// The engine answered with a signal that ends the run.
    EngineSignalError(Signal),
    /// The engine asked for a source block that the cache has let go.
    CacheConsistencyError,
}

impl Xd3Error {
    /// A short text for the kind of failure.
    pub open spec fn spec_kind(self) -> Seq<char> {
        match self {
            Xd3Error::ConfigurationError => "xd3: configuration rejected"@,
            Xd3Error::SourceReadError => "xd3: reading the source failed"@,
            Xd3Error::TargetReadError => "xd3: read_input"@,
            Xd3Error::OutputWriteError => "xd3: writing the output failed"@,
            Xd3Error::EngineSignalError(s) => s.spec_name(),
            Xd3Error::CacheConsistencyError => "xd3: source block no longer cached"@,
        }
    }

    /// A short text for the kind of failure; for a signal of the engine, the
    /// signal's name.
    pub fn kind(self) -> (r: &'static str)
        ensures
            r@ == self.spec_kind(),
    {
        match self {
            Xd3Error::ConfigurationError => "xd3: configuration rejected",
            Xd3Error::SourceReadError => "xd3: reading the source failed",
            Xd3Error::TargetReadError => "xd3: read_input",
            Xd3Error::OutputWriteError => "xd3: writing the output failed",
            Xd3Error::EngineSignalError(s) => s.name(),
            Xd3Error::CacheConsistencyError => "xd3: source block no longer cached",
        }
    }
}

/// What one read from a stream brought.
#[derive(Clone, Copy, Debug)]
pub enum ReadEvent<'a> {
    /// The bytes read; none at the end of the stream.
    Data(&'a [u8]),
    /// The read failed.
    Failed,
}

impl<'a> View for ReadEvent<'a> {
    type V = Option<Seq<u8>>;

    /// The bytes read, or `None` for a read that failed.
    open spec fn view(&self) -> Option<Seq<u8>> {
        match *self {
            ReadEvent::Data(chunk) => Some(chunk@),
            ReadEvent::Failed => None,
        }
    }
}

/// How a write to the sink, or its flush, ended.
#[derive(Clone, Copy, Debug, PartialEq, Eq, Structural)]
pub enum WriteEvent {
    /// All bytes were written, or the sink was flushed.
    Done,
    /// The write or the flush failed.
    Failed,
}

} // verus!
