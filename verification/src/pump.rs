//! The driver's side of the conversation with the codec engine.
//!
//! The caller owns the engine, the two readers and the writer. It calls the
//! engine, hands the signal to `ProcessState::step`, does what the answer
//! says, and reports what its reads and writes brought. Every decision is
//! taken here, so a caller that blocks and one that suspends behave alike.

use vstd::prelude::*;
use vstd::arithmetic::power2::lemma_pow2_pos;
use crate::config::Xd3Config;
use crate::error::{ReadEvent, WriteEvent, Xd3Error};
use crate::signal::Signal;
use crate::source_cache::{BlockStatus, SrcBuffer};
use crate::source_model::{
    lemma_select, lemma_supply, CacheModel, SourceDescriptor, RESIDENT_BLOCKS, SOURCE_BLOCK_COUNT,
};

verus! {

/// What the driver does after a signal of the engine.
#[derive(Clone, Copy, Debug, PartialEq, Eq, Structural)]
pub enum Action {
    /// Read up to this many bytes of the target and report them; go on
    /// reading until the window is reported ready, then call the engine.
    ReadInput(usize),
    /// Write the engine's output to the sink, report how that ended, mark the
    /// output as taken, and call the engine.
    WriteOutput,
    /// Get the block the engine asked for from the cache, and call the engine.
    GetSourceBlock,
    /// Call the engine again.
    Continue,
    /// Flush the sink, report how that ended, and return: the run is done.
    Finish,
}

/// Whether the input window can be handed to the engine yet.
#[derive(Clone, Copy, Debug, PartialEq, Eq, Structural)]
pub enum InputStatus {
    /// The window is full, or the target has ended: hand it to the engine.
    Ready,
    /// Read up to this many more bytes of the target and report them.
    NeedRead(usize),
}

/// The answer to `signal`, given whether the end of the target was seen.
pub open spec fn react(eof: bool, window: nat, signal: Signal) -> Result<Action, Xd3Error> {
    match signal {
        Signal::NeedInput => if eof {
            Ok(Action::Finish)
        } else {
            Ok(Action::ReadInput(window as usize))
        },
        Signal::HaveOutput => Ok(Action::WriteOutput),
        Signal::NeedSourceBlock => Ok(Action::GetSourceBlock),
        Signal::HeaderParsed | Signal::WindowStart | Signal::WindowFinish => Ok(Action::Continue),
        Signal::TooFarBack
        | Signal::Internal
        | Signal::Invalid
        | Signal::InvalidInput
        | Signal::NoSecond
        | Signal::Unimplemented => Err(Xd3Error::EngineSignalError(signal)),
    }
}

/// State of the driver.
pub struct PumpModel {
    /// Size of the input window, in bytes.
    pub window: nat,
    /// The bytes of the input window.
    pub input: Seq<u8>,
    /// Whether the window is still being filled.
    pub reading: bool,
    /// Whether a read of the target has brought no bytes. The engine is told
    /// to flush from then on.
    pub eof: bool,
    /// Why the run was given up, if it was.
    pub failed: Option<Xd3Error>,
    /// The source block cache.
    pub source: CacheModel,
}

impl PumpModel {
    /// The driver before anything was read.
    pub open spec fn init(window: u32, source: CacheModel) -> PumpModel {
        PumpModel {
            window: window as nat,
            input: Seq::empty(),
            reading: false,
            eof: false,
            failed: None,
            source,
        }
    }

    /// What holds of every state the driver can reach.
    pub open spec fn inv(self) -> bool {
        &&& 1 <= self.window <= u32::MAX
        &&& self.input.len() <= self.window
        &&& self.reading ==> self.input.len() < self.window
        &&& self.source.inv()
    }

    /// Number of bytes in the window being filled.
    pub open spec fn filled(self) -> nat {
        if self.reading {
            self.input.len()
        } else {
            0
        }
    }

    /// Most bytes the next read of the target may bring.
    pub open spec fn wanted(self) -> nat {
        (self.window - self.filled()) as nat
    }

    /// Whether a read that brings `chunk` makes the window ready.
    pub open spec fn completes(self, chunk: Seq<u8>) -> bool {
        chunk.len() == 0 || self.filled() + chunk.len() >= self.window
    }

    /// The driver after a read of the target has brought `chunk`. A window is
    /// begun if none is being filled. An empty `chunk` is the end of the
    /// target.
    pub open spec fn take(self, chunk: Seq<u8>) -> PumpModel {
        PumpModel {
            input: if self.reading {
                self.input + chunk
            } else {
                chunk
            },
            reading: !self.completes(chunk),
            eof: self.eof || chunk.len() == 0,
            ..self
        }
    }

    /// The driver after the run was given up for `e`.
    pub open spec fn fail(self, e: Xd3Error) -> PumpModel {
        PumpModel { failed: Some(e), ..self }
    }

    /// The driver with another state of the cache.
    pub open spec fn with_source(self, source: CacheModel) -> PumpModel {
        PumpModel { source, ..self }
    }

    /// A signal of the engine: the next state and the answer.
    pub open spec fn on_signal(self, signal: Signal) -> (PumpModel, Result<Action, Xd3Error>) {
        match self.failed {
            Some(e) => (self, Err(e)),
            None => match react(self.eof, self.window, signal) {
                Ok(a) => (self, Ok(a)),
                Err(e) => (self.fail(e), Err(e)),
            },
        }
    }

    /// A read of the target: the next state and the answer.
    pub open spec fn on_input(self, event: Option<Seq<u8>>) -> (
        PumpModel,
        Result<InputStatus, Xd3Error>,
    ) {
        match self.failed {
            Some(e) => (self, Err(e)),
            None => match event {
                None => (self.fail(Xd3Error::TargetReadError), Err(Xd3Error::TargetReadError)),
                Some(chunk) => (
                    self.take(chunk),
                    Ok(
                        if self.completes(chunk) {
                            InputStatus::Ready
                        } else {
                            InputStatus::NeedRead(self.take(chunk).wanted() as usize)
                        },
                    ),
                ),
            },
        }
    }

    /// A request for source block `k`: the next state and the answer.
    pub open spec fn on_block_request(self, k: u64) -> (PumpModel, Result<BlockStatus, Xd3Error>) {
        match self.failed {
            Some(e) => (self, Err(e)),
            None => if self.source.holds(k as nat) {
                (self.with_source(self.source.select(k)), Ok(BlockStatus::Ready))
            } else if k < self.source.lowest {
                (
                    self.fail(Xd3Error::CacheConsistencyError),
                    Err(Xd3Error::CacheConsistencyError),
                )
            } else {
                (
                    self.with_source(self.source.request(k)),
                    Ok(BlockStatus::NeedRead(self.source.wanted() as usize)),
                )
            },
        }
    }

    /// A read of the source: the next state and the answer.
    pub open spec fn on_source(self, event: Option<Seq<u8>>) -> (PumpModel, Result<(), Xd3Error>) {
        match self.failed {
            Some(e) => (self, Err(e)),
            None => match event {
                None => (self.fail(Xd3Error::SourceReadError), Err(Xd3Error::SourceReadError)),
                Some(chunk) => (self.with_source(self.source.supply(chunk)), Ok(())),
            },
        }
    }

    /// The end of a write to the sink or of its flush: the next state and the
    /// answer.
    pub open spec fn on_write(self, event: WriteEvent) -> (PumpModel, Result<(), Xd3Error>) {
        match self.failed {
            Some(e) => (self, Err(e)),
            None => match event {
                WriteEvent::Failed => (
                    self.fail(Xd3Error::OutputWriteError),
                    Err(Xd3Error::OutputWriteError),
                ),
                WriteEvent::Done => (self, Ok(())),
            },
        }
    }

    /// The driver after the reads `chunks` of the target, in their order.
    pub open spec fn take_all(self, chunks: Seq<Seq<u8>>) -> PumpModel
        decreases chunks.len(),
    {
        if chunks.len() == 0 {
            self
        } else {
            self.take_all(chunks.drop_last()).take(chunks.last())
        }
    }
}

/// A read of the target that brings no more than was asked for keeps the
/// driver in order.
pub proof fn lemma_take(m: PumpModel, chunk: Seq<u8>)
    requires
        m.inv(),
        chunk.len() <= m.wanted(),
    ensures
        m.take(chunk).inv(),
        m.take(chunk).source == m.source,
        m.take(chunk).window == m.window,
{
}

/// Once a read of the target has brought nothing, the engine's next call for
/// input ends the run: no further read is asked for, whatever was read in
/// between.
pub proof fn law_no_read_after_end(m: PumpModel, chunks: Seq<Seq<u8>>)
    requires
        m.eof,
    ensures
        m.take_all(chunks).eof,
        react(m.take_all(chunks).eof, m.window, Signal::NeedInput) == Ok::<Action, Xd3Error>(
            Action::Finish,
        ),
    decreases chunks.len(),
{
    if chunks.len() > 0 {
        law_no_read_after_end(m, chunks.drop_last());
    }
}

/// An empty target: the first read brings nothing, the window handed to the
/// engine is empty and flagged as the last, and the next call for input ends
/// the run without a read.
pub proof fn law_empty_target(window: u32, source: CacheModel)
    ensures
        ({
            let start = PumpModel::init(window, source);
            let m = start.on_input(Some(Seq::empty())).0;
            &&& start.on_input(Some(Seq::empty())).1 == Ok::<InputStatus, Xd3Error>(
                InputStatus::Ready,
            )
            &&& m.input.len() == 0
            &&& m.eof
            &&& m.on_signal(Signal::NeedInput) == (m, Ok::<Action, Xd3Error>(Action::Finish))
        }),
{
}

/// A window that is handed to the engine is short exactly when the target
/// has ended, as long as the end had not been seen before.
pub proof fn law_short_window_is_end(m: PumpModel, chunk: Seq<u8>)
    requires
        m.inv(),
        !m.eof,
        chunk.len() <= m.wanted(),
        m.completes(chunk),
    ensures
        m.take(chunk).eof <==> m.take(chunk).input.len() < m.window,
{
}

/// The engine's signals that end the run are answered with an error that
/// names the signal, and no other signal is.
pub proof fn law_error_signals(eof: bool, window: nat, signal: Signal)
    ensures
        signal.spec_is_error() <==> react(eof, window, signal) == Err::<Action, Xd3Error>(
            Xd3Error::EngineSignalError(signal),
        ),
        !signal.spec_is_error() ==> react(eof, window, signal) is Ok,
{
}

/// A failed read of the source gives up the run with `SourceReadError`.
pub proof fn law_source_failure(m: PumpModel)
    requires
        m.failed is None,
    ensures
        m.on_source(None) == (
            m.fail(Xd3Error::SourceReadError),
            Err::<(), Xd3Error>(Xd3Error::SourceReadError),
        ),
{
}

/// Once the run was given up, it stays given up: every later signal and
/// report is answered with the same error and changes nothing. So no output
/// is asked for after a failure.
pub proof fn law_failure_is_final(
    m: PumpModel,
    e: Xd3Error,
    signal: Signal,
    chunk: Option<Seq<u8>>,
    k: u64,
    written: WriteEvent,
)
    requires
        m.failed == Some(e),
    ensures
        m.on_signal(signal) == (m, Err::<Action, Xd3Error>(e)),
        m.on_input(chunk) == (m, Err::<InputStatus, Xd3Error>(e)),
        m.on_block_request(k) == (m, Err::<BlockStatus, Xd3Error>(e)),
        m.on_source(chunk) == (m, Err::<(), Xd3Error>(e)),
        m.on_write(written) == (m, Err::<(), Xd3Error>(e)),
        m.on_signal(signal).1 != Ok::<Action, Xd3Error>(Action::WriteOutput),
{
}

/// The driver: configuration, source block cache and input window.
pub struct ProcessState {
    cfg: Xd3Config,
    src_buf: SrcBuffer,
    input_buf: Vec<u8>,
    reading: bool,
    eof: bool,
    failed: Option<Xd3Error>,
}

impl View for ProcessState {
    type V = PumpModel;

    closed spec fn view(&self) -> PumpModel {
        PumpModel {
            window: self.cfg.spec_winsize() as nat,
            input: self.input_buf@,
            reading: self.reading,
            eof: self.eof,
            failed: self.failed,
            source: self.src_buf@,
        }
    }
}

impl ProcessState {
    /// The configuration the driver was built with.
    pub closed spec fn spec_config(&self) -> Xd3Config {
        self.cfg
    }

    /// The cache is in order.
    pub closed spec fn repr(&self) -> bool {
        self.src_buf.wf()
    }

    /// The driver is in a state it can reach.
    pub open spec fn wf(&self) -> bool {
        &&& self@.inv()
        &&& self@.source.capacity == RESIDENT_BLOCKS
        &&& self@.source.fetched() <= u64::MAX
        &&& self.repr()
    }

    /// A driver for `cfg`, with nothing read. The configuration is refused
    /// where it gives no usable block size.
    pub fn new(cfg: Xd3Config) -> (r: Result<ProcessState, Xd3Error>)
        requires
            cfg.wf(),
        ensures
            match r {
                Ok(state) => {
                    &&& SrcBuffer::block_size_ok(&cfg)
                    &&& state.wf()
                    &&& state.spec_config() == cfg
                    &&& state@ == PumpModel::init(
                        cfg.spec_winsize(),
                        CacheModel::init(
                            (cfg.spec_source_window_size() / SOURCE_BLOCK_COUNT) as u32,
                            cfg.spec_source_window_size(),
                            RESIDENT_BLOCKS as nat,
                        ),
                    )
                },
                Err(e) => e == Xd3Error::ConfigurationError && !SrcBuffer::block_size_ok(&cfg),
            },
    {
        let src_buf = match SrcBuffer::new(&cfg) {
            Ok(b) => b,
            Err(e) => {
                return Err(e);
            },
        };
        let input_buf: Vec<u8> = Vec::with_capacity(cfg.winsize() as usize);
        proof {
            let k = choose|k: nat| vstd::arithmetic::power2::pow2(k) == cfg.spec_winsize() as int;
            lemma_pow2_pos(k);
        }
        let state = ProcessState {
            cfg,
            src_buf,
            input_buf,
            reading: false,
            eof: false,
            failed: None,
        };
        assert(state@.input =~= Seq::<u8>::empty());
        Ok(state)
    }

    /// The answer to a signal of the engine.
    pub fn step(&mut self, signal: Signal) -> (r: Result<Action, Xd3Error>)
        requires
            old(self).wf(),
        ensures
            final(self).wf(),
            final(self).spec_config() == old(self).spec_config(),
            (final(self)@, r) == old(self)@.on_signal(signal),
    {
        if let Some(e) = self.failed {
            return Err(e);
        }
        match signal {
            Signal::NeedInput => if self.eof {
                Ok(Action::Finish)
            } else {
                Ok(Action::ReadInput(self.cfg.winsize() as usize))
            },
            Signal::HaveOutput => Ok(Action::WriteOutput),
            Signal::NeedSourceBlock => Ok(Action::GetSourceBlock),
            Signal::HeaderParsed | Signal::WindowStart | Signal::WindowFinish => Ok(
                Action::Continue,
            ),
            Signal::TooFarBack
            | Signal::Internal
            | Signal::Invalid
            | Signal::InvalidInput
            | Signal::NoSecond
            | Signal::Unimplemented => {
                let e = Xd3Error::EngineSignalError(signal);
                self.failed = Some(e);
                Err(e)
            },
        }
    }

    /// Takes in what a read of the target brought. The window is ready when
    /// it is full or when the read brought nothing; a read that brought
    /// nothing also marks the end of the target.
    pub fn read_input(&mut self, event: ReadEvent<'_>) -> (r: Result<InputStatus, Xd3Error>)
        requires
            old(self).wf(),
            old(self)@.failed is None ==> (event matches ReadEvent::Data(chunk) ==> chunk@.len()
                <= old(self)@.wanted()),
        ensures
            final(self).wf(),
            final(self).spec_config() == old(self).spec_config(),
            (final(self)@, r) == old(self)@.on_input(event@),
    {
        if let Some(e) = self.failed {
            return Err(e);
        }
        let chunk: &[u8] = match event {
            ReadEvent::Data(chunk) => chunk,
            ReadEvent::Failed => {
                self.failed = Some(Xd3Error::TargetReadError);
                return Err(Xd3Error::TargetReadError);
            },
        };
        let window: usize = self.cfg.winsize() as usize;
        if !self.reading {
            self.input_buf.clear();
        }
        let ghost head = self.input_buf@;
        self.input_buf.extend_from_slice(chunk);
        assert(self.input_buf@ =~= head + chunk@);
        if chunk.len() == 0 {
            self.eof = true;
        }
        if chunk.len() == 0 || self.input_buf.len() >= window {
            self.reading = false;
            assert(self@ == old(self)@.take(chunk@));
            Ok(InputStatus::Ready)
        } else {
            self.reading = true;
            assert(self@ == old(self)@.take(chunk@));
            Ok(InputStatus::NeedRead(window - self.input_buf.len()))
        }
    }

    /// Takes in how a write of the engine's output to the sink, or the flush
    /// at the end of the run, ended.
    pub fn write_output(&mut self, event: WriteEvent) -> (r: Result<(), Xd3Error>)
        requires
            old(self).wf(),
        ensures
            final(self).wf(),
            final(self).spec_config() == old(self).spec_config(),
            (final(self)@, r) == old(self)@.on_write(event),
    {
        if let Some(e) = self.failed {
            return Err(e);
        }
        match event {
            WriteEvent::Done => Ok(()),
            WriteEvent::Failed => {
                self.failed = Some(Xd3Error::OutputWriteError);
                Err(Xd3Error::OutputWriteError)
            },
        }
    }

    /// Looks for source block `blkno`. If it is kept, the descriptor is made
    /// to describe it. If it is still to be read, says how many bytes to read
    /// next. If it was let go, the run is given up.
    pub fn getblk(&mut self, blkno: u64) -> (r: Result<BlockStatus, Xd3Error>)
        requires
            old(self).wf(),
        ensures
            final(self).wf(),
            final(self).spec_config() == old(self).spec_config(),
            (final(self)@, r) == old(self)@.on_block_request(blkno),
    {
        if let Some(e) = self.failed {
            return Err(e);
        }
        proof {
            if old(self)@.source.holds(blkno as nat) {
                lemma_select(old(self)@.source, blkno);
            }
        }
        match self.src_buf.getblk(blkno) {
            Ok(status) => Ok(status),
            Err(e) => {
                self.failed = Some(e);
                Err(e)
            },
        }
    }

    /// Takes in what a read of the source brought.
    pub fn fetch(&mut self, event: ReadEvent<'_>) -> (r: Result<(), Xd3Error>)
        requires
            old(self).wf(),
            old(self)@.failed is None ==> {
                &&& old(self)@.source.fetched() < u64::MAX
                &&& event matches ReadEvent::Data(chunk) ==> chunk@.len() <= old(
                    self,
                )@.source.wanted()
            },
        ensures
            final(self).wf(),
            final(self).spec_config() == old(self).spec_config(),
            (final(self)@, r) == old(self)@.on_source(event@),
    {
        if let Some(e) = self.failed {
            return Err(e);
        }
        proof {
            if let ReadEvent::Data(chunk) = event {
                lemma_supply(old(self)@.source, chunk@);
            }
        }
        match self.src_buf.fetch(event) {
            Ok(()) => Ok(()),
            Err(e) => {
                self.failed = Some(e);
                Err(e)
            },
        }
    }

    /// The bytes of the input window, for the engine.
    pub fn input(&self) -> (r: &[u8])
        ensures
            r@ == self@.input,
    {
        self.input_buf.as_slice()
    }

    /// Whether the end of the target was seen.
    pub fn is_eof(&self) -> (r: bool)
        ensures
            r == self@.eof,
    {
        self.eof
    }

    /// Whether the engine is to finish the stream with the input at hand:
    /// from the end of the target on.
    pub fn flush_requested(&self) -> (r: bool)
        ensures
            r == self@.eof,
    {
        self.eof
    }

    /// Why the run was given up, if it was.
    pub fn failure(&self) -> (r: Option<Xd3Error>)
        ensures
            r == self@.failed,
    {
        self.failed
    }

    /// The configuration the driver was built with.
    pub fn config(&self) -> (r: &Xd3Config)
        ensures
            *r == self.spec_config(),
    {
        &self.cfg
    }

    /// The source descriptor as the engine is to see it.
    pub fn source_descriptor(&self) -> (r: SourceDescriptor)
        ensures
            r == self@.source.desc,
    {
        self.src_buf.descriptor()
    }

    /// The bytes of the current source block, while it is kept.
    pub fn current_block(&self) -> (r: Option<&[u8]>)
        requires
            self.wf(),
        ensures
            match r {
                Some(bytes) => {
                    &&& self@.source.current_valid
                    &&& bytes@ == self@.source.blocks[self@.source.desc.current_block_index as int]
                },
                None => !self@.source.current_valid,
            },
    {
        self.src_buf.current_block()
    }

    /// The source block cache.
    pub fn source(&self) -> (r: &SrcBuffer)
        requires
            self.wf(),
        ensures
            r.wf(),
            r@ == self@.source,
    {
        &self.src_buf
    }
}

} // verus!
