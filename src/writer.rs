//! The pipelined write state machine.
//!
//! The sink, its reservations, its encode operations and its flush handles
//! live with the driver; the machine says which of them to poll next and how
//! the sink passes from one to the next. A resume is a run of such polls: the
//! driver calls `resume`, then reports each poll's outcome through the
//! matching `on_*` method, until a step says `Suspend`, `Complete` or `Fail`.
use vstd::prelude::*;
use crate::source::{FusedSource, SourcePoll};
use crate::tokens::ALL_TOKENS;

verus! {

/// Where the machine stands, and which sub-operation owns the sink.
pub enum State<T> {
    /// Between transitions, or finished; never seen by a caller mid-run.
    Empty,
    /// Waiting for an item; a flush handle (perhaps not yet driven) holds the sink.
    Read,
    /// A reservation of buffer room for the held item owns the sink.
    Reserve(T),
    /// An encode operation owns the sink.
    Write,
    /// The flush handle is being driven; only ever seen within a resume.
    Flush,
}

/// What one poll of a reservation, an encode operation or a flush gave.
pub enum SinkPoll<E> {
    /// The operation resolved and hands the sink back.
    Ready,
    /// Not yet.
    NotReady,
    /// The operation failed; the sink is lost.
    Error(E),
}

/// Why the machine failed. Any failure ends it.
pub enum WriteError<E> {
    /// The item source failed.
    Source(E),
    /// No buffer room could be had; the transport failed.
    Reserve(E),
    /// The item could not be encoded, or the sink failed while encoding.
    Write(E),
    /// The transport failed while the buffer was being drained.
    Flush(E),
}

/// How the sink changes hands before the next poll.
pub enum Effect<T> {
    /// Nothing changes hands.
    Keep,
    /// Take the sink out of the flush handle without flushing and reserve
    /// this many bytes of buffer room with it.
    Reserve(usize),
    /// Take the sink (out of the flush handle, or from the granted
    /// reservation) and start encoding this item into it.
    Encode(T),
    /// Wrap the sink the finished operation handed back in a new flush
    /// handle, which does no I/O until driven.
    BeginFlush,
}

/// What the driver does next; the tokens filter the poll.
pub enum Next<E> {
    /// Poll the item source and report through `on_source`.
    PollSource(u64),
    /// Poll the reservation and report through `on_reserve`.
    PollReserve(u64),
    /// Poll the encode operation and report through `on_write`.
    PollWrite(u64),
    /// Drive the flush handle and report through `on_flush`.
    DriveFlush(u64),
    /// Return "not ready" to the caller, who registers interest and resumes later.
    Suspend,
    /// The source is exhausted and the buffer drained: the machine is done.
    Complete,
    Fail(WriteError<E>),
}

/// One decision: first hand the sink over as `effect` says, then do `next`.
pub struct Step<T, E> {
    pub effect: Effect<T>,
    pub next: Next<E>,
}

/// Which readiness sources to register interest in while suspended.
pub struct Interest {
    pub source: bool,
    pub flush: bool,
    pub reserve: bool,
    pub write: bool,
}

/// The machine's abstract state.
pub struct WriterView<T> {
    pub state: State<T>,
    /// The source has ended.
    pub exhausted: bool,
    /// A poll has been asked for and its outcome not yet reported.
    pub polling: bool,
    /// Every item the source has yielded, in order.
    pub received: Seq<T>,
    /// Every item handed to the encoder, in order.
    pub encoded: Seq<T>,
    /// How many encode operations have finished.
    pub completed: nat,
}

impl<T> WriterView<T> {
    pub open spec fn wf(self) -> bool {
        &&& (self.state is Flush ==> self.polling)
        &&& (self.state is Empty ==> !self.polling)
        &&& self.encoded.len() <= self.received.len()
        &&& self.encoded == self.received.subrange(0, self.encoded.len() as int)
        &&& self.received.len() <= self.encoded.len() + 1
        &&& (!(self.state is Empty) ==>
                self.received.len() == self.encoded.len() + if self.state is Reserve { 1int } else { 0int })
        &&& (self.state is Reserve ==> self.received.last() == self.state->Reserve_0)
        &&& (!(self.state is Empty) ==>
                self.encoded.len() == self.completed + if self.state is Write { 1int } else { 0int })
        &&& (self.polling && self.state is Read ==> !self.exhausted)
    }

    /// Suspended, and free to be resumed.
    pub open spec fn resumable(self) -> bool {
        &&& !self.polling
        &&& (self.state is Read || self.state is Reserve || self.state is Write)
    }

    pub open spec fn terminated(self) -> (WriterView<T>) {
        WriterView { state: State::Empty, polling: false, ..self }
    }

    pub open spec fn suspended(self, state: State<T>) -> (WriterView<T>) {
        WriterView { state, polling: false, ..self }
    }
}

pub open spec fn step<T, E>(effect: Effect<T>, next: Next<E>) -> Step<T, E> {
    Step { effect, next }
}

/// Entering `Read` within a resume: look for another item, or, once the
/// source has ended, go straight to driving the flush.
pub open spec fn enter_read<T, E>(v: WriterView<T>, effect: Effect<T>) -> (WriterView<T>, Step<T, E>) {
    if v.exhausted {
        (WriterView { state: State::Flush, polling: true, ..v }, step(effect, Next::DriveFlush(ALL_TOKENS)))
    } else {
        (WriterView { state: State::Read, polling: true, ..v }, step(effect, Next::PollSource(ALL_TOKENS)))
    }
}

pub open spec fn resume_spec<T, E>(v: WriterView<T>, tokens: u64) -> (WriterView<T>, Step<T, E>) {
    match v.state {
        State::Read => if v.exhausted {
            (WriterView { state: State::Flush, polling: true, ..v }, step(Effect::Keep, Next::DriveFlush(ALL_TOKENS)))
        } else {
            (WriterView { polling: true, ..v }, step(Effect::Keep, Next::PollSource(tokens)))
        },
        State::Reserve(_) => (WriterView { polling: true, ..v }, step(Effect::Keep, Next::PollReserve(tokens))),
        _ => (WriterView { polling: true, ..v }, step(Effect::Keep, Next::PollWrite(tokens))),
    }
}

pub open spec fn on_source_spec<T, E>(v: WriterView<T>, ev: SourcePoll<T, E>) -> (WriterView<T>, Step<T, E>) {
    match ev {
        SourcePoll::Item(x, Some(n)) => (
            WriterView { state: State::Reserve(x), received: v.received.push(x), ..v },
            step(Effect::Reserve(n), Next::PollReserve(ALL_TOKENS)),
        ),
        SourcePoll::Item(x, None) => (
            WriterView { state: State::Write, received: v.received.push(x), encoded: v.encoded.push(x), ..v },
            step(Effect::Encode(x), Next::PollWrite(ALL_TOKENS)),
        ),
        SourcePoll::End => (
            WriterView { state: State::Flush, exhausted: true, ..v },
            step(Effect::Keep, Next::DriveFlush(ALL_TOKENS)),
        ),
        SourcePoll::NotReady => (
            WriterView { state: State::Flush, ..v },
            step(Effect::Keep, Next::DriveFlush(ALL_TOKENS)),
        ),
        SourcePoll::Error(e) => (v.terminated(), step(Effect::Keep, Next::Fail(WriteError::Source(e)))),
    }
}

pub open spec fn on_reserve_spec<T, E>(v: WriterView<T>, ev: SinkPoll<E>) -> (WriterView<T>, Step<T, E>) {
    let x = v.state->Reserve_0;
    match ev {
        SinkPoll::Ready => (
            WriterView { state: State::Write, encoded: v.encoded.push(x), ..v },
            step(Effect::Encode(x), Next::PollWrite(ALL_TOKENS)),
        ),
        SinkPoll::NotReady => (v.suspended(v.state), step(Effect::Keep, Next::Suspend)),
        SinkPoll::Error(e) => (v.terminated(), step(Effect::Keep, Next::Fail(WriteError::Reserve(e)))),
    }
}

pub open spec fn on_write_spec<T, E>(v: WriterView<T>, ev: SinkPoll<E>) -> (WriterView<T>, Step<T, E>) {
    match ev {
        SinkPoll::Ready => enter_read(WriterView { completed: v.completed + 1, ..v }, Effect::BeginFlush),
        SinkPoll::NotReady => (v.suspended(v.state), step(Effect::Keep, Next::Suspend)),
        SinkPoll::Error(e) => (v.terminated(), step(Effect::Keep, Next::Fail(WriteError::Write(e)))),
    }
}

pub open spec fn on_flush_spec<T, E>(v: WriterView<T>, ev: SinkPoll<E>) -> (WriterView<T>, Step<T, E>) {
    match ev {
        SinkPoll::Ready => if v.exhausted {
            (v.terminated(), step(Effect::Keep, Next::Complete))
        } else {
            (v.suspended(State::Read), step(Effect::BeginFlush, Next::Suspend))
        },
        SinkPoll::NotReady => (v.suspended(State::Read), step(Effect::Keep, Next::Suspend)),
        SinkPoll::Error(e) => (v.terminated(), step(Effect::Keep, Next::Fail(WriteError::Flush(e)))),
    }
}

pub open spec fn interest_spec<T>(v: WriterView<T>, flush_dirty: bool) -> Interest {
    Interest {
        source: v.state is Read,
        flush: v.state is Read && flush_dirty,
        reserve: v.state is Reserve,
        write: v.state is Write,
    }
}

/// One report from the driver: a resume, or the outcome of the poll asked for.
pub enum Input<T, E> {
    Resume(u64),
    Source(SourcePoll<T, E>),
    Reserve(SinkPoll<E>),
    Write(SinkPoll<E>),
    Flush(SinkPoll<E>),
}

/// When the machine accepts an input: a resume only while suspended, and a
/// poll outcome only for the poll that the current state asked for.
pub open spec fn accepts<T, E>(v: WriterView<T>, input: Input<T, E>) -> bool {
    match input {
        Input::Resume(_) => v.resumable(),
        Input::Source(_) => v.polling && v.state is Read,
        Input::Reserve(_) => v.polling && v.state is Reserve,
        Input::Write(_) => v.polling && v.state is Write,
        Input::Flush(_) => v.polling && v.state is Flush,
    }
}

/// The machine's whole transition relation, one method per input kind.
pub open spec fn transition<T, E>(v: WriterView<T>, input: Input<T, E>) -> (WriterView<T>, Step<T, E>) {
    match input {
        Input::Resume(tokens) => resume_spec(v, tokens),
        Input::Source(ev) => on_source_spec(v, ev),
        Input::Reserve(ev) => on_reserve_spec(v, ev),
        Input::Write(ev) => on_write_spec(v, ev),
        Input::Flush(ev) => on_flush_spec(v, ev),
    }
}

/// Drives items from a source through encoding into one buffered sink,
/// flushing only when no item is immediately available.
pub struct PipelinedWriter<T> {
    items: FusedSource,
    state: State<T>,
    polling: bool,
    received: Ghost<Seq<T>>,
    encoded: Ghost<Seq<T>>,
    completed: Ghost<nat>,
}

impl<T> View for PipelinedWriter<T> {
    type V = WriterView<T>;

    closed spec fn view(&self) -> WriterView<T> {
        WriterView {
            state: self.state,
            exhausted: self.items.done(),
            polling: self.polling,
            received: self.received@,
            encoded: self.encoded@,
            completed: self.completed@,
        }
    }
}

impl<T> PipelinedWriter<T> {
    /// A machine for a fresh source and a settled sink, which the driver
    /// wraps in a flush handle: it starts in `Read`.
    pub fn new() -> (r: PipelinedWriter<T>)
        ensures
            r@.wf(),
            r@.state is Read,
            !r@.exhausted,
            !r@.polling,
            r@.received.len() == 0,
            r@.encoded.len() == 0,
            r@.completed == 0,
    {
        let r = PipelinedWriter {
            items: FusedSource::new(),
            state: State::Read,
            polling: false,
            received: Ghost(Seq::empty()),
            encoded: Ghost(Seq::empty()),
            completed: Ghost(0),
        };
        assert(r@.received.subrange(0, 0) =~= r@.encoded);
        r
    }

    pub fn state(&self) -> (r: &State<T>)
        ensures
            *r == self@.state,
    {
        &self.state
    }

    pub fn is_polling(&self) -> (r: bool)
        ensures
            r == self@.polling,
    {
        self.polling
    }

    pub fn is_exhausted(&self) -> (r: bool)
        ensures
            r == self@.exhausted,
    {
        self.items.is_done()
    }

    /// Whether `resume` may be called now: the machine is suspended, and not
    /// finished or failed.
    pub fn is_resumable(&self) -> (r: bool)
        requires
            self@.wf(),
        ensures
            r == self@.resumable(),
    {
        !self.polling && match self.state {
            State::Read | State::Reserve(_) | State::Write => true,
            _ => false,
        }
    }

    fn take_state(&mut self) -> (r: State<T>)
        ensures
            r == old(self).state,
            final(self).state is Empty,
            final(self).items == old(self).items,
            final(self).polling == old(self).polling,
            final(self).received == old(self).received,
            final(self).encoded == old(self).encoded,
            final(self).completed == old(self).completed,
    {
        let mut st = State::Empty;
        std::mem::swap(&mut self.state, &mut st);
        st
    }

    /// Starts a resume, filtered by `tokens`. Resuming while a resume is still
    /// running (in particular while its flush is being driven), or after the
    /// machine has finished, is a caller error.
    pub fn resume<E>(&mut self, tokens: u64) -> (r: Step<T, E>)
        requires
            old(self)@.wf(),
            old(self)@.resumable(),
        ensures
            final(self)@.wf(),
            (final(self)@, r) == resume_spec::<T, E>(old(self)@, tokens),
    {
        self.polling = true;
        match self.state {
            State::Read => {
                if self.items.is_done() {
                    self.state = State::Flush;
                    Step { effect: Effect::Keep, next: Next::DriveFlush(ALL_TOKENS) }
                } else {
                    Step { effect: Effect::Keep, next: Next::PollSource(tokens) }
                }
            },
            State::Reserve(_) => Step { effect: Effect::Keep, next: Next::PollReserve(tokens) },
            _ => Step { effect: Effect::Keep, next: Next::PollWrite(tokens) },
        }
    }

    /// Reports what the source gave when polled.
    pub fn on_source<E>(&mut self, ev: SourcePoll<T, E>) -> (r: Step<T, E>)
        requires
            old(self)@.wf(),
            old(self)@.polling,
            old(self)@.state is Read,
        ensures
            final(self)@.wf(),
            (final(self)@, r) == on_source_spec(old(self)@, ev),
    {
        let ev = self.items.record(ev);
        match ev {
            SourcePoll::Item(x, hint) => {
                proof {
                    let v = old(self)@;
                    assert(v.encoded == v.received);
                    assert(v.received.push(x).subrange(0, v.encoded.len() as int) =~= v.encoded);
                    assert(v.received.push(x).subrange(0, v.encoded.len() + 1int) =~= v.encoded.push(x));
                }
                self.received = Ghost(self.received@.push(x));
                match hint {
                    Some(n) => {
                        self.state = State::Reserve(x);
                        Step { effect: Effect::Reserve(n), next: Next::PollReserve(ALL_TOKENS) }
                    },
                    None => {
                        self.encoded = Ghost(self.encoded@.push(x));
                        self.state = State::Write;
                        Step { effect: Effect::Encode(x), next: Next::PollWrite(ALL_TOKENS) }
                    },
                }
            },
            SourcePoll::End | SourcePoll::NotReady => {
                self.state = State::Flush;
                Step { effect: Effect::Keep, next: Next::DriveFlush(ALL_TOKENS) }
            },
            SourcePoll::Error(e) => {
                self.state = State::Empty;
                self.polling = false;
                Step { effect: Effect::Keep, next: Next::Fail(WriteError::Source(e)) }
            },
        }
    }
    /// Reports what the reservation gave when polled.
    pub fn on_reserve<E>(&mut self, ev: SinkPoll<E>) -> (r: Step<T, E>)
        requires
            old(self)@.wf(),
            old(self)@.polling,
            old(self)@.state is Reserve,
        ensures
            final(self)@.wf(),
            (final(self)@, r) == on_reserve_spec(old(self)@, ev),
    {
        match ev {
            SinkPoll::Ready => {
                let st = self.take_state();
                match st {
                    State::Reserve(x) => {
                        proof {
                            let v = old(self)@;
                            assert(v.received.subrange(0, v.encoded.len() + 1int) =~= v.encoded.push(x));
                            assert(v.received =~= v.encoded.push(x));
                            assert(v.received.subrange(0, v.received.len() as int) =~= v.received);
                        }
                        self.encoded = Ghost(self.encoded@.push(x));
                        self.state = State::Write;
                        Step { effect: Effect::Encode(x), next: Next::PollWrite(ALL_TOKENS) }
                    },
                    _ => {
                        // `requires` puts the machine in `Reserve`.
                        proof {
                            assert(false);
                        }
                        self.state = st;
                        Step { effect: Effect::Keep, next: Next::Suspend }
                    },
                }
            },
            SinkPoll::NotReady => {
                self.polling = false;
                Step { effect: Effect::Keep, next: Next::Suspend }
            },
            SinkPoll::Error(e) => {
                self.state = State::Empty;
                self.polling = false;
                Step { effect: Effect::Keep, next: Next::Fail(WriteError::Reserve(e)) }
            },
        }
    }

    /// Reports what the encode operation gave when polled. Once it is done,
    /// the next item is looked for before the new flush handle is driven.
    pub fn on_write<E>(&mut self, ev: SinkPoll<E>) -> (r: Step<T, E>)
        requires
            old(self)@.wf(),
            old(self)@.polling,
            old(self)@.state is Write,
        ensures
            final(self)@.wf(),
            (final(self)@, r) == on_write_spec(old(self)@, ev),
    {
        match ev {
            SinkPoll::Ready => {
                self.completed = Ghost(self.completed@ + 1);
                if self.items.is_done() {
                    self.state = State::Flush;
                    Step { effect: Effect::BeginFlush, next: Next::DriveFlush(ALL_TOKENS) }
                } else {
                    self.state = State::Read;
                    Step { effect: Effect::BeginFlush, next: Next::PollSource(ALL_TOKENS) }
                }
            },
            SinkPoll::NotReady => {
                self.polling = false;
                Step { effect: Effect::Keep, next: Next::Suspend }
            },
            SinkPoll::Error(e) => {
                self.state = State::Empty;
                self.polling = false;
                Step { effect: Effect::Keep, next: Next::Fail(WriteError::Write(e)) }
            },
        }
    }

    /// Reports what driving the flush handle gave. Whatever it gave, the
    /// resume ends here: a drained buffer either completes the machine or
    /// yields to the caller, and a stalled flush leaves the machine in `Read`
    /// so that new items can still be encoded ahead of it.
    pub fn on_flush<E>(&mut self, ev: SinkPoll<E>) -> (r: Step<T, E>)
        requires
            old(self)@.wf(),
            old(self)@.polling,
            old(self)@.state is Flush,
        ensures
            final(self)@.wf(),
            (final(self)@, r) == on_flush_spec(old(self)@, ev),
    {
        self.polling = false;
        match ev {
            SinkPoll::Ready => {
                if self.items.is_done() {
                    self.state = State::Empty;
                    Step { effect: Effect::Keep, next: Next::Complete }
                } else {
                    self.state = State::Read;
                    Step { effect: Effect::BeginFlush, next: Next::Suspend }
                }
            },
            SinkPoll::NotReady => {
                self.state = State::Read;
                Step { effect: Effect::Keep, next: Next::Suspend }
            },
            SinkPoll::Error(e) => {
                self.state = State::Empty;
                Step { effect: Effect::Keep, next: Next::Fail(WriteError::Flush(e)) }
            },
        }
    }

    /// The readiness sources to register interest in while suspended. In
    /// `Read` a flush handle that still holds unflushed bytes
    /// (`flush_dirty`) is watched too, so that a stalled flush can wake the
    /// machine.
    pub fn register_interest(&self, flush_dirty: bool) -> (r: Interest)
        requires
            self@.wf(),
            self@.resumable(),
        ensures
            r == interest_spec(self@, flush_dirty),
    {
        match self.state {
            State::Read => Interest { source: true, flush: flush_dirty, reserve: false, write: false },
            State::Reserve(_) => Interest { source: false, flush: false, reserve: true, write: false },
            _ => Interest { source: false, flush: false, reserve: false, write: true },
        }
    }
}

} // verus!
