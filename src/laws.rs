//! What holds of every run of the machine, stated over its transition
//! relation and proved for every state and input.
use vstd::prelude::*;
use crate::source::SourcePoll;
use crate::writer::{
    accepts, on_flush_spec, on_source_spec, resume_spec, transition, Effect, Input, Next, SinkPoll,
    State, Step, WriterView,
};

verus! {

/// Whether a step asks the driver for another poll within the same resume.
pub open spec fn is_poll<E>(n: Next<E>) -> bool {
    n is PollSource || n is PollReserve || n is PollWrite || n is DriveFlush
}

/// Items reach the encoder in the order the source yielded them, each one
/// exactly once, and never while another encode is in flight; every state
/// reached is well formed.
pub proof fn lemma_encoding_order<T, E>(v: WriterView<T>, input: Input<T, E>)
    requires
        v.wf(),
        accepts(v, input),
    ensures
        transition(v, input).0.wf(),
        transition(v, input).0.received == (match input {
            Input::Source(SourcePoll::Item(x, _)) => v.received.push(x),
            _ => v.received,
        }),
        transition(v, input).1.effect is Encode ==> {
            &&& transition(v, input).0.encoded == v.encoded.push(transition(v, input).1.effect->Encode_0)
            &&& !(v.state is Write)
        },
        !(transition(v, input).1.effect is Encode) ==> transition(v, input).0.encoded == v.encoded,
        v.encoded.is_prefix_of(transition(v, input).0.encoded),
        transition(v, input).0.encoded.is_prefix_of(transition(v, input).0.received),
{
    let w = transition(v, input).0;
    match input {
        Input::Source(SourcePoll::Item(x, _)) => {
            assert(v.encoded == v.received);
            assert(v.received.push(x).subrange(0, v.encoded.len() as int) =~= v.encoded);
            assert(v.received.push(x).subrange(0, v.encoded.len() + 1int) =~= v.encoded.push(x));
        },
        Input::Reserve(SinkPoll::Ready) => {
            let x = v.state->Reserve_0;
            assert(v.received.subrange(0, v.encoded.len() + 1int) =~= v.encoded.push(x));
            assert(v.received =~= v.encoded.push(x));
            assert(v.received.subrange(0, v.received.len() as int) =~= v.received);
        },
        _ => {},
    }
    assert(w.encoded.subrange(0, v.encoded.len() as int) =~= v.encoded);
}

/// The state after feeding `inputs` one by one.
pub open spec fn run<T, E>(v: WriterView<T>, inputs: Seq<Input<T, E>>) -> WriterView<T>
    decreases inputs.len(),
{
    if inputs.len() == 0 {
        v
    } else {
        run(transition(v, inputs[0]).0, inputs.drop_first())
    }
}

/// Whether the machine accepts each of `inputs` in turn.
pub open spec fn run_accepted<T, E>(v: WriterView<T>, inputs: Seq<Input<T, E>>) -> bool
    decreases inputs.len(),
{
    inputs.len() == 0 || (accepts(v, inputs[0]) && run_accepted(transition(v, inputs[0]).0, inputs.drop_first()))
}

/// Over any run, however readiness is interleaved: the state stays well
/// formed, no item handed to the encoder is ever taken back, and the items
/// handed to it are exactly the first ones the source yielded, in order.
pub proof fn lemma_run_order<T, E>(v: WriterView<T>, inputs: Seq<Input<T, E>>)
    requires
        v.wf(),
        run_accepted(v, inputs),
    ensures
        run(v, inputs).wf(),
        v.encoded.is_prefix_of(run(v, inputs).encoded),
        v.received.is_prefix_of(run(v, inputs).received),
        run(v, inputs).encoded.is_prefix_of(run(v, inputs).received),
    decreases inputs.len(),
{
    if inputs.len() == 0 {
        assert(v.encoded.subrange(0, v.encoded.len() as int) =~= v.encoded);
        assert(v.received.subrange(0, v.received.len() as int) =~= v.received);
    } else {
        let w = transition(v, inputs[0]).0;
        lemma_encoding_order(v, inputs[0]);
        assert(v.received.is_prefix_of(w.received)) by {
            assert(w.received.subrange(0, v.received.len() as int) =~= v.received);
        }
        lemma_run_order(w, inputs.drop_first());
        let z = run(v, inputs);
        assert(z.encoded.subrange(0, v.encoded.len() as int) =~= v.encoded) by {
            assert(w.encoded.subrange(0, v.encoded.len() as int) =~= v.encoded);
            assert(z.encoded.subrange(0, w.encoded.len() as int) =~= w.encoded);
        }
        assert(z.received.subrange(0, v.received.len() as int) =~= v.received) by {
            assert(w.received.subrange(0, v.received.len() as int) =~= v.received);
            assert(z.received.subrange(0, w.received.len() as int) =~= w.received);
        }
    }
}

/// Who owns the sink.
pub enum Holder {
    FlushHandle,
    Reservation,
    Encoder,
    Nobody,
}

pub open spec fn holder<T>(v: WriterView<T>) -> Holder {
    match v.state {
        State::Read | State::Flush => Holder::FlushHandle,
        State::Reserve(_) => Holder::Reservation,
        State::Write => Holder::Encoder,
        State::Empty => Holder::Nobody,
    }
}

/// An effect passes the sink from its one owner to the next: the reservation
/// is made with the sink taken out of the flush handle, the encoder gets it
/// from the flush handle or the granted reservation, and a new flush handle
/// wraps what the encoder or a drained flush gave back. On finishing or
/// failing the sink is let go.
pub open spec fn hands_over<T>(from: Holder, e: Effect<T>, to: Holder) -> bool {
    match e {
        Effect::Keep => from == to || to is Nobody,
        Effect::Reserve(_) => from is FlushHandle && to is Reservation,
        Effect::Encode(_) => (from is FlushHandle || from is Reservation) && to is Encoder,
        Effect::BeginFlush => (from is Encoder || from is FlushHandle) && to is FlushHandle,
    }
}

/// The sink has exactly one owner at every step, and each step moves it
/// between owners in one of the ways `hands_over` allows.
pub proof fn lemma_single_owner<T, E>(v: WriterView<T>, input: Input<T, E>)
    requires
        v.wf(),
        accepts(v, input),
    ensures
        hands_over(holder(v), transition(v, input).1.effect, holder(transition(v, input).0)),
{
}

/// A resume comes to rest only where it may be resumed again, never in the
/// flush-driving state; finishing or failing ends the machine; and every poll
/// it asks for is one that the resulting state accepts.
pub proof fn lemma_suspension_points<T, E>(v: WriterView<T>, input: Input<T, E>)
    requires
        v.wf(),
        accepts(v, input),
    ensures
        transition(v, input).1.next is Suspend ==> {
            &&& transition(v, input).0.resumable()
            &&& !(transition(v, input).0.state is Flush)
        },
        (transition(v, input).1.next is Complete || transition(v, input).1.next is Fail) ==> {
            &&& transition(v, input).0.state is Empty
            &&& !transition(v, input).0.resumable()
        },
        transition(v, input).1.next is PollSource ==> transition(v, input).0.state is Read,
        transition(v, input).1.next is PollReserve ==> transition(v, input).0.state is Reserve,
        transition(v, input).1.next is PollWrite ==> transition(v, input).0.state is Write,
        transition(v, input).1.next is DriveFlush ==> transition(v, input).0.state is Flush,
        is_poll(transition(v, input).1.next) ==> transition(v, input).0.polling,
        !v.resumable() || !(v.state is Flush),
{
}

/// Only a drained buffer completes the machine: `Complete` comes from a
/// flush that resolved, after the source ended, when every item the source
/// yielded has been handed to the encoder and its encoding has finished.
pub proof fn lemma_complete_only_when_drained<T, E>(v: WriterView<T>, input: Input<T, E>)
    requires
        v.wf(),
        accepts(v, input),
        transition(v, input).1.next is Complete,
    ensures
        input == Input::<T, E>::Flush(SinkPoll::Ready),
        v.exhausted,
        v.state is Flush,
        v.encoded == v.received,
        v.completed == v.encoded.len(),
{
    assert(v.received.subrange(0, v.received.len() as int) =~= v.received);
}

/// A flush stalled by the transport does not hold up encoding: the resume
/// ends in `Read`, the next resume polls the source rather than the flush,
/// and an item it yields goes straight to reserving or encoding.
pub proof fn lemma_stalled_flush_does_not_block<T, E>(
    v: WriterView<T>,
    tokens: u64,
    x: T,
    hint: Option<usize>,
)
    requires
        v.wf(),
        v.polling,
        v.state is Flush,
        !v.exhausted,
    ensures
        ({
            let (w1, r1) = on_flush_spec::<T, E>(v, SinkPoll::NotReady);
            let (w2, r2) = resume_spec::<T, E>(w1, tokens);
            let (w3, r3) = on_source_spec::<T, E>(w2, SourcePoll::Item(x, hint));
            &&& r1.next is Suspend
            &&& w1.resumable()
            &&& r2.next == Next::<E>::PollSource(tokens)
            &&& w3.received == v.received.push(x)
            &&& match hint {
                Some(n) => r3.effect == Effect::<T>::Reserve(n) && r3.next is PollReserve,
                None => r3.effect == Effect::Encode(x) && r3.next is PollWrite && w3.encoded == v.encoded.push(x),
            }
        }),
{
}

/// The answer of a source that yields `pending` and then ends, and of a sink
/// whose every operation resolves at once.
pub open spec fn ready_answer<T, E>(r: Step<T, E>, pending: Seq<(T, Option<usize>)>) -> Input<T, E> {
    match r.next {
        Next::PollSource(_) => if pending.len() > 0 {
            Input::Source(SourcePoll::Item(pending[0].0, pending[0].1))
        } else {
            Input::Source(SourcePoll::End)
        },
        Next::PollReserve(_) => Input::Reserve(SinkPoll::Ready),
        Next::PollWrite(_) => Input::Write(SinkPoll::Ready),
        _ => Input::Flush(SinkPoll::Ready),
    }
}

/// Runs at most `fuel` polls of a resume against that source and sink.
pub open spec fn run_ready<T, E>(
    v: WriterView<T>,
    r: Step<T, E>,
    pending: Seq<(T, Option<usize>)>,
    fuel: nat,
) -> (WriterView<T>, Step<T, E>)
    decreases fuel,
{
    if fuel == 0 || !is_poll(r.next) {
        (v, r)
    } else {
        let input = ready_answer(r, pending);
        let rest = if r.next is PollSource && pending.len() > 0 { pending.drop_first() } else { pending };
        run_ready(transition(v, input).0, transition(v, input).1, rest, (fuel - 1) as nat)
    }
}

pub open spec fn item_values<T>(items: Seq<(T, Option<usize>)>) -> Seq<T> {
    items.map_values(|p: (T, Option<usize>)| p.0)
}

proof fn lemma_run_ready_from_read<T, E>(
    v: WriterView<T>,
    r: Step<T, E>,
    pending: Seq<(T, Option<usize>)>,
    fuel: nat,
)
    requires
        v.wf(),
        v.state is Read,
        v.polling,
        !v.exhausted,
        r.next is PollSource,
        fuel >= 3 * pending.len() + 2,
    ensures
        run_ready(v, r, pending, fuel).1.next is Complete,
        run_ready(v, r, pending, fuel).0.encoded == v.encoded + item_values(pending),
    decreases pending.len(),
{
    let input = ready_answer(r, pending);
    lemma_encoding_order(v, input);
    let (v1, r1) = transition(v, input);
    if pending.len() == 0 {
        assert(run_ready(v, r, pending, fuel) == run_ready(v1, r1, pending, (fuel - 1) as nat));
        let i2 = ready_answer(r1, pending);
        lemma_encoding_order(v1, i2);
        let (v2, r2) = transition(v1, i2);
        assert(r2.next is Complete);
        assert(run_ready(v1, r1, pending, (fuel - 1) as nat) == run_ready(v2, r2, pending, (fuel - 2) as nat));
        assert(run_ready(v2, r2, pending, (fuel - 2) as nat) == (v2, r2));
        assert(item_values(pending) =~= Seq::<T>::empty());
        assert(v.encoded + item_values(pending) =~= v.encoded);
    } else {
        let rest = pending.drop_first();
        let x = pending[0].0;
        assert(item_values(pending) =~= seq![x] + item_values(rest));
        assert(v.encoded + item_values(pending) =~= v.encoded.push(x) + item_values(rest));
        assert(run_ready(v, r, pending, fuel) == run_ready(v1, r1, rest, (fuel - 1) as nat));
        match pending[0].1 {
            Some(_) => {
                let i2 = ready_answer(r1, rest);
                lemma_encoding_order(v1, i2);
                let (v2, r2) = transition(v1, i2);
                let i3 = ready_answer(r2, rest);
                lemma_encoding_order(v2, i3);
                let (v3, r3) = transition(v2, i3);
                assert(run_ready(v1, r1, rest, (fuel - 1) as nat) == run_ready(v2, r2, rest, (fuel - 2) as nat));
                assert(run_ready(v2, r2, rest, (fuel - 2) as nat) == run_ready(v3, r3, rest, (fuel - 3) as nat));
                lemma_run_ready_from_read(v3, r3, rest, (fuel - 3) as nat);
            },
            None => {
                let i2 = ready_answer(r1, rest);
                lemma_encoding_order(v1, i2);
                let (v2, r2) = transition(v1, i2);
                assert(run_ready(v1, r1, rest, (fuel - 1) as nat) == run_ready(v2, r2, rest, (fuel - 2) as nat));
                lemma_run_ready_from_read(v2, r2, rest, (fuel - 2) as nat);
            },
        }
    }
}

/// Against a source that yields some items and then ends, and a sink that
/// never errors or stalls, a single resume of a machine waiting in `Read`
/// completes, having handed every item to the encoder in order.
pub proof fn lemma_completion<T, E>(v: WriterView<T>, tokens: u64, items: Seq<(T, Option<usize>)>)
    requires
        v.wf(),
        v.resumable(),
        v.state is Read,
        !v.exhausted,
    ensures
        ({
            let (v1, r1) = resume_spec::<T, E>(v, tokens);
            let (w, r) = run_ready(v1, r1, items, 3 * items.len() + 2);
            &&& r.next is Complete
            &&& w.encoded == v.encoded + item_values(items)
        }),
{
    let (v1, r1) = resume_spec::<T, E>(v, tokens);
    lemma_run_ready_from_read(v1, r1, items, 3 * items.len() + 2);
}

} // verus!
