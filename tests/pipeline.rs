use pipelined_writer::source::{FusedSource, SourcePoll};
use pipelined_writer::tokens::{intersects, token, union, ALL_TOKENS, NO_TOKENS};
use pipelined_writer::writer::{Effect, Next, PipelinedWriter, SinkPoll, State, WriteError};

#[derive(Clone, Copy, PartialEq, Debug)]
enum Owner {
    Flush,
    Reservation,
    Encoder,
}

enum Script {
    Item(Vec<u8>, Option<usize>),
    End,
    NotReady,
    Fail,
}

/// A scripted source and a buffered sink that trace every poll and check
/// that the sink is only ever handed on by its one owner.
struct Env {
    script: Vec<Script>,
    next: usize,
    source_polls_after_end: usize,
    ended: bool,
    owner: Owner,
    encoding: Option<Vec<u8>>,
    buffer: Vec<u8>,
    transport: Vec<u8>,
    reserve_ready: bool,
    write_ready: bool,
    flush_ready: bool,
    reserve_fails: bool,
    write_fails: bool,
    flush_fails: bool,
    trace: Vec<&'static str>,
    rng: Option<u64>,
}

impl Env {
    fn new(script: Vec<Script>) -> Env {
        Env {
            script,
            next: 0,
            source_polls_after_end: 0,
            ended: false,
            owner: Owner::Flush,
            encoding: None,
            buffer: Vec::new(),
            transport: Vec::new(),
            reserve_ready: true,
            write_ready: true,
            flush_ready: true,
            reserve_fails: false,
            write_fails: false,
            flush_fails: false,
            trace: Vec::new(),
            rng: None,
        }
    }

    fn coin(&mut self, fixed: bool) -> bool {
        match self.rng {
            None => fixed,
            Some(x) => {
                let y = x.wrapping_mul(6364136223846793005).wrapping_add(1442695040888963407);
                self.rng = Some(y);
                (y >> 33) % 2 == 0
            }
        }
    }

    fn hand_over(&mut self, effect: Effect<Vec<u8>>) {
        match effect {
            Effect::Keep => {}
            Effect::Reserve(_) => {
                assert_eq!(self.owner, Owner::Flush, "sink already borrowed");
                self.owner = Owner::Reservation;
            }
            Effect::Encode(item) => {
                assert!(self.owner == Owner::Flush || self.owner == Owner::Reservation, "sink already borrowed");
                assert!(self.encoding.is_none());
                self.owner = Owner::Encoder;
                self.encoding = Some(item);
            }
            Effect::BeginFlush => {
                assert!(self.owner == Owner::Encoder || self.owner == Owner::Flush, "sink already borrowed");
                self.owner = Owner::Flush;
            }
        }
    }

    fn poll_source(&mut self) -> SourcePoll<Vec<u8>, String> {
        self.trace.push("Read");
        if self.ended {
            self.source_polls_after_end += 1;
        }
        if self.rng.is_some() && !self.coin(true) {
            return SourcePoll::NotReady;
        }
        if self.next >= self.script.len() {
            self.ended = true;
            return SourcePoll::End;
        }
        let i = self.next;
        self.next += 1;
        match &self.script[i] {
            Script::Item(bytes, hint) => SourcePoll::Item(bytes.clone(), *hint),
            Script::End => {
                self.ended = true;
                SourcePoll::End
            }
            Script::NotReady => SourcePoll::NotReady,
            Script::Fail => SourcePoll::Error(String::from("source failed")),
        }
    }

    fn poll_reserve(&mut self) -> SinkPoll<String> {
        self.trace.push("Reserving");
        assert_eq!(self.owner, Owner::Reservation);
        if self.reserve_fails {
            return SinkPoll::Error(String::from("no room"));
        }
        let ready = self.reserve_ready;
        if self.coin(ready) { SinkPoll::Ready } else { SinkPoll::NotReady }
    }

    fn poll_write(&mut self) -> SinkPoll<String> {
        self.trace.push("Writing");
        assert_eq!(self.owner, Owner::Encoder);
        if self.write_fails {
            return SinkPoll::Error(String::from("cannot encode"));
        }
        let ready = self.write_ready;
        if self.coin(ready) {
            let bytes = self.encoding.take().unwrap();
            self.buffer.extend_from_slice(&bytes);
            SinkPoll::Ready
        } else {
            SinkPoll::NotReady
        }
    }

    fn drive_flush(&mut self) -> SinkPoll<String> {
        self.trace.push("Flushing");
        assert_eq!(self.owner, Owner::Flush);
        if self.flush_fails {
            return SinkPoll::Error(String::from("transport closed"));
        }
        let ready = self.flush_ready;
        if self.coin(ready) {
            self.transport.append(&mut self.buffer);
            SinkPoll::Ready
        } else {
            SinkPoll::NotReady
        }
    }
}

enum Outcome {
    Pending,
    Done,
    Failed(WriteError<String>),
}

fn resume(w: &mut PipelinedWriter<Vec<u8>>, env: &mut Env, tokens: u64) -> Outcome {
    assert!(w.is_resumable());
    let mut step = w.resume::<String>(tokens);
    loop {
        env.hand_over(step.effect);
        step = match step.next {
            Next::PollSource(_) => {
                let ev = env.poll_source();
                w.on_source(ev)
            }
            Next::PollReserve(_) => {
                let ev = env.poll_reserve();
                w.on_reserve(ev)
            }
            Next::PollWrite(_) => {
                let ev = env.poll_write();
                w.on_write(ev)
            }
            Next::DriveFlush(_) => {
                let ev = env.drive_flush();
                w.on_flush(ev)
            }
            Next::Suspend => return Outcome::Pending,
            Next::Complete => return Outcome::Done,
            Next::Fail(e) => return Outcome::Failed(e),
        };
    }
}

fn run_to_end(w: &mut PipelinedWriter<Vec<u8>>, env: &mut Env) -> (usize, Outcome) {
    let mut resumes: usize = 0;
    loop {
        resumes += 1;
        assert!(resumes < 100_000);
        match resume(w, env, ALL_TOKENS) {
            Outcome::Pending => {}
            other => return (resumes, other),
        }
    }
}

#[test]
fn two_items_trace_and_buffer() {
    let mut env = Env::new(vec![Script::Item(vec![1, 2, 3, 4], Some(4)), Script::Item(vec![9, 8], None), Script::End]);
    let mut w: PipelinedWriter<Vec<u8>> = PipelinedWriter::new();
    let mut successes = 0;
    match resume(&mut w, &mut env, ALL_TOKENS) {
        Outcome::Done => successes += 1,
        _ => panic!("expected completion in one resume"),
    }
    assert_eq!(successes, 1);
    assert_eq!(env.trace, vec!["Read", "Reserving", "Writing", "Read", "Writing", "Read", "Flushing"]);
    assert_eq!(env.transport, vec![1, 2, 3, 4, 9, 8]);
    assert!(env.buffer.is_empty());
    assert!(matches!(w.state(), State::Empty));
    assert!(!w.is_resumable());
}

#[test]
fn random_readiness_keeps_order_and_owner() {
    for seed in 1..200u64 {
        let mut script = Vec::new();
        for k in 0..((seed % 7) as u8) {
            let hint = if k % 2 == 0 { Some(2) } else { None };
            script.push(Script::Item(vec![k, k + 100], hint));
        }
        let mut expected = Vec::new();
        for s in &script {
            if let Script::Item(b, _) = s {
                expected.extend_from_slice(b);
            }
        }
        let mut env = Env::new(script);
        env.rng = Some(seed);
        let mut w: PipelinedWriter<Vec<u8>> = PipelinedWriter::new();
        let (_, outcome) = run_to_end(&mut w, &mut env);
        assert!(matches!(outcome, Outcome::Done));
        assert_eq!(env.transport, expected);
        assert!(env.buffer.is_empty());
        assert_eq!(env.source_polls_after_end, 0);
    }
}

#[test]
fn completes_with_empty_source() {
    let mut env = Env::new(vec![]);
    let mut w: PipelinedWriter<Vec<u8>> = PipelinedWriter::new();
    assert!(matches!(resume(&mut w, &mut env, ALL_TOKENS), Outcome::Done));
    assert_eq!(env.trace, vec!["Read", "Flushing"]);
    assert!(w.is_exhausted());
}

#[test]
fn stalled_flush_does_not_block_encoding() {
    let mut env = Env::new(vec![Script::Item(vec![1], None), Script::NotReady, Script::Item(vec![2], None), Script::End]);
    env.flush_ready = false;
    let mut w: PipelinedWriter<Vec<u8>> = PipelinedWriter::new();
    // First item encoded, then the source has nothing: the flush stalls.
    assert!(matches!(resume(&mut w, &mut env, ALL_TOKENS), Outcome::Pending));
    assert!(matches!(w.state(), State::Read));
    assert_eq!(env.buffer, vec![1]);
    let interest = w.register_interest(!env.buffer.is_empty());
    assert!(interest.source && interest.flush && !interest.reserve && !interest.write);
    // The second item is encoded although the flush is still stalled.
    assert!(matches!(resume(&mut w, &mut env, ALL_TOKENS), Outcome::Pending));
    assert_eq!(env.buffer, vec![1, 2]);
    assert!(env.transport.is_empty());
    // Once the transport takes the bytes, the machine completes.
    env.flush_ready = true;
    assert!(matches!(resume(&mut w, &mut env, ALL_TOKENS), Outcome::Done));
    assert_eq!(env.transport, vec![1, 2]);
}

#[test]
fn drained_flush_yields_before_next_item() {
    let mut env = Env::new(vec![Script::Item(vec![5], None), Script::NotReady, Script::Item(vec![6], None)]);
    let mut w: PipelinedWriter<Vec<u8>> = PipelinedWriter::new();
    assert!(matches!(resume(&mut w, &mut env, ALL_TOKENS), Outcome::Pending));
    assert_eq!(env.transport, vec![5]);
    assert!(matches!(w.state(), State::Read));
    let interest = w.register_interest(false);
    assert!(interest.source && !interest.flush);
    let (_, outcome) = run_to_end(&mut w, &mut env);
    assert!(matches!(outcome, Outcome::Done));
    assert_eq!(env.transport, vec![5, 6]);
}

#[test]
fn suspends_in_reserve_and_write() {
    let mut env = Env::new(vec![Script::Item(vec![7, 7], Some(2))]);
    env.reserve_ready = false;
    let mut w: PipelinedWriter<Vec<u8>> = PipelinedWriter::new();
    assert!(matches!(resume(&mut w, &mut env, token(3)), Outcome::Pending));
    assert!(matches!(w.state(), State::Reserve(_)));
    let interest = w.register_interest(false);
    assert!(interest.reserve && !interest.source && !interest.write && !interest.flush);
    env.reserve_ready = true;
    env.write_ready = false;
    assert!(matches!(resume(&mut w, &mut env, token(3)), Outcome::Pending));
    assert!(matches!(w.state(), State::Write));
    assert!(w.register_interest(true).write);
    env.write_ready = true;
    assert!(matches!(resume(&mut w, &mut env, token(3)), Outcome::Done));
    assert_eq!(env.transport, vec![7, 7]);
}

#[test]
fn first_poll_uses_caller_tokens() {
    let mut w: PipelinedWriter<Vec<u8>> = PipelinedWriter::new();
    let step = w.resume::<String>(token(5));
    assert!(matches!(step.next, Next::PollSource(t) if t == 32));
    assert!(matches!(step.effect, Effect::Keep));
    assert!(w.is_polling());
    let step = w.on_source::<String>(SourcePoll::Item(vec![1u8], None));
    assert!(matches!(step.next, Next::PollWrite(t) if t == ALL_TOKENS));
    assert!(matches!(step.effect, Effect::Encode(ref v) if *v == vec![1u8]));
}

#[test]
fn source_error_fails() {
    let mut env = Env::new(vec![Script::Fail]);
    let mut w: PipelinedWriter<Vec<u8>> = PipelinedWriter::new();
    match resume(&mut w, &mut env, ALL_TOKENS) {
        Outcome::Failed(WriteError::Source(e)) => assert_eq!(e, "source failed"),
        _ => panic!("expected a source error"),
    }
    assert!(!w.is_resumable());
}

#[test]
fn reserve_error_fails() {
    let mut env = Env::new(vec![Script::Item(vec![1], Some(1))]);
    env.reserve_fails = true;
    let mut w: PipelinedWriter<Vec<u8>> = PipelinedWriter::new();
    assert!(matches!(resume(&mut w, &mut env, ALL_TOKENS), Outcome::Failed(WriteError::Reserve(_))));
    assert!(!w.is_resumable());
}

#[test]
fn write_error_fails() {
    let mut env = Env::new(vec![Script::Item(vec![1], None)]);
    env.write_fails = true;
    let mut w: PipelinedWriter<Vec<u8>> = PipelinedWriter::new();
    assert!(matches!(resume(&mut w, &mut env, ALL_TOKENS), Outcome::Failed(WriteError::Write(_))));
}

#[test]
fn flush_error_fails() {
    let mut env = Env::new(vec![Script::Item(vec![1], None)]);
    env.flush_fails = true;
    let mut w: PipelinedWriter<Vec<u8>> = PipelinedWriter::new();
    assert!(matches!(resume(&mut w, &mut env, ALL_TOKENS), Outcome::Failed(WriteError::Flush(_))));
    assert_eq!(env.buffer, vec![1]);
}

#[test]
fn fused_source_stays_ended() {
    let mut f = FusedSource::new();
    assert!(!f.is_done());
    let r = f.record(SourcePoll::<u8, String>::Item(3, None));
    assert!(matches!(r, SourcePoll::Item(3, None)));
    assert!(!f.is_done());
    let r = f.record(SourcePoll::<u8, String>::End);
    assert!(matches!(r, SourcePoll::End));
    assert!(f.is_done());
    let r = f.record(SourcePoll::<u8, String>::Error(String::from("polled again")));
    assert!(matches!(r, SourcePoll::End));
    let r = f.record(SourcePoll::<u8, String>::Item(4, Some(1)));
    assert!(matches!(r, SourcePoll::End));
}

#[test]
fn token_sets() {
    assert_eq!(token(0), 1);
    assert_eq!(token(63), 1u64 << 63);
    assert_eq!(union(token(1), token(2)), 6);
    assert!(intersects(union(token(1), token(2)), token(2)));
    assert!(!intersects(token(1), token(2)));
    assert!(intersects(token(40), ALL_TOKENS));
    assert!(!intersects(NO_TOKENS, ALL_TOKENS));
}
