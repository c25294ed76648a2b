//! A connected byte stream: when a read, a write or a flush is started on the
//! host's streams, when one in flight is polled again, and what its outcome
//! leads to.
//!
//! A poll of the stream has two halves. The first one (`begin_read`,
//! `begin_write`, `begin_flush`) says what to do with the host's stream; the
//! second one (`poll_read`, `poll_write`, `poll_flush`) takes what came of it
//! and gives the result of the poll.

use vstd::prelude::*;
use vstd::slice::slice_to_vec;

use crate::addr::SocketAddr;
use crate::error::{ErrorKind, IoError, IoErrorView};
use crate::poll::Poll;

verus! {

/// Whether a read is in flight.
#[derive(Copy, Clone, Debug, PartialEq, Eq, Structural)]
pub enum ReadState {
    Idle,
    Pending,
}

/// Whether a write or a flush is in flight.
#[derive(Copy, Clone, Debug, PartialEq, Eq, Structural)]
pub enum WriteState {
    Idle,
    Writing,
    Flushing,
}

/// What to do for a read.
#[derive(Copy, Clone, Debug, PartialEq, Eq, Structural)]
pub enum ReadAction {
    /// Start a read of up to `len` bytes, then poll it.
    Start { len: usize },
    /// Poll the read in flight.
    Resume,
}

/// What to do for a write.
#[derive(Debug, PartialEq, Eq)]
pub enum WriteAction {
    /// Start a write of `data`, then poll it.
    Start { data: Vec<u8> },
    /// Poll the write in flight.
    Resume,
    /// A flush is in flight: the poll is pending.
    Blocked,
}

/// The value of a [`WriteAction`].
pub enum WriteActionView {
    Start { data: Seq<u8> },
    Resume,
    Blocked,
}

impl View for WriteAction {
    type V = WriteActionView;

    open spec fn view(&self) -> WriteActionView {
        match self {
            WriteAction::Start { data } => WriteActionView::Start { data: data@ },
            WriteAction::Resume => WriteActionView::Resume,
            WriteAction::Blocked => WriteActionView::Blocked,
        }
    }
}

/// What to do for a flush.
#[derive(Copy, Clone, Debug, PartialEq, Eq, Structural)]
pub enum FlushAction {
    /// Start a flush, then poll it.
    Start,
    /// Poll the flush in flight.
    Resume,
    /// A write is in flight: the poll is pending.
    Blocked,
}

/// The state of a bidirectional TCP byte stream.
#[derive(Copy, Clone, Debug, PartialEq, Eq)]
pub struct WasiTcpStream {
    peer_addr: Option<SocketAddr>,
    read_state: ReadState,
    write_state: WriteState,
}

/// The smaller of two lengths.
pub open spec fn shorter(a: usize, b: usize) -> usize {
    if a <= b {
        a
    } else {
        b
    }
}

/// What a buffer holds after a read brought the first `n` of `bytes`: as many
/// of them as fit, then what it held before.
pub open spec fn read_into(buf: Seq<u8>, bytes: Seq<u8>, n: usize) -> Seq<u8> {
    let copied = shorter(n, buf.len() as usize) as int;
    bytes.take(copied) + buf.skip(copied)
}

/// What beginning to read into a buffer of `len` bytes does.
pub open spec fn read_begun(state: ReadState, len: usize) -> (ReadAction, ReadState) {
    match state {
        ReadState::Idle => (ReadAction::Start { len }, ReadState::Pending),
        ReadState::Pending => (ReadAction::Resume, ReadState::Pending),
    }
}

/// What beginning to write `buf` does: all of it is written, unless a write is
/// in flight already.
pub open spec fn write_begun(state: WriteState, buf: Seq<u8>) -> (WriteActionView, WriteState) {
    match state {
        WriteState::Idle => (WriteActionView::Start { data: buf }, WriteState::Writing),
        WriteState::Writing => (WriteActionView::Resume, WriteState::Writing),
        WriteState::Flushing => (WriteActionView::Blocked, WriteState::Flushing),
    }
}

/// What beginning to flush does.
pub open spec fn flush_begun(state: WriteState) -> (FlushAction, WriteState) {
    match state {
        WriteState::Idle => (FlushAction::Start, WriteState::Flushing),
        WriteState::Writing => (FlushAction::Blocked, WriteState::Writing),
        WriteState::Flushing => (FlushAction::Resume, WriteState::Flushing),
    }
}

/// What polling the operation in flight does: it stays in flight until it is
/// finished.
pub open spec fn polled(state: WriteState, finished: bool) -> WriteState {
    if finished {
        WriteState::Idle
    } else {
        state
    }
}

/// The failure of every operation on a platform without WASI streams.
pub open spec fn unsupported_error() -> IoErrorView {
    IoErrorView {
        kind: ErrorKind::Unsupported,
        message: "WasiTcpStream is only functional on wasm32-wasip2"@,
    }
}

/// The error of every operation on a platform without WASI streams.
pub fn unsupported() -> (res: IoError)
    ensures
        res@ == unsupported_error(),
{
    IoError::new(ErrorKind::Unsupported, "WasiTcpStream is only functional on wasm32-wasip2")
}

impl WasiTcpStream {
    /// The remote address, where it is known.
    pub closed spec fn peer(self) -> Option<SocketAddr> {
        self.peer_addr
    }

    /// Whether a read is in flight.
    pub closed spec fn reading(self) -> ReadState {
        self.read_state
    }

    /// Whether a write or a flush is in flight.
    pub closed spec fn writing(self) -> WriteState {
        self.write_state
    }

    /// The stream of a connection that was just accepted or made: nothing is
    /// in flight.
    pub fn from_raw(peer_addr: Option<SocketAddr>) -> (res: WasiTcpStream)
        ensures
            res.peer() == peer_addr,
            res.reading() == ReadState::Idle,
            res.writing() == WriteState::Idle,
    {
        WasiTcpStream { peer_addr, read_state: ReadState::Idle, write_state: WriteState::Idle }
    }

    /// The remote peer's address, if available.
    pub fn peer_addr(&self) -> (res: Option<SocketAddr>)
        ensures
            res == self.peer(),
    {
        self.peer_addr
    }

    /// Whether a read is in flight.
    pub fn is_reading(&self) -> (res: bool)
        ensures
            res == (self.reading() == ReadState::Pending),
    {
        self.read_state == ReadState::Pending
    }

    /// Whether a write or a flush is in flight.
    pub fn write_state(&self) -> (res: WriteState)
        ensures
            res == self.writing(),
    {
        self.write_state
    }

    /// Begins a poll that reads into a buffer of `len` bytes: a read of that
    /// length is started unless one is in flight.
    pub fn begin_read(&mut self, len: usize) -> (res: ReadAction)
        ensures
            (res, final(self).reading()) == read_begun(old(self).reading(), len),
            final(self).writing() == old(self).writing(),
            final(self).peer() == old(self).peer(),
    {
        match self.read_state {
            ReadState::Idle => {
                self.read_state = ReadState::Pending;
                ReadAction::Start { len }
            },
            ReadState::Pending => ReadAction::Resume,
        }
    }

    /// Ends a poll that reads into `buf`, with what came of the read in
    /// flight: bytes and their number, or an error.
    ///
    /// As many of the bytes go to the front of `buf` as there are and as fit.
    pub fn poll_read<E>(
        &mut self,
        buf: &mut [u8],
        outcome: Poll<Result<(Vec<u8>, usize), E>>,
    ) -> (res: Poll<Result<usize, E>>)
        requires
            old(self).reading() == ReadState::Pending,
            outcome matches Poll::Ready(Ok((bytes, n))) ==> shorter(n, old(buf)@.len() as usize)
                <= bytes@.len(),
        ensures
            final(self).writing() == old(self).writing(),
            final(self).peer() == old(self).peer(),
            match outcome {
                Poll::Pending => {
                    &&& res is Pending
                    &&& final(self).reading() == ReadState::Pending
                    &&& final(buf)@ == old(buf)@
                },
                Poll::Ready(Ok((bytes, n))) => {
                    let copied = shorter(n, old(buf)@.len() as usize);
                    &&& res == Poll::Ready(Ok::<usize, E>(copied))
                    &&& final(self).reading() == ReadState::Idle
                    &&& final(buf)@ == read_into(old(buf)@, bytes@, n)
                },
                Poll::Ready(Err(e)) => {
                    &&& res == Poll::Ready(Err::<usize, E>(e))
                    &&& final(self).reading() == ReadState::Idle
                    &&& final(buf)@ == old(buf)@
                },
            },
    {
        match outcome {
            Poll::Pending => Poll::Pending,
            Poll::Ready(Ok((bytes, n))) => {
                let len: usize = buf.len();
                let to_copy: usize = if n <= len {
                    n
                } else {
                    len
                };
                let ghost before = buf@;
                let mut i: usize = 0;
                while i < to_copy
                    invariant
                        i <= to_copy <= bytes@.len(),
                        to_copy <= before.len(),
                        buf@ == bytes@.take(i as int) + before.skip(i as int),
                    decreases to_copy - i,
                {
                    buf[i] = bytes[i];
                    i += 1;
                    assert(buf@ =~= bytes@.take(i as int) + before.skip(i as int));
                }
                self.read_state = ReadState::Idle;
                Poll::Ready(Ok(to_copy))
            },
            Poll::Ready(Err(e)) => {
                self.read_state = ReadState::Idle;
                Poll::Ready(Err(e))
            },
        }
    }

    /// Begins a poll that writes `buf`: a write of all of it is started unless
    /// one is in flight, which goes on with the bytes that it was started with.
    /// While a flush is in flight, writes must wait.
    pub fn begin_write(&mut self, buf: &[u8]) -> (res: WriteAction)
        ensures
            (res@, final(self).writing()) == write_begun(old(self).writing(), buf@),
            final(self).reading() == old(self).reading(),
            final(self).peer() == old(self).peer(),
    {
        match self.write_state {
            WriteState::Idle => {
                self.write_state = WriteState::Writing;
                WriteAction::Start { data: slice_to_vec(buf) }
            },
            WriteState::Writing => WriteAction::Resume,
            WriteState::Flushing => WriteAction::Blocked,
        }
    }

    /// Ends a poll that writes, with what came of the write in flight.
    pub fn poll_write<E>(&mut self, outcome: Poll<Result<usize, E>>) -> (res: Poll<
        Result<usize, E>,
    >)
        requires
            old(self).writing() == WriteState::Writing,
        ensures
            res == outcome,
            final(self).writing() == polled(old(self).writing(), outcome is Ready),
            final(self).reading() == old(self).reading(),
            final(self).peer() == old(self).peer(),
    {
        match outcome {
            Poll::Pending => Poll::Pending,
            Poll::Ready(result) => {
                self.write_state = WriteState::Idle;
                Poll::Ready(result)
            },
        }
    }

    /// Begins a poll that flushes, or one that closes: a flush is started
    /// unless one is in flight. While a write is in flight, the flush waits
    /// for it.
    pub fn begin_flush(&mut self) -> (res: FlushAction)
        ensures
            (res, final(self).writing()) == flush_begun(old(self).writing()),
            final(self).reading() == old(self).reading(),
            final(self).peer() == old(self).peer(),
    {
        match self.write_state {
            WriteState::Idle => {
                self.write_state = WriteState::Flushing;
                FlushAction::Start
            },
            WriteState::Writing => FlushAction::Blocked,
            WriteState::Flushing => FlushAction::Resume,
        }
    }

    /// Ends a poll that flushes, or one that closes, with what came of the
    /// flush in flight.
    pub fn poll_flush<E>(&mut self, outcome: Poll<Result<(), E>>) -> (res: Poll<Result<(), E>>)
        requires
            old(self).writing() == WriteState::Flushing,
        ensures
            res == outcome,
            final(self).writing() == polled(old(self).writing(), outcome is Ready),
            final(self).reading() == old(self).reading(),
            final(self).peer() == old(self).peer(),
    {
        match outcome {
            Poll::Pending => Poll::Pending,
            Poll::Ready(result) => {
                self.write_state = WriteState::Idle;
                Poll::Ready(result)
            },
        }
    }
}

// ── Laws ─────────────────────────────────────────────────────────────────────

/// A read that brings no more bytes than the buffer holds loses none of them,
/// puts them in front in their order, and leaves the rest of the buffer alone.
pub proof fn lemma_read_that_fits_is_whole(buf: Seq<u8>, bytes: Seq<u8>, n: usize)
    requires
        buf.len() <= usize::MAX,
        n <= bytes.len(),
        n <= buf.len(),
    ensures
        read_into(buf, bytes, n).len() == buf.len(),
        read_into(buf, bytes, n).take(n as int) == bytes.take(n as int),
        read_into(buf, bytes, n).skip(n as int) == buf.skip(n as int),
{
    assert(read_into(buf, bytes, n).take(n as int) =~= bytes.take(n as int));
    assert(read_into(buf, bytes, n).skip(n as int) =~= buf.skip(n as int));
}

/// One poll that reads: the buffer that it reads into, and what polling the
/// read in flight comes to.
pub struct ReadPoll<E> {
    pub buf: Seq<u8>,
    pub outcome: Poll<Result<(Seq<u8>, usize), E>>,
}

/// What happens to a read on the host's stream.
pub enum ReadEvent<E> {
    Started { len: usize },
    Finished { result: Result<(Seq<u8>, usize), E> },
}

/// What one poll that reads does to the state of the reading side, what happens
/// on the host's stream meanwhile, and the bytes that the poll returns.
pub open spec fn read_poll<E>(state: ReadState, poll: ReadPoll<E>) -> (
    ReadState,
    Seq<ReadEvent<E>>,
    Seq<u8>,
) {
    let (action, begun) = read_begun(state, poll.buf.len() as usize);
    let started = match action {
        ReadAction::Start { len } => seq![ReadEvent::Started { len }],
        ReadAction::Resume => seq![],
    };
    match poll.outcome {
        Poll::Pending => (begun, started, seq![]),
        Poll::Ready(result) => (
            ReadState::Idle,
            started.push(ReadEvent::Finished { result }),
            match result {
                Ok((bytes, n)) => read_into(poll.buf, bytes, n).take(
                    shorter(n, poll.buf.len() as usize) as int,
                ),
                Err(_) => seq![],
            },
        ),
    }
}

/// What a series of polls that read does, from a fresh stream on: the state,
/// what happens on the host's stream, and all bytes that the polls return.
pub open spec fn read_polls<E>(polls: Seq<ReadPoll<E>>) -> (
    ReadState,
    Seq<ReadEvent<E>>,
    Seq<u8>,
)
    decreases polls.len(),
{
    if polls.len() == 0 {
        (ReadState::Idle, seq![], seq![])
    } else {
        let (state, events, bytes) = read_polls(polls.drop_last());
        let (state1, events1, bytes1) = read_poll(state, polls.last());
        (state1, events + events1, bytes + bytes1)
    }
}

/// All bytes that the reads which finish in these polls bring.
pub open spec fn delivered<E>(polls: Seq<ReadPoll<E>>) -> Seq<u8>
    decreases polls.len(),
{
    if polls.len() == 0 {
        seq![]
    } else {
        delivered(polls.drop_last()) + match polls.last().outcome {
            Poll::Ready(Ok((bytes, n))) => bytes.take(n as int),
            _ => seq![],
        }
    }
}

/// Whether a poll that reads has room for what the read brings.
pub open spec fn read_fits<E>(poll: ReadPoll<E>) -> bool {
    &&& poll.buf.len() <= usize::MAX
    &&& poll.outcome matches Poll::Ready(Ok((bytes, n))) ==> n <= bytes.len() && n
        <= poll.buf.len()
}

/// Whether reads happen one at a time: their starts stand at the even places,
/// and their finishes at the odd ones.
pub open spec fn one_read_at_a_time<E>(events: Seq<ReadEvent<E>>) -> bool {
    forall|i: int| 0 <= i < events.len() ==> (#[trigger] events[i] is Started <==> i % 2 == 0)
}

/// Whatever is polled, no read is started on the host's stream before the one
/// in flight is finished; and the state of the stream says whether one is.
pub proof fn lemma_reads_take_turns<E>(polls: Seq<ReadPoll<E>>)
    ensures
        one_read_at_a_time(read_polls(polls).1),
        read_polls(polls).0 is Pending <==> read_polls(polls).1.len() % 2 == 1,
    decreases polls.len(),
{
    if polls.len() > 0 {
        lemma_reads_take_turns(polls.drop_last());
        let (state, events, _) = read_polls(polls.drop_last());
        let events1 = read_poll(state, polls.last()).1;
        let all = events + events1;
        assert forall|i: int| 0 <= i < all.len() implies (#[trigger] all[i] is Started <==> i % 2
            == 0) by {
            if i < events.len() {
                assert(all[i] == events[i]);
            } else {
                assert(all[i] == events1[i - events.len()]);
            }
        }
    }
}

/// Where every read fits into the buffer that it is polled with last, the polls
/// return all bytes that the reads brought, in their order, and no others.
pub proof fn lemma_reads_return_what_is_delivered<E>(polls: Seq<ReadPoll<E>>)
    requires
        forall|i: int| 0 <= i < polls.len() ==> read_fits(#[trigger] polls[i]),
    ensures
        read_polls(polls).2 == delivered(polls),
    decreases polls.len(),
{
    if polls.len() > 0 {
        let earlier = polls.drop_last();
        assert forall|i: int| 0 <= i < earlier.len() implies read_fits(#[trigger] earlier[i]) by {
            assert(earlier[i] == polls[i]);
        }
        lemma_reads_return_what_is_delivered(earlier);
        let poll = polls[polls.len() - 1];
        assert(read_fits(poll));
        if let Poll::Ready(Ok((bytes, n))) = poll.outcome {
            lemma_read_that_fits_is_whole(poll.buf, bytes, n);
        }
    }
}

/// One poll of the writing side: the bytes that it writes, and what polling the
/// write in flight comes to; or what polling the flush in flight comes to.
pub enum WritePoll<E> {
    Write { buf: Seq<u8>, outcome: Poll<Result<usize, E>> },
    Flush { outcome: Poll<Result<(), E>> },
}

/// What happens on the host's stream.
pub enum WriteEvent<E> {
    WriteStarted { data: Seq<u8> },
    WriteFinished { result: Result<usize, E> },
    FlushStarted,
    FlushFinished { result: Result<(), E> },
}

/// What one poll of the writing side does to its state, and what happens on
/// the host's stream meanwhile.
pub open spec fn write_poll<E>(state: WriteState, poll: WritePoll<E>) -> (
    WriteState,
    Seq<WriteEvent<E>>,
) {
    match poll {
        WritePoll::Write { buf, outcome } => {
            let (action, begun) = write_begun(state, buf);
            let started = match action {
                WriteActionView::Start { data } => seq![WriteEvent::WriteStarted { data }],
                _ => seq![],
            };
            match (action, outcome) {
                (WriteActionView::Blocked, _) => (begun, seq![]),
                (_, Poll::Pending) => (polled(begun, false), started),
                (_, Poll::Ready(result)) => (
                    polled(begun, true),
                    started.push(WriteEvent::WriteFinished { result }),
                ),
            }
        },
        WritePoll::Flush { outcome } => {
            let (action, begun) = flush_begun(state);
            let started = if action == FlushAction::Start {
                seq![WriteEvent::FlushStarted]
            } else {
                seq![]
            };
            match (action, outcome) {
                (FlushAction::Blocked, _) => (begun, seq![]),
                (_, Poll::Pending) => (polled(begun, false), started),
                (_, Poll::Ready(result)) => (
                    polled(begun, true),
                    started.push(WriteEvent::FlushFinished { result }),
                ),
            }
        },
    }
}

/// What a poll that writes returns: it is pending while a flush is in flight,
/// and else what polling the write in flight comes to.
pub open spec fn write_returns<E>(
    state: WriteState,
    buf: Seq<u8>,
    outcome: Poll<Result<usize, E>>,
) -> Poll<Result<usize, E>> {
    if write_begun(state, buf).0 is Blocked {
        Poll::Pending
    } else {
        outcome
    }
}

/// What a series of polls of the writing side does, from the state `start` on.
pub open spec fn write_polls<E>(start: WriteState, polls: Seq<WritePoll<E>>) -> (
    WriteState,
    Seq<WriteEvent<E>>,
)
    decreases polls.len(),
{
    if polls.len() == 0 {
        (start, seq![])
    } else {
        let (state, events) = write_polls(start, polls.drop_last());
        let (state1, events1) = write_poll(state, polls.last());
        (state1, events + events1)
    }
}

/// Whether polls begin with one that writes `buf` and no write finishes in them.
pub open spec fn write_goes_on<E>(polls: Seq<WritePoll<E>>, buf: Seq<u8>) -> bool {
    &&& polls.len() > 0
    &&& polls[0] matches WritePoll::Write { buf: first, .. } && first == buf
    &&& forall|i: int|
        0 <= i < polls.len() ==> (#[trigger] polls[i] matches WritePoll::Write { outcome, .. }
            ==> outcome is Pending)
}

/// A poll that writes `buf` while nothing is in flight starts one write of all
/// of `buf`. Until it finishes, every later poll leaves it in flight and starts
/// nothing else, whatever bytes it writes and whether it writes or flushes.
pub proof fn lemma_write_goes_on<E>(polls: Seq<WritePoll<E>>, buf: Seq<u8>)
    requires
        write_goes_on(polls, buf),
    ensures
        write_polls(WriteState::Idle, polls) == (
            WriteState::Writing,
            seq![WriteEvent::<E>::WriteStarted { data: buf }],
        ),
    decreases polls.len(),
{
    let earlier = polls.drop_last();
    let started = seq![WriteEvent::<E>::WriteStarted { data: buf }];
    assert(polls.last() == polls[polls.len() - 1]);
    if earlier.len() == 0 {
        assert(write_polls(WriteState::Idle, earlier).1 + started =~= started);
    } else {
        assert forall|i: int| 0 <= i < earlier.len() implies (
        #[trigger] earlier[i] matches WritePoll::Write { outcome, .. } ==> outcome is Pending) by {
            assert(earlier[i] == polls[i]);
        }
        assert(earlier[0] == polls[0]);
        lemma_write_goes_on(earlier, buf);
        assert(started + Seq::empty() =~= started);
    }
}

/// The poll in which a write finishes returns that write's own result, whatever
/// bytes the poll itself was to write; then nothing is in flight, so the next
/// poll that writes starts a new write.
pub proof fn lemma_write_finishes_with_its_result<E>(
    polls: Seq<WritePoll<E>>,
    buf: Seq<u8>,
    other: Seq<u8>,
    result: Result<usize, E>,
    next: Seq<u8>,
)
    requires
        write_goes_on(polls, buf),
    ensures
        ({
            let last = WritePoll::Write { buf: other, outcome: Poll::Ready(result) };
            let (state, events) = write_polls(WriteState::Idle, polls.push(last));
            &&& state == WriteState::Idle
            &&& events == seq![
                WriteEvent::WriteStarted { data: buf },
                WriteEvent::WriteFinished { result },
            ]
            &&& write_returns(
                write_polls(WriteState::Idle, polls).0,
                other,
                Poll::Ready(result),
            ) == Poll::Ready(result)
            &&& write_begun(state, next).0 == (WriteActionView::Start { data: next })
        }),
        write_poll(
            WriteState::Idle,
            WritePoll::Write { buf, outcome: Poll::Ready(result) },
        ) == (
            WriteState::Idle,
            seq![
                WriteEvent::WriteStarted { data: buf },
                WriteEvent::WriteFinished { result },
            ],
        ),
{
    let last = WritePoll::Write { buf: other, outcome: Poll::Ready(result) };
    lemma_write_goes_on(polls, buf);
    assert(polls.push(last).drop_last() =~= polls);
    assert(write_polls(WriteState::Idle, polls.push(last)).1 =~= seq![
        WriteEvent::WriteStarted { data: buf },
        WriteEvent::WriteFinished { result },
    ]);
    assert(write_poll(
        WriteState::Idle,
        WritePoll::Write { buf, outcome: Poll::Ready(result) },
    ).1 =~= seq![
        WriteEvent::WriteStarted { data: buf },
        WriteEvent::WriteFinished { result },
    ]);
}

/// Whether an event is the start of an operation at an even place, or at an
/// odd one the finish of the operation that the event before it started.
pub open spec fn in_turn<E>(events: Seq<WriteEvent<E>>, i: int) -> bool {
    match events[i] {
        WriteEvent::WriteStarted { .. } | WriteEvent::FlushStarted => i % 2 == 0,
        WriteEvent::WriteFinished { .. } => i % 2 == 1 && events[i - 1] is WriteStarted,
        WriteEvent::FlushFinished { .. } => i % 2 == 1 && events[i - 1] is FlushStarted,
    }
}

/// Whether events come in pairs of a start and the finish of the same
/// operation, the last of which may be missing.
pub open spec fn one_at_a_time<E>(events: Seq<WriteEvent<E>>) -> bool {
    forall|i: int| 0 <= i < events.len() ==> #[trigger] in_turn(events, i)
}

/// The state that events leave behind, and whether they came one at a time.
spec fn in_step<E>(state: WriteState, events: Seq<WriteEvent<E>>) -> bool {
    &&& one_at_a_time(events)
    &&& match state {
        WriteState::Idle => events.len() % 2 == 0,
        WriteState::Writing => events.len() % 2 == 1 && events.last() is WriteStarted,
        WriteState::Flushing => events.len() % 2 == 1 && events.last() is FlushStarted,
    }
}

/// One more event keeps the pairs whole if it starts an operation on an idle
/// stream or finishes the one in flight.
proof fn lemma_next_event<E>(
    state: WriteState,
    events: Seq<WriteEvent<E>>,
    event: WriteEvent<E>,
    after: WriteState,
)
    requires
        in_step(state, events),
        match event {
            WriteEvent::WriteStarted { .. } => state is Idle && after is Writing,
            WriteEvent::FlushStarted => state is Idle && after is Flushing,
            WriteEvent::WriteFinished { .. } => state is Writing && after is Idle,
            WriteEvent::FlushFinished { .. } => state is Flushing && after is Idle,
        },
    ensures
        in_step(after, events.push(event)),
{
    let all = events.push(event);
    assert forall|i: int| 0 <= i < all.len() implies #[trigger] in_turn(all, i) by {
        if i < events.len() {
            assert(in_turn(events, i));
        } else {
            assert(events.len() > 0 ==> all[i - 1] == events.last());
        }
    }
}

/// One poll keeps the pairs whole.
proof fn lemma_write_poll_in_step<E>(
    state: WriteState,
    events: Seq<WriteEvent<E>>,
    poll: WritePoll<E>,
)
    requires
        in_step(state, events),
    ensures
        in_step(write_poll(state, poll).0, events + write_poll(state, poll).1),
{
    let (after, happened) = write_poll(state, poll);
    if happened.len() == 0 {
        assert(events + happened =~= events);
    } else if happened.len() == 1 {
        lemma_next_event(state, events, happened[0], after);
        assert(events + happened =~= events.push(happened[0]));
    } else {
        let begun = match poll {
            WritePoll::Write { buf, .. } => write_begun(state, buf).1,
            WritePoll::Flush { .. } => flush_begun(state).1,
        };
        lemma_next_event(state, events, happened[0], begun);
        lemma_next_event(begun, events.push(happened[0]), happened[1], after);
        assert(events + happened =~= events.push(happened[0]).push(happened[1]));
    }
}

/// Whatever is polled and in whatever order, no write and no flush is started
/// on the host's stream before the one in flight is finished; and the state of
/// the stream says which one that is.
pub proof fn lemma_writes_and_flushes_take_turns<E>(polls: Seq<WritePoll<E>>)
    ensures
        one_at_a_time(write_polls(WriteState::Idle, polls).1),
        ({
            let (state, events) = write_polls(WriteState::Idle, polls);
            match state {
                WriteState::Idle => events.len() % 2 == 0,
                WriteState::Writing => events.len() % 2 == 1 && events.last() is WriteStarted,
                WriteState::Flushing => events.len() % 2 == 1 && events.last() is FlushStarted,
            }
        }),
    decreases polls.len(),
{
    if polls.len() > 0 {
        lemma_writes_and_flushes_take_turns(polls.drop_last());
        let (state, events) = write_polls(WriteState::Idle, polls.drop_last());
        lemma_write_poll_in_step(state, events, polls.last());
    }
}

/// A poll that reads starts a read exactly when none is in flight, and of
/// exactly as many bytes as its buffer holds.
pub proof fn lemma_read_asks_for_the_whole_buffer(state: ReadState, len: usize)
    ensures
        state is Idle <==> read_begun(state, len).0 is Start,
        read_begun(state, len).0 matches ReadAction::Start { len: asked } ==> asked == len,
        read_begun(state, len).1 is Pending,
{
}

/// Every read that a series of polls starts on the host's stream asks for
/// exactly as many bytes as the buffer holds of the poll that starts it: the
/// starts are, in their order, those of polls which come while no read is in
/// flight.
pub proof fn lemma_reads_ask_for_their_buffers<E>(polls: Seq<ReadPoll<E>>, i: int)
    requires
        0 <= i < read_polls(polls).1.len(),
        read_polls(polls).1[i] is Started,
        forall|k: int| 0 <= k < polls.len() ==> (#[trigger] polls[k]).buf.len() <= usize::MAX,
    ensures
        exists|k: int|
            {
                &&& 0 <= k < polls.len()
                &&& read_polls(#[trigger] polls.take(k)).0 is Idle
                &&& read_polls(polls.take(k)).1.len() == i
                &&& read_polls(polls).1[i]->Started_len == polls[k].buf.len()
            },
    decreases polls.len(),
{
    let earlier = polls.drop_last();
    let n = polls.len() - 1;
    let (state, events, _) = read_polls(earlier);
    let happened = read_poll(state, polls.last()).1;
    if i < events.len() {
        assert forall|k: int| 0 <= k < earlier.len() implies (#[trigger] earlier[k]).buf.len()
            <= usize::MAX by {
            assert(earlier[k] == polls[k]);
        }
        lemma_reads_ask_for_their_buffers(earlier, i);
        let k = choose|k: int|
            {
                &&& 0 <= k < earlier.len()
                &&& read_polls(#[trigger] earlier.take(k)).0 is Idle
                &&& read_polls(earlier.take(k)).1.len() == i
                &&& read_polls(earlier).1[i]->Started_len == earlier[k].buf.len()
            };
        assert(polls.take(k) =~= earlier.take(k));
        assert(earlier[k] == polls[k]);
    } else {
        assert(polls.take(n) =~= earlier);
        assert(read_polls(polls).1[i] == happened[i - events.len()]);
        assert(polls[n].buf.len() <= usize::MAX);
    }
}

/// What a buffer holds after a read, byte by byte: where a byte of the read
/// fits, that byte; everywhere else what was there before.
pub proof fn lemma_read_fills_the_front(buf: Seq<u8>, bytes: Seq<u8>, n: usize, i: int)
    requires
        buf.len() <= usize::MAX,
        n <= bytes.len(),
        0 <= i < buf.len(),
    ensures
        read_into(buf, bytes, n).len() == buf.len(),
        i < n ==> read_into(buf, bytes, n)[i] == bytes[i],
        i >= n ==> read_into(buf, bytes, n)[i] == buf[i],
{
}

/// A read gives as many bytes as it brought and as fit: no more than either,
/// and all of the one or the other.
pub proof fn lemma_read_count(n: usize, len: usize)
    ensures
        shorter(n, len) <= n,
        shorter(n, len) <= len,
        shorter(n, len) == n || shorter(n, len) == len,
{
}

/// Of writes and flushes, one is started exactly when nothing is in flight, and
/// a write with all bytes that it is given; the one in flight is polled on, and
/// the other waits for it.
pub proof fn lemma_writes_and_flushes_wait_for_each_other(buf: Seq<u8>)
    ensures
        write_begun(WriteState::Idle, buf).0 matches WriteActionView::Start { data } && data == buf,
        write_begun(WriteState::Idle, buf).1 is Writing,
        write_begun(WriteState::Writing, buf).0 is Resume,
        write_begun(WriteState::Writing, buf).1 is Writing,
        write_begun(WriteState::Flushing, buf).0 is Blocked,
        write_begun(WriteState::Flushing, buf).1 is Flushing,
        flush_begun(WriteState::Idle).0 is Start,
        flush_begun(WriteState::Idle).1 is Flushing,
        flush_begun(WriteState::Writing).0 is Blocked,
        flush_begun(WriteState::Writing).1 is Writing,
        flush_begun(WriteState::Flushing).0 is Resume,
        flush_begun(WriteState::Flushing).1 is Flushing,
{
}

/// An operation stays in flight until it is finished, and then nothing is.
pub proof fn lemma_finished_operation_leaves_nothing_in_flight(state: WriteState)
    ensures
        polled(state, true) is Idle,
        polled(state, false) == state,
{
}

/// What to do for a write keeps the bytes that it was made with.
pub proof fn lemma_write_action_keeps_its_bytes(data: Vec<u8>)
    ensures
        (WriteAction::Start { data })@ == (WriteActionView::Start { data: data@ }),
        WriteAction::Resume@ is Resume,
        WriteAction::Blocked@ is Blocked,
{
}

/// The error of every operation on a platform without WASI streams says so.
pub proof fn lemma_unsupported_says_where_it_works()
    ensures
        unsupported_error().kind == ErrorKind::Unsupported,
        unsupported_error().message == "WasiTcpStream is only functional on wasm32-wasip2"@,
{
}

} // verus!
