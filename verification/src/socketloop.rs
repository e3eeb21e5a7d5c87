//! The decisions of the relay: what a worker does after each read, write and
//! wait, which descriptors it waits on, and which bytes it forwards.
//!
//! The loops themselves run where the sockets are. After every step they
//! report what happened, and the functions here say what comes next.

use crate::analyze::{filter_spec, filter_with_policy, Policy};
use crate::ipc::contains_pid;
use vstd::prelude::*;

verus! {

/// Bytes that a worker reads at a time.
pub const BUFFER_SIZE: usize = 65536;

/// Which kinds of readiness a wait asks for.
#[derive(Debug, Copy, Clone, Eq, PartialEq, Hash, Structural)]
pub enum SelectType {
    Readers,
    Writers,
    ReadersAndWriters,
}

/// The descriptors that a wait watches, by the kind of readiness.
#[derive(Clone, Debug, PartialEq, Eq)]
pub struct Interest {
    /// Watched for data to read.
    pub readers: Vec<i32>,
    /// Watched for room to write.
    pub writers: Vec<i32>,
    /// Watched for exceptional conditions.
    pub errors: Vec<i32>,
}

/// A list of the descriptor, or of nothing.
pub open spec fn optional_fd(fd: Option<i32>) -> Seq<i32> {
    match fd {
        Some(fd) => seq![fd],
        None => Seq::empty(),
    }
}

/// Sorts descriptors into the sets of a wait: all of them are watched for
/// exceptional conditions, and for reading or writing as `socktype` says.
pub fn interest_on_vec(fdset_vec: &[i32], socktype: SelectType) -> (interest: Interest)
    ensures
        interest.readers@ == if socktype == SelectType::Writers {
            Seq::<i32>::empty()
        } else {
            fdset_vec@
        },
        interest.writers@ == if socktype == SelectType::Readers {
            Seq::<i32>::empty()
        } else {
            fdset_vec@
        },
        interest.errors@ == fdset_vec@,
{
    let mut r_fdset: Vec<i32> = Vec::new();
    let mut w_fdset: Vec<i32> = Vec::new();
    let mut e_fdset: Vec<i32> = Vec::new();
    let n: usize = fdset_vec.len();
    let mut i: usize = 0;
    while i < n
        invariant
            i <= n,
            n == fdset_vec@.len(),
            r_fdset@ == if socktype == SelectType::Writers {
                Seq::<i32>::empty()
            } else {
                fdset_vec@.take(i as int)
            },
            w_fdset@ == if socktype == SelectType::Readers {
                Seq::<i32>::empty()
            } else {
                fdset_vec@.take(i as int)
            },
            e_fdset@ == fdset_vec@.take(i as int),
        decreases n - i,
    {
        let fd: i32 = fdset_vec[i];
        proof {
            assert(fdset_vec@.take(i + 1) =~= fdset_vec@.take(i as int).push(fd));
        }
        match socktype {
            SelectType::Readers => {
                r_fdset.push(fd);
            },
            SelectType::Writers => {
                w_fdset.push(fd);
            },
            SelectType::ReadersAndWriters => {
                r_fdset.push(fd);
                w_fdset.push(fd);
            },
        }
        e_fdset.push(fd);
        i = i + 1;
    }
    proof {
        assert(fdset_vec@.take(n as int) =~= fdset_vec@);
    }
    Interest { readers: r_fdset, writers: w_fdset, errors: e_fdset }
}

/// What a worker waits on between two rounds: data from the client, data from
/// the server, or the liveness descriptor becoming readable.
pub fn select_streams(
    client_stream_fd: i32,
    server_stream_fd: i32,
    child_stderr_fd: Option<i32>,
) -> (interest: Interest)
    ensures
        interest.readers@ == seq![client_stream_fd, server_stream_fd] + optional_fd(
            child_stderr_fd,
        ),
        interest.writers@ == Seq::<i32>::empty(),
        interest.errors@ == interest.readers@,
        child_stderr_fd matches Some(fd) ==> interest.readers@.contains(fd),
{
    let mut fd_vec: Vec<i32> = Vec::new();
    fd_vec.push(client_stream_fd);
    fd_vec.push(server_stream_fd);
    match child_stderr_fd {
        Some(real_child_stderr_fd) => {
            fd_vec.push(real_child_stderr_fd);
        },
        None => {},
    }
    proof {
        assert(fd_vec@ =~= seq![client_stream_fd, server_stream_fd] + optional_fd(
            child_stderr_fd,
        ));
        if let Some(fd) = child_stderr_fd {
            assert(fd_vec@[2] == fd);
        }
    }
    interest_on_vec(fd_vec.as_slice(), SelectType::Readers)
}

/// What the accept loop waits on: a connection on the listening socket, or
/// the liveness descriptor becoming readable.
pub fn accept_interest(listen_fd: i32, child_fd: Option<i32>) -> (interest: Interest)
    ensures
        interest.readers@ == seq![listen_fd] + optional_fd(child_fd),
        interest.writers@ == Seq::<i32>::empty(),
        interest.errors@ == interest.readers@,
        child_fd matches Some(fd) ==> interest.readers@.contains(fd),
{
    let mut select_vec: Vec<i32> = Vec::new();
    select_vec.push(listen_fd);
    match child_fd {
        Some(fd) => {
            select_vec.push(fd);
        },
        None => {},
    }
    proof {
        assert(select_vec@ =~= seq![listen_fd] + optional_fd(child_fd));
        if let Some(fd) = child_fd {
            assert(select_vec@[1] == fd);
        }
    }
    interest_on_vec(select_vec.as_slice(), SelectType::Readers)
}

/// What a blocked write waits on: room to write on the stream, or the
/// liveness descriptor becoming readable.
pub fn write_interest(stream_fd: i32, child_stderr_fd: Option<i32>) -> (interest: Interest)
    ensures
        interest.readers@ == optional_fd(child_stderr_fd),
        interest.writers@ == seq![stream_fd],
        interest.errors@ == seq![stream_fd] + optional_fd(child_stderr_fd),
        child_stderr_fd matches Some(fd) ==> interest.readers@.contains(fd),
{
    let mut readers: Vec<i32> = Vec::new();
    let mut writers: Vec<i32> = Vec::new();
    let mut errors: Vec<i32> = Vec::new();
    writers.push(stream_fd);
    errors.push(stream_fd);
    match child_stderr_fd {
        Some(real_child_stderr_fd) => {
            readers.push(real_child_stderr_fd);
            errors.push(real_child_stderr_fd);
        },
        None => {},
    }
    proof {
        assert(readers@ =~= optional_fd(child_stderr_fd));
        assert(writers@ =~= seq![stream_fd]);
        assert(errors@ =~= seq![stream_fd] + optional_fd(child_stderr_fd));
        if let Some(fd) = child_stderr_fd {
            assert(readers@[0] == fd);
        }
    }
    Interest { readers, writers, errors }
}

/// Who drives the proxy.
#[derive(Debug, Copy, Clone, Eq, PartialEq, Structural)]
pub enum Driver {
    /// The proxy started the client itself; `stderr_fd` is the read end of
    /// the client's standard error, where there is one.
    Child { stderr_fd: Option<i32> },
    /// A supervisor holds the other end of the socket `fd`.
    Supervisor { fd: i32 },
}

/// The descriptor whose readiness tells that the relay should stop waiting:
/// the standard error of the client, which closes when it exits, or the
/// socket of the supervisor.
pub fn liveness_fd(driver: Driver) -> (fd: Option<i32>)
    ensures
        fd == match driver {
            Driver::Child { stderr_fd } => stderr_fd,
            Driver::Supervisor { fd } => Some(fd),
        },
{
    match driver {
        Driver::Child { stderr_fd } => stderr_fd,
        Driver::Supervisor { fd } => Some(fd),
    }
}

/// The descriptor on which process ids arrive: only a supervisor sends any.
pub fn control_fd(driver: Driver) -> (fd: Option<i32>)
    ensures
        fd == match driver {
            Driver::Child { stderr_fd } => None::<i32>,
            Driver::Supervisor { fd } => Some(fd),
        },
{
    match driver {
        Driver::Child { stderr_fd: _ } => None,
        Driver::Supervisor { fd } => Some(fd),
    }
}

/// What a wait reported.
#[derive(Debug, Copy, Clone, Eq, PartialEq, Structural)]
pub enum SelectOutcome {
    /// Some descriptor is ready.
    Ready,
    /// A signal cut the wait short.
    Interrupted,
    /// The wait failed for another reason.
    Failed,
}

/// What to do after a wait.
#[derive(Debug, Copy, Clone, Eq, PartialEq, Structural)]
pub enum SelectStep {
    /// Go on with the loop.
    Proceed,
    /// Wait again on the same descriptors.
    Again,
    /// Hand the error to the caller.
    GiveUp,
}

/// Decides what follows a wait: an interrupted wait is taken up again, any
/// other error is handed on.
pub fn after_select(outcome: SelectOutcome) -> (step: SelectStep)
    ensures
        step == match outcome {
            SelectOutcome::Ready => SelectStep::Proceed,
            SelectOutcome::Interrupted => SelectStep::Again,
            SelectOutcome::Failed => SelectStep::GiveUp,
        },
{
    match outcome {
        SelectOutcome::Ready => SelectStep::Proceed,
        SelectOutcome::Interrupted => SelectStep::Again,
        SelectOutcome::Failed => SelectStep::GiveUp,
    }
}

/// What one call of `write` on a non-blocking stream reported.
#[derive(Debug, Copy, Clone, Eq, PartialEq, Structural)]
pub enum WriteOutcome {
    /// So many bytes were taken.
    Written(usize),
    /// A signal cut the call short.
    Interrupted,
    /// The stream has no room now.
    WouldBlock,
    /// Any other error.
    Failed,
}

/// What writing a whole buffer to a non-blocking stream does next.
#[derive(Debug, Copy, Clone, Eq, PartialEq, Structural)]
pub enum WriteStep {
    /// Every byte is written.
    Finished,
    /// Write what starts at `from`.
    Write { from: usize },
    /// Wait for room on the stream, then write what starts at `from`.
    Wait { from: usize },
    /// The stream took nothing: fail with a write-zero error.
    WriteZero,
    /// Waiting for room failed: fail with a would-block error.
    WaitFailed,
    /// Fail with the error that the write reported.
    Propagate,
}

/// The first step of writing `len` bytes.
pub fn write_start(len: usize) -> (step: WriteStep)
    ensures
        step == if len == 0 {
            WriteStep::Finished
        } else {
            WriteStep::Write { from: 0 }
        },
{
    if len == 0 {
        WriteStep::Finished
    } else {
        WriteStep::Write { from: 0 }
    }
}

/// The step after a call of `write`, as a function of what it reported.
pub open spec fn write_step_spec(len: usize, from: usize, outcome: WriteOutcome) -> WriteStep {
    match outcome {
        WriteOutcome::Written(n) => if n == 0 {
            WriteStep::WriteZero
        } else if from + n >= len {
            WriteStep::Finished
        } else {
            WriteStep::Write { from: (from + n) as usize }
        },
        WriteOutcome::Interrupted => WriteStep::Write { from },
        WriteOutcome::WouldBlock => WriteStep::Wait { from },
        WriteOutcome::Failed => WriteStep::Propagate,
    }
}

/// Decides what follows a call of `write` on the bytes from `from` of a
/// buffer of `len` bytes.
///
/// A write that took nothing fails the whole write. One that took some bytes
/// moves on by that many, and is done when none are left. An interrupted
/// write is repeated at once, one that would block is repeated after a wait,
/// and any other error is handed on.
pub fn write_step(len: usize, from: usize, outcome: WriteOutcome) -> (step: WriteStep)
    ensures
        step == write_step_spec(len, from, outcome),
        step matches WriteStep::Write { from: next } ==> from <= next && (from < len ==> next
            < len),
{
    match outcome {
        WriteOutcome::Written(n) => {
            if n == 0 {
                WriteStep::WriteZero
            } else if from >= len || n >= len - from {
                WriteStep::Finished
            } else {
                WriteStep::Write { from: from + n }
            }
        },
        WriteOutcome::Interrupted => WriteStep::Write { from },
        WriteOutcome::WouldBlock => WriteStep::Wait { from },
        WriteOutcome::Failed => WriteStep::Propagate,
    }
}

/// Decides what follows the wait of a blocked write.
pub fn after_write_wait(from: usize, waited: bool) -> (step: WriteStep)
    ensures
        step == if waited {
            WriteStep::Write { from }
        } else {
            WriteStep::WaitFailed
        },
{
    if waited {
        WriteStep::Write { from }
    } else {
        WriteStep::WaitFailed
    }
}

/// What one call of `read` on a non-blocking stream reported.
#[derive(Debug, Copy, Clone, Eq, PartialEq, Structural)]
pub enum ReadOutcome {
    /// So many bytes arrived; none means that the peer closed the stream.
    Data(usize),
    /// Nothing is there to read now.
    WouldBlock,
    /// Any other error.
    Failed,
}

/// What a worker is about to do. It is also the state of the worker: the
/// next step depends on this and on how it went.
#[derive(Debug, Copy, Clone, Eq, PartialEq, Structural)]
pub enum Relay {
    /// Read from the client.
    ReadClient,
    /// Send the first `len` bytes of the buffer, filtered where the peer is
    /// filtered, to the server.
    WriteServer { len: usize },
    /// Read from the server.
    ReadServer,
    /// Send the first `len` bytes of the buffer, as they are, to the client.
    WriteClient { len: usize },
    /// Wait until a stream or the liveness descriptor has something.
    Wait,
    /// Leave the loop; both streams are closed.
    Exit,
}

/// How a step of a worker went.
#[derive(Debug, Copy, Clone, Eq, PartialEq, Structural)]
pub enum RelayEvent {
    /// A read came back.
    Read(ReadOutcome),
    /// A whole buffer was written, or the write failed.
    Wrote { ok: bool },
    /// The wait returned, or failed.
    Woke { ok: bool },
}

/// What a worker does after `doing` went as `event` says.
pub open spec fn relay_next_spec(doing: Relay, event: RelayEvent) -> Relay {
    match (doing, event) {
        (Relay::ReadClient, RelayEvent::Read(ReadOutcome::Data(n))) => if n > 0 {
            Relay::WriteServer { len: n }
        } else {
            Relay::Exit
        },
        (Relay::ReadClient, RelayEvent::Read(ReadOutcome::WouldBlock)) => Relay::ReadServer,
        (Relay::WriteServer { len }, RelayEvent::Wrote { ok: true }) => Relay::ReadServer,
        (Relay::ReadServer, RelayEvent::Read(ReadOutcome::Data(n))) => if n > 0 {
            Relay::WriteClient { len: n }
        } else {
            Relay::Exit
        },
        (Relay::ReadServer, RelayEvent::Read(ReadOutcome::WouldBlock)) => Relay::Wait,
        (Relay::WriteClient { len }, RelayEvent::Wrote { ok: true }) => Relay::Wait,
        (Relay::Wait, RelayEvent::Woke { ok: true }) => Relay::ReadClient,
        _ => Relay::Exit,
    }
}

/// The first step of a worker.
pub fn relay_start() -> (doing: Relay)
    ensures
        doing == Relay::ReadClient,
{
    Relay::ReadClient
}

/// Decides the next step of a worker.
///
/// A round reads from the client and forwards what came, reads from the
/// server and forwards what came, and then waits. A stream that would block
/// has nothing to forward. A closed stream, a failed read, write or wait,
/// and an event that does not belong to the step all end the worker.
pub fn relay_next(doing: Relay, event: RelayEvent) -> (next: Relay)
    ensures
        next == relay_next_spec(doing, event),
{
    match doing {
        Relay::ReadClient => match event {
            RelayEvent::Read(ReadOutcome::Data(n)) => {
                if n > 0 {
                    Relay::WriteServer { len: n }
                } else {
                    Relay::Exit
                }
            },
            RelayEvent::Read(ReadOutcome::WouldBlock) => Relay::ReadServer,
            _ => Relay::Exit,
        },
        Relay::WriteServer { len: _ } => match event {
            RelayEvent::Wrote { ok: true } => Relay::ReadServer,
            _ => Relay::Exit,
        },
        Relay::ReadServer => match event {
            RelayEvent::Read(ReadOutcome::Data(n)) => {
                if n > 0 {
                    Relay::WriteClient { len: n }
                } else {
                    Relay::Exit
                }
            },
            RelayEvent::Read(ReadOutcome::WouldBlock) => Relay::Wait,
            _ => Relay::Exit,
        },
        Relay::WriteClient { len: _ } => match event {
            RelayEvent::Wrote { ok: true } => Relay::Wait,
            _ => Relay::Exit,
        },
        Relay::Wait => match event {
            RelayEvent::Woke { ok: true } => Relay::ReadClient,
            _ => Relay::Exit,
        },
        Relay::Exit => Relay::Exit,
    }
}

/// A failed read, write or wait ends the worker, and so does a stream that
/// its peer closed. Once ended, a worker stays so.
pub proof fn lemma_relay_failures_exit(doing: Relay, event: RelayEvent)
    requires
        doing == Relay::Exit || event == RelayEvent::Read(ReadOutcome::Failed) || event
            == RelayEvent::Read(ReadOutcome::Data(0)) || event == (RelayEvent::Wrote { ok: false })
            || event == (RelayEvent::Woke { ok: false }),
    ensures
        relay_next_spec(doing, event) == Relay::Exit,
{
}

/// What was read is forwarded in full, and only what was read: the write
/// that follows a read of `n` bytes is of `n` bytes, to the other side.
pub proof fn lemma_relay_forwards_what_it_read(doing: Relay, n: usize)
    requires
        n > 0,
    ensures
        relay_next_spec(Relay::ReadClient, RelayEvent::Read(ReadOutcome::Data(n)))
            == (Relay::WriteServer { len: n }),
        relay_next_spec(Relay::ReadServer, RelayEvent::Read(ReadOutcome::Data(n)))
            == (Relay::WriteClient { len: n }),
        relay_next_spec(doing, RelayEvent::Read(ReadOutcome::Data(n))) matches Relay::WriteServer {
            len,
        } ==> doing == Relay::ReadClient && len == n,
        relay_next_spec(doing, RelayEvent::Read(ReadOutcome::Data(n))) matches Relay::WriteClient {
            len,
        } ==> doing == Relay::ReadServer && len == n,
{
}

/// Whether the traffic of a peer is filtered: its process id is in the set.
pub fn should_filter(pids: &Vec<u32>, client_pid: i32) -> (b: bool)
    ensures
        b == (client_pid >= 0 && pids@.contains(client_pid as u32)),
{
    client_pid >= 0 && contains_pid(pids, client_pid as u32)
}

/// Splits what a client sent into what goes on to the server and what is
/// held back. Traffic of a peer that is not filtered goes on as it is.
pub fn client_to_server(filtering: bool, policy: &Policy, slice: &[u8]) -> (r: (Vec<u8>, Vec<u8>))
    ensures
        (r.0@, r.1@) == if filtering {
            filter_spec(*policy, slice@)
        } else {
            (slice@, Seq::<u8>::empty())
        },
{
    if filtering {
        filter_with_policy(policy, slice)
    } else {
        let mut forward: Vec<u8> = Vec::with_capacity(slice.len());
        forward.extend_from_slice(slice);
        (forward, Vec::new())
    }
}

/// What one call of `accept` on the non-blocking listening socket reported.
#[derive(Debug, Copy, Clone, Eq, PartialEq, Structural)]
pub enum AcceptOutcome {
    /// A client connected.
    Accepted,
    /// No client is waiting.
    WouldBlock,
    /// Any other error.
    Failed,
}

/// What the accept loop is about to do; also its state.
#[derive(Debug, Copy, Clone, Eq, PartialEq, Structural)]
pub enum Accept {
    /// Take what the supervisor sent on the control channel.
    PollControl,
    /// Try to accept a client.
    TryAccept,
    /// Connect to the server and hand both streams to a new worker.
    Serve,
    /// Wait for a client or for the liveness descriptor.
    Wait,
    /// Leave the loop.
    Exit,
}

/// How a step of the accept loop went.
#[derive(Debug, Copy, Clone, Eq, PartialEq, Structural)]
pub enum AcceptEvent {
    /// The control channel was polled.
    Polled,
    /// `accept` came back.
    Tried(AcceptOutcome),
    /// The client was handed on, or the server could not be reached.
    Served,
    /// The wait returned, or failed.
    Woke { ok: bool },
}

/// What the accept loop does after `doing` went as `event` says.
pub open spec fn accept_next_spec(doing: Accept, event: AcceptEvent) -> Accept {
    match (doing, event) {
        (Accept::PollControl, AcceptEvent::Polled) => Accept::TryAccept,
        (Accept::TryAccept, AcceptEvent::Tried(AcceptOutcome::Accepted)) => Accept::Serve,
        (Accept::TryAccept, AcceptEvent::Tried(AcceptOutcome::WouldBlock)) => Accept::Wait,
        (Accept::Serve, AcceptEvent::Served) => Accept::Wait,
        (Accept::Wait, AcceptEvent::Woke { ok: true }) => Accept::PollControl,
        _ => Accept::Exit,
    }
}

/// The first step of the accept loop.
pub fn accept_start() -> (doing: Accept)
    ensures
        doing == Accept::PollControl,
{
    Accept::PollControl
}

/// Decides the next step of the accept loop.
///
/// A round polls the control channel, tries to accept a client, hands it to
/// a worker if there is one, and waits. A failed accept or wait, and an event
/// that does not belong to the step, end the loop.
pub fn accept_next(doing: Accept, event: AcceptEvent) -> (next: Accept)
    ensures
        next == accept_next_spec(doing, event),
{
    match doing {
        Accept::PollControl => match event {
            AcceptEvent::Polled => Accept::TryAccept,
            _ => Accept::Exit,
        },
        Accept::TryAccept => match event {
            AcceptEvent::Tried(AcceptOutcome::Accepted) => Accept::Serve,
            AcceptEvent::Tried(AcceptOutcome::WouldBlock) => Accept::Wait,
            _ => Accept::Exit,
        },
        Accept::Serve => match event {
            AcceptEvent::Served => Accept::Wait,
            _ => Accept::Exit,
        },
        Accept::Wait => match event {
            AcceptEvent::Woke { ok: true } => Accept::PollControl,
            _ => Accept::Exit,
        },
        Accept::Exit => Accept::Exit,
    }
}

/// The accept loop never tries to accept a client without having polled the
/// control channel just before, and the step after a wait that returned is
/// that poll.
pub proof fn lemma_accept_polls_control_first(doing: Accept, event: AcceptEvent)
    ensures
        accept_next_spec(Accept::Wait, AcceptEvent::Woke { ok: true }) == Accept::PollControl,
        accept_next_spec(doing, event) == Accept::TryAccept ==> doing == Accept::PollControl,
{
}

} // verus!
