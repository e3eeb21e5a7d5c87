use rustywin::analyze::{Outcome, Policy};
use rustywin::socketloop::{
    accept_interest, accept_next, accept_start, after_select, after_write_wait, client_to_server,
    control_fd, interest_on_vec, liveness_fd, relay_next, relay_start, select_streams,
    write_interest, write_start, write_step, Accept, AcceptEvent, AcceptOutcome, Driver, Interest,
    ReadOutcome, Relay, RelayEvent, SelectOutcome, SelectStep, SelectType, WriteOutcome,
    WriteStep, BUFFER_SIZE,
};
use rustywin::wire::Opcode;

#[test]
fn interest_by_select_type() {
    let fds = [4, 9, 2];
    assert_eq!(
        interest_on_vec(&fds, SelectType::Readers),
        Interest { readers: vec![4, 9, 2], writers: vec![], errors: vec![4, 9, 2] }
    );
    assert_eq!(
        interest_on_vec(&fds, SelectType::Writers),
        Interest { readers: vec![], writers: vec![4, 9, 2], errors: vec![4, 9, 2] }
    );
    assert_eq!(
        interest_on_vec(&fds, SelectType::ReadersAndWriters),
        Interest { readers: vec![4, 9, 2], writers: vec![4, 9, 2], errors: vec![4, 9, 2] }
    );
    assert_eq!(
        interest_on_vec(&[], SelectType::ReadersAndWriters),
        Interest { readers: vec![], writers: vec![], errors: vec![] }
    );
}

#[test]
fn every_wait_watches_the_liveness_descriptor() {
    assert_eq!(
        select_streams(5, 6, Some(3)),
        Interest { readers: vec![5, 6, 3], writers: vec![], errors: vec![5, 6, 3] }
    );
    assert_eq!(
        select_streams(5, 6, None),
        Interest { readers: vec![5, 6], writers: vec![], errors: vec![5, 6] }
    );
    assert_eq!(
        accept_interest(4, Some(3)),
        Interest { readers: vec![4, 3], writers: vec![], errors: vec![4, 3] }
    );
    assert_eq!(
        accept_interest(4, None),
        Interest { readers: vec![4], writers: vec![], errors: vec![4] }
    );
    assert_eq!(
        write_interest(6, Some(3)),
        Interest { readers: vec![3], writers: vec![6], errors: vec![6, 3] }
    );
    assert_eq!(
        write_interest(6, None),
        Interest { readers: vec![], writers: vec![6], errors: vec![6] }
    );
}

#[test]
fn liveness_and_control_descriptors() {
    let child = Driver::Child { stderr_fd: Some(7) };
    assert_eq!(liveness_fd(child), Some(7));
    assert_eq!(control_fd(child), None);
    let silent = Driver::Child { stderr_fd: None };
    assert_eq!(liveness_fd(silent), None);
    assert_eq!(control_fd(silent), None);
    let supervised = Driver::Supervisor { fd: 11 };
    assert_eq!(liveness_fd(supervised), Some(11));
    assert_eq!(control_fd(supervised), Some(11));
}

#[test]
fn interrupted_wait_is_taken_up_again() {
    assert_eq!(after_select(SelectOutcome::Ready), SelectStep::Proceed);
    assert_eq!(after_select(SelectOutcome::Interrupted), SelectStep::Again);
    assert_eq!(after_select(SelectOutcome::Failed), SelectStep::GiveUp);
}

#[test]
fn write_all_steps() {
    assert_eq!(BUFFER_SIZE, 1 << 16);
    assert_eq!(write_start(0), WriteStep::Finished);
    assert_eq!(write_start(10), WriteStep::Write { from: 0 });
    assert_eq!(write_step(10, 0, WriteOutcome::Written(4)), WriteStep::Write { from: 4 });
    assert_eq!(write_step(10, 4, WriteOutcome::Written(5)), WriteStep::Write { from: 9 });
    assert_eq!(write_step(10, 9, WriteOutcome::Written(1)), WriteStep::Finished);
    assert_eq!(write_step(10, 0, WriteOutcome::Written(10)), WriteStep::Finished);
    assert_eq!(write_step(10, 4, WriteOutcome::Written(0)), WriteStep::WriteZero);
    assert_eq!(write_step(10, 4, WriteOutcome::Interrupted), WriteStep::Write { from: 4 });
    assert_eq!(write_step(10, 4, WriteOutcome::WouldBlock), WriteStep::Wait { from: 4 });
    assert_eq!(write_step(10, 4, WriteOutcome::Failed), WriteStep::Propagate);
    assert_eq!(write_step(10, 4, WriteOutcome::Written(usize::MAX)), WriteStep::Finished);
    assert_eq!(write_step(10, 12, WriteOutcome::Written(1)), WriteStep::Finished);
    assert_eq!(after_write_wait(4, true), WriteStep::Write { from: 4 });
    assert_eq!(after_write_wait(4, false), WriteStep::WaitFailed);
}

#[test]
fn a_write_in_three_parts() {
    let len = 100;
    let mut step = write_start(len);
    let mut writes = 0;
    let outcomes = [
        WriteOutcome::Written(30),
        WriteOutcome::WouldBlock,
        WriteOutcome::Interrupted,
        WriteOutcome::Written(69),
        WriteOutcome::Written(1),
    ];
    let mut next = outcomes.iter();
    loop {
        step = match step {
            WriteStep::Write { from } => {
                writes += 1;
                write_step(len, from, *next.next().unwrap())
            }
            WriteStep::Wait { from } => after_write_wait(from, true),
            other => {
                assert_eq!(other, WriteStep::Finished);
                break;
            }
        };
    }
    assert_eq!(writes, 5);
    assert!(next.next().is_none());
}

#[test]
fn relay_round() {
    let mut doing = relay_start();
    assert_eq!(doing, Relay::ReadClient);
    doing = relay_next(doing, RelayEvent::Read(ReadOutcome::Data(12)));
    assert_eq!(doing, Relay::WriteServer { len: 12 });
    doing = relay_next(doing, RelayEvent::Wrote { ok: true });
    assert_eq!(doing, Relay::ReadServer);
    doing = relay_next(doing, RelayEvent::Read(ReadOutcome::Data(40)));
    assert_eq!(doing, Relay::WriteClient { len: 40 });
    doing = relay_next(doing, RelayEvent::Wrote { ok: true });
    assert_eq!(doing, Relay::Wait);
    doing = relay_next(doing, RelayEvent::Woke { ok: true });
    assert_eq!(doing, Relay::ReadClient);
    doing = relay_next(doing, RelayEvent::Read(ReadOutcome::WouldBlock));
    assert_eq!(doing, Relay::ReadServer);
    doing = relay_next(doing, RelayEvent::Read(ReadOutcome::WouldBlock));
    assert_eq!(doing, Relay::Wait);
}

#[test]
fn liveness_unblock_ends_the_worker() {
    // The worker is parked; the wait returns; the read that follows finds
    // the stream closed.
    let mut doing = Relay::Wait;
    doing = relay_next(doing, RelayEvent::Woke { ok: true });
    assert_eq!(doing, Relay::ReadClient);
    doing = relay_next(doing, RelayEvent::Read(ReadOutcome::Data(0)));
    assert_eq!(doing, Relay::Exit);
}

#[test]
fn relay_failures_end_the_worker() {
    let states = [
        Relay::ReadClient,
        Relay::WriteServer { len: 3 },
        Relay::ReadServer,
        Relay::WriteClient { len: 3 },
        Relay::Wait,
        Relay::Exit,
    ];
    let failures = [
        RelayEvent::Read(ReadOutcome::Failed),
        RelayEvent::Read(ReadOutcome::Data(0)),
        RelayEvent::Wrote { ok: false },
        RelayEvent::Woke { ok: false },
    ];
    for doing in states {
        for event in failures {
            assert_eq!(relay_next(doing, event), Relay::Exit);
        }
        assert_eq!(relay_next(Relay::Exit, RelayEvent::Woke { ok: true }), Relay::Exit);
    }
    assert_eq!(relay_next(Relay::ReadClient, RelayEvent::Wrote { ok: true }), Relay::Exit);
    assert_eq!(relay_next(Relay::Wait, RelayEvent::Read(ReadOutcome::Data(1))), Relay::Exit);
}

#[test]
fn accept_round() {
    let mut doing = accept_start();
    assert_eq!(doing, Accept::PollControl);
    doing = accept_next(doing, AcceptEvent::Polled);
    assert_eq!(doing, Accept::TryAccept);
    doing = accept_next(doing, AcceptEvent::Tried(AcceptOutcome::Accepted));
    assert_eq!(doing, Accept::Serve);
    doing = accept_next(doing, AcceptEvent::Served);
    assert_eq!(doing, Accept::Wait);
    doing = accept_next(doing, AcceptEvent::Woke { ok: true });
    assert_eq!(doing, Accept::PollControl);
    doing = accept_next(doing, AcceptEvent::Polled);
    doing = accept_next(doing, AcceptEvent::Tried(AcceptOutcome::WouldBlock));
    assert_eq!(doing, Accept::Wait);
    assert_eq!(accept_next(doing, AcceptEvent::Woke { ok: false }), Accept::Exit);
    assert_eq!(
        accept_next(Accept::TryAccept, AcceptEvent::Tried(AcceptOutcome::Failed)),
        Accept::Exit
    );
    assert_eq!(accept_next(Accept::Exit, AcceptEvent::Polled), Accept::Exit);
    assert_eq!(accept_next(Accept::Wait, AcceptEvent::Polled), Accept::Exit);
}

#[test]
fn unfiltered_traffic_passes_as_it_is() {
    let deny_all = Policy {
        change_window_attributes: Outcome::Denied,
        intern_atom: Outcome::Denied,
        change_property: Outcome::Denied,
        get_property: Outcome::Denied,
        grab_button: Outcome::Denied,
        query_extension: Outcome::Denied,
    };
    let grab = [0x1c, 0, 2, 0, 1, 2, 3, 4];
    let other = [0x35, 0, 1, 0];
    let mut slice = grab.to_vec();
    slice.extend_from_slice(&other);
    slice.extend_from_slice(&[9, 9]);
    let (forward, held) = client_to_server(false, &deny_all, &slice);
    assert_eq!(forward, slice);
    assert!(held.is_empty());
    let (forward, held) = client_to_server(true, &deny_all, &slice);
    assert_eq!(forward, other);
    let mut want = grab.to_vec();
    want.extend_from_slice(&[9, 9]);
    assert_eq!(held, want);
    let only_grab = Policy::permissive().with_rule(Opcode::GrabButton, Outcome::Denied);
    let (forward, held) = client_to_server(true, &only_grab, &other);
    assert_eq!(forward, other);
    assert!(held.is_empty());
}
