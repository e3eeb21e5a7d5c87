//! The control channel: messages by which a supervisor names the processes
//! whose traffic is filtered.
//!
//! A message is five bytes: a command, then a process id as a `u32` in the
//! byte order of the machine. Command 0 adds the process id to the filtered
//! set, command 1 removes it.

use crate::wire::le_u32_value;
use byteorder::{ByteOrder, NativeEndian};
use vstd::prelude::*;
use vstd::slice::slice_subrange;

verus! {

/// Bytes in a control message.
pub const PID_MESSAGE_LEN: usize = 5;

/// The command that adds a process id to the filtered set.
pub const COMMAND_ADD: u8 = 0;

/// The command that removes a process id from the filtered set.
pub const COMMAND_REMOVE: u8 = 1;

/// The unsigned number that the first four bytes of `b` encode, high byte
/// first.
pub open spec fn be_u32_value(b: Seq<u8>) -> int
    recommends
        b.len() >= 4,
{
    16777216 * (b[0] as int) + 65536 * (b[1] as int) + 256 * (b[2] as int) + b[3] as int
}

/// Reads a `u32` in the byte order of the machine with
/// `byteorder::NativeEndian::read_u32`.
///
/// Trusted: `NativeEndian` is `LittleEndian` or `BigEndian`, as the target
/// has it, so the result is one of the two readings of the first four bytes.
/// The call panics on fewer than four bytes, which `requires` leaves out.
#[verifier::external_body]
fn read_native_u32(buf: &[u8]) -> (r: u32)
    requires
        buf@.len() >= 4,
    ensures
        r == le_u32_value(buf@) || r == be_u32_value(buf@),
{
    NativeEndian::read_u32(buf)
}

/// One message of the control channel.
#[derive(Clone, Copy, Debug, PartialEq, Eq, Structural)]
pub struct PidMessage {
    pub command: u8,
    pub pid: u32,
}

/// Whether `pid` is a reading of bytes 1 to 4 of `buffer` in one of the two
/// byte orders.
pub open spec fn is_pid_of(pid: u32, buffer: Seq<u8>) -> bool
    recommends
        buffer.len() >= 5,
{
    pid == le_u32_value(buffer.subrange(1, 5)) || pid == be_u32_value(buffer.subrange(1, 5))
}

/// Takes a received datagram apart. `received` is the number of bytes that
/// arrived in `buffer`; anything but five of them is no message.
pub fn decode_pid_message(buffer: &[u8], received: usize) -> (r: Option<PidMessage>)
    ensures
        r is Some <==> received == 5 && buffer@.len() >= 5,
        r matches Some(m) ==> m.command == buffer@[0] && is_pid_of(m.pid, buffer@),
{
    if received != PID_MESSAGE_LEN || buffer.len() < PID_MESSAGE_LEN {
        return None;
    }
    let command: u8 = buffer[0];
    let pid: u32 = read_native_u32(slice_subrange(buffer, 1, 5));
    Some(PidMessage { command, pid })
}

/// The filtered set after a message: command 0 adds `pid`, command 1 removes
/// it, and any other command changes nothing.
pub open spec fn apply_pid_message(pids: Set<u32>, cmd: u8, pid: u32) -> Set<u32> {
    if cmd == 0 {
        pids.insert(pid)
    } else if cmd == 1 {
        pids.remove(pid)
    } else {
        pids
    }
}

/// The list without any occurrence of `pid`; the others keep their order.
pub open spec fn without_pid(pids: Seq<u32>, pid: u32) -> Seq<u32>
    decreases pids.len(),
{
    if pids.len() == 0 {
        pids
    } else if pids.last() == pid {
        without_pid(pids.drop_last(), pid)
    } else {
        without_pid(pids.drop_last(), pid).push(pids.last())
    }
}

/// The list of filtered process ids after a message: a new id is added at
/// the end, a removed one leaves no trace, and the others keep their order.
pub open spec fn pids_after(pids: Seq<u32>, cmd: u8, pid: u32) -> Seq<u32> {
    if cmd == 0 {
        if pids.contains(pid) {
            pids
        } else {
            pids.push(pid)
        }
    } else if cmd == 1 {
        without_pid(pids, pid)
    } else {
        pids
    }
}

/// Whether `pid` stands in the list.
pub fn contains_pid(pids: &Vec<u32>, pid: u32) -> (b: bool)
    ensures
        b == pids@.contains(pid),
{
    let n: usize = pids.len();
    let mut i: usize = 0;
    while i < n
        invariant
            i <= n,
            n == pids@.len(),
            forall|j: int| 0 <= j < i ==> pids@[j] != pid,
        decreases n - i,
    {
        if pids[i] == pid {
            return true;
        }
        i = i + 1;
    }
    false
}

/// Applies one control message to the list of filtered process ids.
pub fn process_pid_message(cmd: u8, pid: u32, pids: &mut Vec<u32>)
    ensures
        final(pids)@ == pids_after(old(pids)@, cmd, pid),
        final(pids)@.to_set() == apply_pid_message(old(pids)@.to_set(), cmd, pid),
        old(pids)@.no_duplicates() ==> final(pids)@.no_duplicates(),
{
    proof {
        lemma_pids_after_as_set(pids@, cmd, pid);
    }
    if cmd == COMMAND_ADD {
        if !contains_pid(pids, pid) {
            pids.push(pid);
        }
    } else if cmd == COMMAND_REMOVE {
        let n: usize = pids.len();
        let mut kept: Vec<u32> = Vec::new();
        let mut i: usize = 0;
        while i < n
            invariant
                i <= n,
                n == pids@.len(),
                kept@ == without_pid(pids@.take(i as int), pid),
            decreases n - i,
        {
            let x: u32 = pids[i];
            proof {
                assert(pids@.take(i + 1).drop_last() =~= pids@.take(i as int));
            }
            if x != pid {
                kept.push(x);
            }
            i = i + 1;
        }
        proof {
            assert(pids@.take(n as int) =~= pids@);
        }
        *pids = kept;
    }
}

/// What a non-blocking receive on the control channel reported.
#[derive(Clone, Copy, Debug, PartialEq, Eq, Structural)]
pub enum RecvOutcome {
    /// So many bytes arrived.
    Received(usize),
    /// Nothing was sent.
    WouldBlock,
    /// Any other error.
    Failed,
}

/// What became of one look at the control channel.
#[derive(Clone, Copy, Debug, PartialEq, Eq, Structural)]
pub enum ControlStatus {
    /// A message arrived and was applied.
    Applied(PidMessage),
    /// Nothing was sent; not a failure.
    Idle,
    /// What arrived is no message: the supervisor broke the protocol.
    BadLength,
    /// The channel failed.
    Failed,
}

/// Takes in what a receive on the control channel brought: a message of five
/// bytes is applied to the list of filtered process ids, and anything else
/// leaves the list as it is.
pub fn try_receive_pids(outcome: RecvOutcome, buffer: &[u8], pids: &mut Vec<u32>) -> (status:
    ControlStatus)
    ensures
        match outcome {
            RecvOutcome::Received(n) => if n == 5 && buffer@.len() >= 5 {
                status matches ControlStatus::Applied(m) && m.command == buffer@[0] && is_pid_of(
                    m.pid,
                    buffer@,
                ) && final(pids)@ == pids_after(old(pids)@, m.command, m.pid)
            } else {
                status == ControlStatus::BadLength && final(pids)@ == old(pids)@
            },
            RecvOutcome::WouldBlock => status == ControlStatus::Idle && final(pids)@ == old(pids)@,
            RecvOutcome::Failed => status == ControlStatus::Failed && final(pids)@ == old(pids)@,
        },
{
    match outcome {
        RecvOutcome::Received(n) => match decode_pid_message(buffer, n) {
            Some(message) => {
                process_pid_message(message.command, message.pid, pids);
                ControlStatus::Applied(message)
            },
            None => ControlStatus::BadLength,
        },
        // Not a real failure, just no data.
        RecvOutcome::WouldBlock => ControlStatus::Idle,
        RecvOutcome::Failed => ControlStatus::Failed,
    }
}

/// The list that `pids_after` gives holds exactly the set that
/// `apply_pid_message` gives, and no process id twice if none stood twice
/// before.
pub proof fn lemma_pids_after_as_set(pids: Seq<u32>, cmd: u8, pid: u32)
    ensures
        pids_after(pids, cmd, pid).to_set() == apply_pid_message(pids.to_set(), cmd, pid),
        pids.no_duplicates() ==> pids_after(pids, cmd, pid).no_duplicates(),
{
    let after = pids_after(pids, cmd, pid);
    if cmd == 0 {
        if !pids.contains(pid) {
            assert forall|x: u32| after.contains(x) <==> (pids.contains(x) || x == pid) by {
                if after.contains(x) {
                    let i = choose|i: int| 0 <= i < after.len() && after[i] == x;
                    if i < pids.len() {
                        assert(pids[i] == x);
                    }
                }
                if pids.contains(x) {
                    let i = choose|i: int| 0 <= i < pids.len() && pids[i] == x;
                    assert(after[i] == x);
                }
                if x == pid {
                    assert(after[pids.len() as int] == x);
                }
            }
        }
        assert(after.to_set() =~= pids.to_set().insert(pid));
    } else if cmd == 1 {
        lemma_without_pid(pids, pid);
        assert(after.to_set() =~= pids.to_set().remove(pid));
    }
}

/// Removing a process id takes it out, keeps every other one, and brings in
/// no duplicate; where it did not occur, nothing changes.
pub proof fn lemma_without_pid(pids: Seq<u32>, pid: u32)
    ensures
        forall|x: u32|
            #![trigger without_pid(pids, pid).contains(x)]
            #![trigger pids.contains(x)]
            without_pid(pids, pid).contains(x) <==> pids.contains(x) && x != pid,
        pids.no_duplicates() ==> without_pid(pids, pid).no_duplicates(),
        !pids.contains(pid) ==> without_pid(pids, pid) == pids,
    decreases pids.len(),
{
    let out = without_pid(pids, pid);
    if pids.len() > 0 {
        let rest = pids.drop_last();
        let last = pids.last();
        let kept = without_pid(rest, pid);
        lemma_without_pid(rest, pid);
        assert(rest.push(last) =~= pids);
        assert forall|x: u32| out.contains(x) <==> pids.contains(x) && x != pid by {
            if out.contains(x) {
                let i = choose|i: int| 0 <= i < out.len() && out[i] == x;
                if last != pid && i == kept.len() {
                    assert(pids[pids.len() - 1] == x);
                } else {
                    assert(kept[i] == x);
                    assert(kept.contains(x));
                    let j = choose|j: int| 0 <= j < rest.len() && rest[j] == x;
                    assert(pids[j] == x);
                }
            }
            if pids.contains(x) && x != pid {
                let j = choose|j: int| 0 <= j < pids.len() && pids[j] == x;
                if j < rest.len() {
                    assert(rest[j] == x);
                    assert(rest.contains(x));
                    let i = choose|i: int| 0 <= i < kept.len() && kept[i] == x;
                    assert(out[i] == x);
                } else {
                    assert(out[kept.len() as int] == x);
                }
            }
        }
        if pids.no_duplicates() {
            assert(rest.no_duplicates());
            if last != pid {
                if kept.contains(last) {
                    let j = choose|j: int| 0 <= j < rest.len() && rest[j] == last;
                    assert(pids[j] == pids[pids.len() - 1]);
                }
                assert forall|i: int, j: int|
                    0 <= i < out.len() && 0 <= j < out.len() && i != j implies out[i]
                    != out[j] by {
                    if i == kept.len() {
                        assert(kept.contains(kept[j]));
                    } else if j == kept.len() {
                        assert(kept.contains(kept[i]));
                    }
                }
            }
        }
        if !pids.contains(pid) {
            assert(last != pid) by {
                assert(pids[pids.len() - 1] == last);
            }
            assert(!rest.contains(pid)) by {
                if rest.contains(pid) {
                    let j = choose|j: int| 0 <= j < rest.len() && rest[j] == pid;
                    assert(pids[j] == pid);
                }
            }
        }
    }
}

/// Adding a process id that is in the set already changes nothing.
pub proof fn lemma_add_present_pid_is_noop(pids: Seq<u32>, pid: u32)
    requires
        pids.contains(pid),
    ensures
        pids_after(pids, 0, pid) == pids,
        apply_pid_message(pids.to_set(), 0, pid) == pids.to_set(),
{
    assert(pids.to_set().insert(pid) =~= pids.to_set());
}

/// Removing a process id that is not in the set changes nothing.
pub proof fn lemma_remove_absent_pid_is_noop(pids: Seq<u32>, pid: u32)
    requires
        !pids.contains(pid),
    ensures
        pids_after(pids, 1, pid) == pids,
        apply_pid_message(pids.to_set(), 1, pid) == pids.to_set(),
{
    lemma_without_pid(pids, pid);
    assert(pids.to_set().remove(pid) =~= pids.to_set());
}

/// A process id is filtered after it was added, and no longer after it was
/// removed again.
pub proof fn lemma_add_then_remove(pids: Set<u32>, pid: u32)
    ensures
        apply_pid_message(pids, 0, pid).contains(pid),
        !apply_pid_message(apply_pid_message(pids, 0, pid), 1, pid).contains(pid),
{
}

} // verus!
