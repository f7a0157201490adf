//! The guardian against memory exhaustion: what it asks the kernel to watch
//! for, how it reads what the kernel reports, and whom it kills.

use vstd::prelude::*;

verus! {

/// Stall time that trips the guardian, in microseconds.
pub const PRESSURE_STALL_US: u64 = 150_000;

/// Window within which the stall time is counted, in microseconds.
pub const PRESSURE_WINDOW_US: u64 = 1_000_000;

/// The lowest user id that is not a system account.
pub const FIRST_USER_UID: u32 = 1000;

/// FIFO priority of the guardian: the lowest, so that it never preempts the
/// control loop.
pub const GUARDIAN_PRIORITY: i32 = 1;

/// Poll event: there is urgent data to read.
pub const POLLPRI: i16 = 0x002;

/// Poll event: error condition.
pub const POLLERR: i16 = 0x008;

/// What a report of the kernel on the watched memory pressure means.
#[derive(Clone, Copy, Debug, PartialEq, Eq, Structural)]
pub enum PressureEvent {
    /// The source of the reports is gone. The guardian cannot go on.
    SourceGone,
    /// Memory pressure has crossed the threshold: time to kill.
    Pressure,
    /// Anything else. The guardian cannot go on.
    Unexpected,
}

/// The meaning of the events that a poll returned. An error outweighs
/// whatever else is reported.
pub open spec fn classified(revents: i16) -> PressureEvent {
    if (revents & POLLERR) != 0 {
        PressureEvent::SourceGone
    } else if (revents & POLLPRI) != 0 {
        PressureEvent::Pressure
    } else {
        PressureEvent::Unexpected
    }
}

/// Whom to kill for a directory entry: the process that the entry names, if
/// it names one, its owner is known and the owner is no system account.
pub open spec fn verdict(pid: Option<i32>, owner: Option<u32>) -> Option<i32> {
    match (pid, owner) {
        (Some(p), Some(uid)) => if uid >= FIRST_USER_UID {
            Some(p)
        } else {
            None
        },
        _ => None,
    }
}

/// The number that the name of a directory entry stands for, if it stands
/// for one.
pub uninterp spec fn parsed_pid(name: Seq<char>) -> Option<i32>;

/// `str::parse` for `i32`: the number that the text stands for, `None` where
/// it stands for none.
#[verifier::external_body]
fn parse_pid(name: &str) -> (pid: Option<i32>)
    ensures
        pid == parsed_pid(name@),
{
    name.parse::<i32>().ok()
}

/// The trigger to write to the kernel's memory pressure interface: all tasks
/// stalled for [`PRESSURE_STALL_US`] within [`PRESSURE_WINDOW_US`].
pub fn pressure_trigger() -> (trigger: &'static str)
    ensures
        trigger@ == "full 150000 1000000\0"@,
{
    "full 150000 1000000\0"
}

/// Reads the events that a poll on the memory pressure interface returned.
pub fn classify_event(revents: i16) -> (event: PressureEvent)
    ensures
        event == classified(revents),
{
    if (revents & POLLERR) != 0 {
        PressureEvent::SourceGone
    } else if (revents & POLLPRI) != 0 {
        PressureEvent::Pressure
    } else {
        PressureEvent::Unexpected
    }
}

/// The process that a directory entry of the process table names, if any.
pub fn process_of(entry_name: &str) -> (pid: Option<i32>)
    ensures
        pid == parsed_pid(entry_name@),
{
    parse_pid(entry_name)
}

/// Decides whom to kill for a directory entry, given the process that it
/// names and the user id of the entry's owner, where each is known.
pub fn kill_verdict(pid: Option<i32>, owner: Option<u32>) -> (target: Option<i32>)
    ensures
        target == verdict(pid, owner),
{
    match (pid, owner) {
        (Some(p), Some(uid)) => {
            if uid >= FIRST_USER_UID {
                Some(p)
            } else {
                None
            }
        },
        _ => None,
    }
}

} // verus!
