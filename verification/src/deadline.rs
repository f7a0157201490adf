//! Real-time scheduling of the calling thread: the attributes that the kernel
//! is asked for.

use vstd::prelude::*;

verus! {

pub const SCHED_NORMAL: u32 = 0;

pub const SCHED_FIFO: u32 = 1;

pub const SCHED_RR: u32 = 2;

pub const SCHED_BATCH: u32 = 3;

pub const SCHED_IDLE: u32 = 5;

pub const SCHED_DEADLINE: u32 = 6;

/// Size in bytes of the attribute record that the kernel reads.
pub const SCHED_ATTR_SIZE: u32 = 48;

/// Runtime budget and period of a deadline-scheduled thread.
#[derive(Copy, Clone, Debug)]
pub struct DeadlineSchedulerParams {
    pub runtime: core::time::Duration,
    pub period: core::time::Duration,
}

/// The scheduling attributes of a thread, field by field as the kernel reads
/// them. Times are in nanoseconds.
#[derive(Copy, Clone, Debug, PartialEq, Eq, Structural)]
pub struct SchedAttr {
    pub size: u32,
    pub sched_policy: u32,
    pub sched_flags: u64,
    pub sched_nice: i32,
    pub sched_priority: u32,
    pub sched_runtime: u64,
    pub sched_deadline: u64,
    pub sched_period: u64,
}

/// The length of a `Duration` in nanoseconds.
pub uninterp spec fn duration_nanos(duration: core::time::Duration) -> nat;

/// `Duration::as_nanos`: the whole length of the duration, in nanoseconds.
#[verifier::external_body]
fn as_nanos(duration: core::time::Duration) -> (nanos: u128)
    ensures
        nanos == duration_nanos(duration),
{
    duration.as_nanos()
}

/// `Duration::from_millis`: the duration that lasts `millis` milliseconds.
#[verifier::external_body]
fn from_millis(millis: u64) -> (duration: core::time::Duration)
    ensures
        duration_nanos(duration) == millis * 1_000_000,
{
    core::time::Duration::from_millis(millis)
}

/// The low 64 bits of a count of nanoseconds: what an attribute field holds
/// of it.
pub open spec fn low_u64(nanos: nat) -> u64 {
    (nanos % 0x1_0000_0000_0000_0000) as u64
}

/// The attributes of a deadline-scheduled thread that may run for
/// `runtime` nanoseconds in each `period` nanoseconds. The deadline is the
/// period.
pub open spec fn deadline_attr(runtime: nat, period: nat) -> SchedAttr {
    SchedAttr {
        size: SCHED_ATTR_SIZE,
        sched_policy: SCHED_DEADLINE,
        sched_flags: 0,
        sched_nice: 0,
        sched_priority: 0,
        sched_runtime: low_u64(runtime),
        sched_deadline: low_u64(period),
        sched_period: low_u64(period),
    }
}

/// The attributes of a FIFO-scheduled thread of the given priority, which the
/// kernel reads as an unsigned number.
pub open spec fn fifo_attr(priority: i32) -> SchedAttr {
    SchedAttr {
        size: SCHED_ATTR_SIZE,
        sched_policy: SCHED_FIFO,
        sched_flags: 0,
        sched_nice: 0,
        sched_priority: (if priority >= 0 {
            priority as u32
        } else {
            (priority + 0x1_0000_0000) as u32
        }),
        sched_runtime: 0,
        sched_deadline: 0,
        sched_period: 0,
    }
}

fn truncate_nanos(nanos: u128) -> (low: u64)
    ensures
        low == low_u64(nanos as nat),
{
    let low = (nanos & 0xffff_ffff_ffff_ffff) as u64;
    assert(nanos & 0xffff_ffff_ffff_ffff == nanos % 0x1_0000_0000_0000_0000) by (bit_vector);
    low
}

impl DeadlineSchedulerParams {
    /// Parameters of `runtime_ms` milliseconds of runtime in each period of
    /// `period_ms` milliseconds.
    pub fn from_millis(runtime_ms: u64, period_ms: u64) -> (params: Self)
        ensures
            duration_nanos(params.runtime) == runtime_ms * 1_000_000,
            duration_nanos(params.period) == period_ms * 1_000_000,
    {
        DeadlineSchedulerParams { runtime: from_millis(runtime_ms), period: from_millis(period_ms) }
    }
}

impl SchedAttr {
    /// Deadline scheduling with a budget of `runtime` nanoseconds in each
    /// `period` nanoseconds.
    pub fn deadline_from_nanos(runtime: u128, period: u128) -> (attr: Self)
        ensures
            attr == deadline_attr(runtime as nat, period as nat),
    {
        let period = truncate_nanos(period);
        SchedAttr {
            size: SCHED_ATTR_SIZE,
            sched_policy: SCHED_DEADLINE,
            sched_flags: 0,
            sched_nice: 0,
            sched_priority: 0,
            sched_runtime: truncate_nanos(runtime),
            sched_deadline: period,
            sched_period: period,
        }
    }

    /// Deadline scheduling as `params` describes it.
    pub fn deadline(params: DeadlineSchedulerParams) -> (attr: Self)
        ensures
            attr == deadline_attr(duration_nanos(params.runtime), duration_nanos(params.period)),
    {
        Self::deadline_from_nanos(as_nanos(params.runtime), as_nanos(params.period))
    }

    /// FIFO scheduling at the given priority.
    pub fn fifo(priority: i32) -> (attr: Self)
        ensures
            attr == fifo_attr(priority),
    {
        let sched_priority = if priority >= 0 {
            priority as u32
        } else {
            (priority as i64 + 0x1_0000_0000) as u32
        };
        SchedAttr {
            size: SCHED_ATTR_SIZE,
            sched_policy: SCHED_FIFO,
            sched_flags: 0,
            sched_nice: 0,
            sched_priority,
            sched_runtime: 0,
            sched_deadline: 0,
            sched_period: 0,
        }
    }
}

} // verus!
