//! The real-time control loop of the GPIO lines, as a state machine.
//!
//! Each iteration of the loop runs three phases in this order: it toggles the
//! blink lines, it releases the reset lines whose hold has expired, and it
//! works on the requests that have arrived, for a bounded time. The state
//! machine decides; its owner reads the clock, drives the lines and receives
//! the requests.

use vstd::prelude::*;
use crate::bridge::{Req, ReqPacket, ResetError};
use crate::deadline::{DeadlineSchedulerParams, duration_nanos};
use crate::operator::Operator;
use crate::reset_heap::{
    after_expiry,
    due_lines,
    in_expiry_order,
    PushError,
    ResetHeap,
    RESET_CAPACITY,
};

verus! {

/// Runtime budget of the loop in each period, in milliseconds.
pub const LOOP_RUNTIME_MS: u64 = 5;

/// Period of the loop, in milliseconds.
pub const LOOP_PERIOD_MS: u64 = 100;

/// Time that one iteration may spend on requests, in nanoseconds.
pub const DRAIN_BUDGET_NS: u64 = 4_000_000;

/// The value that asserts a reset line.
pub const RESET_ASSERTED: u64 = 0;

/// The value that releases a reset line.
pub const RESET_RELEASED: u64 = 1;

/// The state of the control loop.
pub struct ControlView {
    /// The reset lines, by the name they were configured under.
    pub reset_lines: Map<Seq<char>, i32>,
    /// The blink lines.
    pub blink_lines: Seq<i32>,
    /// The lines that are held in reset, each with the instant at which its
    /// hold expires.
    pub pending: Map<i32, u64>,
    /// Number of iterations begun so far, modulo 2^64.
    pub iterations: u64,
}

/// The value of the blink lines in the iteration with the given number.
pub open spec fn blink_bit(iterations: u64) -> u64 {
    iterations % 2
}

/// The number of the iteration that follows the one with the given number.
pub open spec fn next_iteration(iterations: u64) -> u64 {
    if iterations == u64::MAX {
        0
    } else {
        (iterations + 1) as u64
    }
}

/// Whether a reset of `pin` may start: the line to assert, or why not.
pub open spec fn startable(view: ControlView, pin: Seq<char>) -> Result<i32, ResetError> {
    if !view.reset_lines.contains_key(pin) {
        Err(ResetError::UnknownPin)
    } else if view.pending.contains_key(view.reset_lines[pin]) {
        Err(ResetError::AlreadyResetting)
    } else {
        Ok(view.reset_lines[pin])
    }
}

/// Whether a reset of `pin` is taken on once its line was driven, with or
/// without success.
pub open spec fn committed(view: ControlView, pin: Seq<char>, asserted: bool) -> Result<
    (),
    ResetError,
> {
    match startable(view, pin) {
        Err(e) => Err(e),
        Ok(_) => if !asserted {
            Err(ResetError::WriteFailed)
        } else if view.pending.len() >= RESET_CAPACITY {
            Err(ResetError::HeapFull)
        } else {
            Ok(())
        },
    }
}

/// The state after a reset of `pin` that is to last until `expiry` was to be
/// taken on: the line is pending if it was, and nothing has changed if not.
pub open spec fn after_commit(
    view: ControlView,
    pin: Seq<char>,
    asserted: bool,
    expiry: u64,
) -> ControlView {
    if committed(view, pin, asserted) is Ok {
        ControlView { pending: view.pending.insert(view.reset_lines[pin], expiry), ..view }
    } else {
        view
    }
}

/// The state after the resets that are due at `now` were released.
pub open spec fn after_release(view: ControlView, now: u64) -> ControlView {
    ControlView { pending: after_expiry(view.pending, now), ..view }
}

/// The state after an iteration has begun at `now`: the iteration is counted
/// and the resets that are due are released.
pub open spec fn after_iteration(view: ControlView, now: u64) -> ControlView {
    ControlView { iterations: next_iteration(view.iterations), ..after_release(view, now) }
}

/// What the owner of the loop has to do at the start of an iteration.
#[derive(Debug)]
pub struct Iteration {
    /// The value to write to every blink line.
    pub blink: u64,
    /// The reset lines to release, the earliest expiry first.
    pub released: Vec<i32>,
}

/// The control loop: the acquired lines, the pending resets and the count of
/// iterations. All of it belongs to the one thread that runs the loop.
pub struct ControlLoop {
    operator: Operator,
    reset_deadlines: ResetHeap,
    loopcnt: u64,
}

impl View for ControlLoop {
    type V = ControlView;

    closed spec fn view(&self) -> ControlView {
        ControlView {
            reset_lines: self.operator@.reset_lines,
            blink_lines: self.operator@.blink_lines,
            pending: self.reset_deadlines@,
            iterations: self.loopcnt,
        }
    }
}

/// The scheduling that the loop runs under: a budget of 5 ms in each period
/// of 100 ms.
pub fn loop_schedule() -> (params: DeadlineSchedulerParams)
    ensures
        duration_nanos(params.runtime) == LOOP_RUNTIME_MS * 1_000_000,
        duration_nanos(params.period) == LOOP_PERIOD_MS * 1_000_000,
{
    DeadlineSchedulerParams::from_millis(LOOP_RUNTIME_MS, LOOP_PERIOD_MS)
}

/// The instant until which an iteration works on requests, when it starts
/// doing so at `start`.
pub fn drain_deadline(start: u64) -> (deadline: u64)
    requires
        start + DRAIN_BUDGET_NS <= u64::MAX,
    ensures
        deadline == start + DRAIN_BUDGET_NS,
{
    start + DRAIN_BUDGET_NS
}

/// Whether at `now` an iteration may still take up a request.
pub fn may_drain(now: u64, deadline: u64) -> (go_on: bool)
    ensures
        go_on == (now < deadline),
{
    now < deadline
}

impl ControlLoop {
    /// The lines are well formed, and so is the heap of pending resets.
    pub closed spec fn wf(&self) -> bool {
        self.operator.wf() && self.reset_deadlines.wf()
    }

    /// No more resets are pending than the loop can track.
    pub proof fn lemma_pending_bounded(&self)
        requires
            self.wf(),
        ensures
            self@.pending.dom().finite(),
            self@.pending.len() <= RESET_CAPACITY,
    {
        self.reset_deadlines.lemma_bounded();
    }

    /// A control loop over the lines of `operator`, before its first
    /// iteration: nothing is pending.
    pub fn new(operator: Operator) -> (control: Self)
        requires
            operator.wf(),
        ensures
            control.wf(),
            control@ == (ControlView {
                reset_lines: operator@.reset_lines,
                blink_lines: operator@.blink_lines,
                pending: Map::<i32, u64>::empty(),
                iterations: 0,
            }),
    {
        ControlLoop { operator, reset_deadlines: ResetHeap::new(), loopcnt: 0 }
    }

    /// The handles of the blink lines.
    pub fn blink_lines(&self) -> (lines: &Vec<i32>)
        ensures
            lines@ == self@.blink_lines,
    {
        self.operator.blink_lines()
    }

    /// Number of resets that are pending.
    pub fn pending_resets(&self) -> (n: usize)
        requires
            self.wf(),
        ensures
            n == self@.pending.len(),
            n <= RESET_CAPACITY,
    {
        self.reset_deadlines.len()
    }

    /// The instant at which the pending reset of `line` expires.
    pub fn reset_expiry(&self, line: i32) -> (expiry: Option<u64>)
        requires
            self.wf(),
        ensures
            expiry == (if self@.pending.contains_key(line) {
                Some(self@.pending[line])
            } else {
                None
            }),
    {
        self.reset_deadlines.expiry_of(line)
    }

    /// First phase: begins an iteration and returns the value to write to
    /// every blink line. The value differs from that of the iteration before.
    pub fn toggle_blink(&mut self) -> (bit: u64)
        requires
            old(self).wf(),
        ensures
            final(self).wf(),
            final(self)@ == (ControlView {
                iterations: next_iteration(old(self)@.iterations),
                ..old(self)@
            }),
            bit == blink_bit(final(self)@.iterations),
            bit != blink_bit(old(self)@.iterations),
    {
        self.loopcnt = self.loopcnt.wrapping_add(1);
        self.loopcnt % 2
    }

    /// Second phase: forgets every reset whose hold has expired at `now` and
    /// returns the lines to release, the earliest expiry first.
    pub fn expire_resets(&mut self, now: u64) -> (released: Vec<i32>)
        requires
            old(self).wf(),
        ensures
            final(self).wf(),
            final(self)@ == after_release(old(self)@, now),
            released@.to_set() == due_lines(old(self)@.pending, now),
            in_expiry_order(old(self)@.pending, released@),
    {
        self.reset_deadlines.drain_due(now)
    }

    /// The first two phases of the iteration that starts at `now`, in their
    /// order: the blink lines toggle, then the resets whose hold has expired
    /// are released.
    pub fn begin_iteration(&mut self, now: u64) -> (todo: Iteration)
        requires
            old(self).wf(),
        ensures
            final(self).wf(),
            final(self)@ == after_iteration(old(self)@, now),
            todo.blink == blink_bit(final(self)@.iterations),
            todo.blink != blink_bit(old(self)@.iterations),
            todo.released@.to_set() == due_lines(old(self)@.pending, now),
            in_expiry_order(old(self)@.pending, todo.released@),
    {
        let blink = self.toggle_blink();
        let released = self.expire_resets(now);
        Iteration { blink, released }
    }

    /// Third phase, first step: decides whether the reset that `req` asks for
    /// may start. `Ok` holds the line to assert; the result of driving it goes
    /// to [`ControlLoop::commit_reset`]. On `Err` there is nothing to drive, and the
    /// request has failed.
    pub fn begin_reset(&self, req: &Req) -> (line: Result<i32, ResetError>)
        requires
            self.wf(),
        ensures
            line == startable(self@, req.pin()),
    {
        match req {
            Req::Reset(reset) => {
                match self.operator.lookup(&reset.pin) {
                    None => Err(ResetError::UnknownPin),
                    Some(line) => {
                        if self.reset_deadlines.is_pending(line) {
                            Err(ResetError::AlreadyResetting)
                        } else {
                            Ok(line)
                        }
                    },
                }
            },
        }
    }

    /// Third phase, second step: takes on the reset that `req` asks for, after
    /// its line was driven at `now`; `asserted` tells whether that went well.
    /// On `Ok` the line is released by the first iteration that starts at or
    /// after `now` plus the hold of the request. On `Err` the request has
    /// failed and nothing has changed.
    pub fn commit_reset(&mut self, req: &Req, asserted: bool, now: u64) -> (outcome: Result<
        (),
        ResetError,
    >)
        requires
            old(self).wf(),
            now + req.hold() <= u64::MAX,
        ensures
            final(self).wf(),
            outcome == committed(old(self)@, req.pin(), asserted),
            final(self)@ == after_commit(old(self)@, req.pin(), asserted, (now + req.hold()) as u64),
    {
        let line = match self.begin_reset(req) {
            Err(e) => {
                return Err(e);
            },
            Ok(line) => line,
        };
        if !asserted {
            return Err(ResetError::WriteFailed);
        }
        let hold = match req {
            Req::Reset(reset) => reset.hold,
        };
        match self.reset_deadlines.insert(line, now + hold) {
            Ok(()) => Ok(()),
            Err(PushError::AlreadyPending) => Err(ResetError::AlreadyResetting),
            Err(PushError::Full) => Err(ResetError::HeapFull),
        }
    }

    /// Third phase, first step, on the packet of a call: decides whether the
    /// reset that the packet asks for may start. `Ok` holds the line to
    /// assert, and the packet stays open for [`ControlLoop::conclude`]. On
    /// `Err` the packet is completed as failed.
    pub fn accept(&self, packet: &mut ReqPacket) -> (line: Result<i32, ResetError>)
        requires
            self.wf(),
            !old(packet).completed(),
        ensures
            line == startable(self@, old(packet).req().pin()),
            final(packet).req() == old(packet).req(),
            final(packet).completed() == (line is Err),
            line is Err ==> !final(packet).succeeded(),
    {
        let line = self.begin_reset(packet.request());
        if line.is_err() {
            packet.record(false);
            packet.complete();
        }
        line
    }

    /// Third phase, second step, on the packet of a call: takes on the reset
    /// that the packet asks for, after its line was driven at `now`, and
    /// completes the packet with the result. Every packet that was received
    /// is completed, by this step or by the first.
    pub fn conclude(&mut self, packet: &mut ReqPacket, asserted: bool, now: u64)
        requires
            old(self).wf(),
            !old(packet).completed(),
            now + old(packet).req().hold() <= u64::MAX,
        ensures
            final(self).wf(),
            final(self)@ == after_commit(
                old(self)@,
                old(packet).req().pin(),
                asserted,
                (now + old(packet).req().hold()) as u64,
            ),
            final(packet).req() == old(packet).req(),
            final(packet).completed(),
            final(packet).succeeded() == (committed(old(self)@, old(packet).req().pin(), asserted)
                is Ok),
    {
        let outcome = self.commit_reset(packet.request(), asserted, now);
        packet.record(outcome.is_ok());
        packet.complete();
    }
}

/// A request for a reset: the pin, and the instant at which its hold would
/// expire.
pub struct PlannedReset {
    pub pin: Seq<char>,
    pub expiry: u64,
}

/// The state after each of `resets` was asked for in turn, every line driven
/// with success, and no iteration in between.
pub open spec fn after_resets(view: ControlView, resets: Seq<PlannedReset>) -> ControlView
    decreases resets.len(),
{
    if resets.len() == 0 {
        view
    } else {
        after_commit(
            after_resets(view, resets.drop_last()),
            resets.last().pin,
            true,
            resets.last().expiry,
        )
    }
}

/// The state after one iteration has begun at each of `times` in turn, with
/// no request in between.
pub open spec fn after_iterations(view: ControlView, times: Seq<u64>) -> ControlView
    decreases times.len(),
{
    if times.len() == 0 {
        view
    } else {
        after_iteration(after_iterations(view, times.drop_last()), times.last())
    }
}

/// The blink value of an iteration differs from that of the next, whatever
/// the iteration's number.
pub proof fn lemma_blink_alternates(iterations: u64)
    ensures
        blink_bit(next_iteration(iterations)) != blink_bit(iterations),
        blink_bit(iterations) == 0 || blink_bit(iterations) == 1,
{
}

/// A request for a pin whose line is held in reset fails, whether or not the
/// line is driven again, and leaves every pending reset as it is: the line
/// keeps the expiry it has.
pub proof fn lemma_pending_reset_rejects_another(
    view: ControlView,
    pin: Seq<char>,
    asserted: bool,
    expiry: u64,
)
    requires
        view.reset_lines.contains_key(pin),
        view.pending.contains_key(view.reset_lines[pin]),
    ensures
        startable(view, pin) == Err::<i32, ResetError>(ResetError::AlreadyResetting),
        committed(view, pin, asserted) == Err::<(), ResetError>(ResetError::AlreadyResetting),
        after_commit(view, pin, asserted, expiry) == view,
{
}

/// Once a reset of a pin is taken on, a second request for that pin fails
/// and does not alter the expiry of the first.
pub proof fn lemma_second_reset_fails(
    view: ControlView,
    pin: Seq<char>,
    expiry: u64,
    asserted: bool,
    later_expiry: u64,
)
    requires
        committed(view, pin, true) is Ok,
    ensures
        ({
            let held = after_commit(view, pin, true, expiry);
            &&& held.pending.contains_key(view.reset_lines[pin])
            &&& held.pending[view.reset_lines[pin]] == expiry
            &&& startable(held, pin) == Err::<i32, ResetError>(ResetError::AlreadyResetting)
            &&& committed(held, pin, asserted) == Err::<(), ResetError>(
                ResetError::AlreadyResetting,
            )
            &&& after_commit(held, pin, asserted, later_expiry) == held
        }),
{
}

/// A request for a pin that no reset line was configured under fails and
/// changes nothing; there is no line to drive for it.
pub proof fn lemma_unknown_pin_changes_nothing(
    view: ControlView,
    pin: Seq<char>,
    asserted: bool,
    expiry: u64,
)
    requires
        !view.reset_lines.contains_key(pin),
    ensures
        startable(view, pin) == Err::<i32, ResetError>(ResetError::UnknownPin),
        committed(view, pin, asserted) == Err::<(), ResetError>(ResetError::UnknownPin),
        after_commit(view, pin, asserted, expiry) == view,
{
}

/// A reset whose line is free and was driven with success is taken on exactly
/// when fewer resets are pending than the loop has room for, and then one
/// more is pending.
pub proof fn lemma_room_decides(view: ControlView, pin: Seq<char>, expiry: u64)
    requires
        view.pending.dom().finite(),
        startable(view, pin) is Ok,
    ensures
        committed(view, pin, true) is Ok <==> view.pending.len() < RESET_CAPACITY,
        committed(view, pin, true) is Ok ==> after_commit(view, pin, true, expiry).pending.len()
            == view.pending.len() + 1,
        !(committed(view, pin, true) is Ok) ==> committed(view, pin, true) == Err::<
            (),
            ResetError,
        >(ResetError::HeapFull) && after_commit(view, pin, true, expiry) == view,
{
}

/// With nothing pending at first, requests for pins with distinct lines, none
/// of which expires in between, succeed until the loop's room is used up and
/// fail from then on: the first [`RESET_CAPACITY`] are taken on, no other.
pub proof fn lemma_capacity_in_a_row(view: ControlView, resets: Seq<PlannedReset>, k: int)
    requires
        view.pending == Map::<i32, u64>::empty(),
        0 <= k < resets.len(),
        forall|i: int|
            0 <= i < resets.len() ==> view.reset_lines.contains_key(#[trigger] resets[i].pin),
        forall|i: int, j: int|
            0 <= i < j < resets.len() ==> view.reset_lines[#[trigger] resets[i].pin]
                != view.reset_lines[#[trigger] resets[j].pin],
    ensures
        committed(after_resets(view, resets.take(k)), resets[k].pin, true) is Ok <==> k
            < RESET_CAPACITY,
        k >= RESET_CAPACITY ==> committed(after_resets(view, resets.take(k)), resets[k].pin, true)
            == Err::<(), ResetError>(ResetError::HeapFull),
{
    lemma_resets_in_a_row(view, resets.take(k));
    let state = after_resets(view, resets.take(k));
    let line = view.reset_lines[resets[k].pin];
    if state.pending.contains_key(line) {
        let i = choose|i: int|
            0 <= i < resets.take(k).len() && view.reset_lines[#[trigger] resets.take(k)[i].pin]
                == line;
        assert(resets.take(k)[i] == resets[i]);
    }
}

/// What is pending after requests for pins with distinct lines in a row, with
/// nothing pending at first: the lines of the first [`RESET_CAPACITY`]
/// requests.
proof fn lemma_resets_in_a_row(view: ControlView, resets: Seq<PlannedReset>)
    requires
        view.pending == Map::<i32, u64>::empty(),
        forall|i: int|
            0 <= i < resets.len() ==> view.reset_lines.contains_key(#[trigger] resets[i].pin),
        forall|i: int, j: int|
            0 <= i < j < resets.len() ==> view.reset_lines[#[trigger] resets[i].pin]
                != view.reset_lines[#[trigger] resets[j].pin],
    ensures
        ({
            let state = after_resets(view, resets);
            &&& state.reset_lines == view.reset_lines
            &&& state.pending.dom().finite()
            &&& state.pending.len() == (if resets.len() <= RESET_CAPACITY {
                resets.len()
            } else {
                RESET_CAPACITY as nat
            })
            &&& forall|line: i32| #[trigger]
                state.pending.contains_key(line) ==> exists|i: int|
                    0 <= i < resets.len() && view.reset_lines[#[trigger] resets[i].pin] == line
        }),
    decreases resets.len(),
{
    if resets.len() > 0 {
        let front = resets.drop_last();
        assert forall|i: int| 0 <= i < front.len() implies view.reset_lines.contains_key(
            #[trigger] front[i].pin,
        ) by {
            assert(front[i] == resets[i]);
        }
        assert forall|i: int, j: int| 0 <= i < j < front.len() implies view.reset_lines[#[trigger] front[i].pin]
            != view.reset_lines[#[trigger] front[j].pin] by {
            assert(front[i] == resets[i] && front[j] == resets[j]);
        }
        lemma_resets_in_a_row(view, front);
        let before = after_resets(view, front);
        let last = resets.last();
        let line = view.reset_lines[last.pin];
        if before.pending.contains_key(line) {
            let i = choose|i: int|
                0 <= i < front.len() && view.reset_lines[#[trigger] front[i].pin] == line;
            assert(front[i] == resets[i]);
        }
        let state = after_resets(view, resets);
        assert forall|l: i32| #[trigger] state.pending.contains_key(l) implies exists|i: int|
            0 <= i < resets.len() && view.reset_lines[#[trigger] resets[i].pin] == l by {
            if before.pending.contains_key(l) {
                let i = choose|i: int|
                    0 <= i < front.len() && view.reset_lines[#[trigger] front[i].pin] == l;
                assert(front[i] == resets[i]);
            } else {
                assert(l == line);
                assert(resets[resets.len() - 1] == last);
            }
        }
    }
}

/// A pending reset outlasts every iteration that starts before its expiry,
/// with its expiry unchanged, and its line is not among those to release.
pub proof fn lemma_reset_held_until_expiry(view: ControlView, line: i32, now: u64)
    requires
        view.pending.contains_key(line),
        now < view.pending[line],
    ensures
        !due_lines(view.pending, now).contains(line),
        after_release(view, now).pending.contains_key(line),
        after_release(view, now).pending[line] == view.pending[line],
{
}

/// An iteration that starts at or after the expiry of a pending reset
/// releases its line and forgets the reset.
pub proof fn lemma_reset_released_at_expiry(view: ControlView, line: i32, now: u64)
    requires
        view.pending.contains_key(line),
        now >= view.pending[line],
    ensures
        due_lines(view.pending, now).contains(line),
        !after_release(view, now).pending.contains_key(line),
{
}

/// An iteration releases the lines whose hold has expired and no other: what
/// expires later stays pending as it is, and nothing becomes pending.
pub proof fn lemma_release_is_exact(view: ControlView, now: u64, line: i32)
    ensures
        after_release(view, now).pending.contains_key(line) <==> view.pending.contains_key(line)
            && view.pending[line] > now,
        after_release(view, now).pending.contains_key(line) ==> after_release(view, now).pending[line]
            == view.pending[line],
        due_lines(view.pending, now).contains(line) <==> view.pending.contains_key(line)
            && view.pending[line] <= now,
{
}

/// A reset that is taken on at `start` with a hold of `hold` is released by
/// the first iteration that starts at or after `start + hold`, and by none
/// before: through all of `times`, which are earlier, the line stays pending
/// and is never among the lines to release, so that another request for the
/// pin fails; an iteration at `now`, which is not earlier, releases the line.
pub proof fn lemma_released_by_first_due_iteration(
    view: ControlView,
    pin: Seq<char>,
    start: u64,
    hold: u64,
    times: Seq<u64>,
    now: u64,
)
    requires
        committed(view, pin, true) is Ok,
        start + hold <= u64::MAX,
        forall|i: int| 0 <= i < times.len() ==> #[trigger] times[i] < start + hold,
        now >= start + hold,
    ensures
        ({
            let line = view.reset_lines[pin];
            let held = after_commit(view, pin, true, (start + hold) as u64);
            let last = after_iterations(held, times);
            &&& forall|i: int|
                0 <= i < times.len() ==> !due_lines(
                    after_iterations(held, #[trigger] times.take(i)).pending,
                    times[i],
                ).contains(line)
            &&& last.pending.contains_key(line)
            &&& last.pending[line] == start + hold
            &&& startable(last, pin) == Err::<i32, ResetError>(ResetError::AlreadyResetting)
            &&& due_lines(last.pending, now).contains(line)
            &&& !after_release(last, now).pending.contains_key(line)
        }),
{
    let line = view.reset_lines[pin];
    let held = after_commit(view, pin, true, (start + hold) as u64);
    assert forall|i: int| 0 <= i <= times.len() implies ({
        let state = after_iterations(held, #[trigger] times.take(i));
        state.pending.contains_key(line) && state.pending[line] == start + hold
            && state.reset_lines == view.reset_lines
    }) by {
        lemma_held_through(held, line, times.take(i));
    }
}

/// A pending reset is still pending, with its expiry unchanged, after any
/// iterations that all start before that expiry; iterations leave the table
/// of reset lines alone.
proof fn lemma_held_through(view: ControlView, line: i32, times: Seq<u64>)
    requires
        view.pending.contains_key(line),
        forall|i: int| 0 <= i < times.len() ==> #[trigger] times[i] < view.pending[line],
    ensures
        after_iterations(view, times).pending.contains_key(line),
        after_iterations(view, times).pending[line] == view.pending[line],
        after_iterations(view, times).reset_lines == view.reset_lines,
    decreases times.len(),
{
    if times.len() > 0 {
        let front = times.drop_last();
        assert forall|i: int| 0 <= i < front.len() implies #[trigger] front[i]
            < view.pending[line] by {
            assert(front[i] == times[i]);
        }
        lemma_held_through(view, line, front);
    }
}

} // verus!
