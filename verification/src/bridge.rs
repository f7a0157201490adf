//! Requests to the control loop and their completion: what a caller hands
//! over, what it waits for, and what it is told.

use vstd::prelude::*;
use vstd::string::*;

verus! {

/// How long a reset line is held asserted, in nanoseconds: one second.
pub const RESET_HOLD_NS: u64 = 1_000_000_000;

/// Request to hold the reset line of a pin asserted for some time.
#[derive(Debug)]
pub struct ResetReq {
    /// The name that the pin was configured under.
    pub pin: String,
    /// For how long to hold the line asserted, in nanoseconds.
    pub hold: u64,
}

/// An operation that the control loop is asked for.
#[derive(Debug)]
pub enum Req {
    Reset(ResetReq),
}

/// Why a reset was not started.
#[derive(Clone, Copy, Debug, PartialEq, Eq, Structural)]
pub enum ResetError {
    /// No reset line was configured under that name.
    UnknownPin,
    /// The line is being reset already.
    AlreadyResetting,
    /// The line could not be driven.
    WriteFailed,
    /// As many resets are pending as the control loop can track.
    HeapFull,
}

impl Req {
    /// The pin that the request is about.
    pub open spec fn pin(&self) -> Seq<char> {
        match self {
            Req::Reset(reset) => reset.pin@,
        }
    }

    /// For how long the request holds its line, in nanoseconds.
    pub open spec fn hold(&self) -> u64 {
        match self {
            Req::Reset(reset) => reset.hold,
        }
    }

    /// The request to reset `pin` for the usual hold of one second.
    pub fn reset(pin: &str) -> (req: Self)
        ensures
            req.pin() == pin@,
            req.hold() == RESET_HOLD_NS,
    {
        Req::Reset(ResetReq { pin: String::from_str(pin), hold: RESET_HOLD_NS })
    }
}

/// One call across the bridge: the request, and the word and flag by which
/// the control loop reports back.
///
/// The word starts at 0 and is set once, after the flag has its last value.
/// The caller owns the packet and reads the flag only once the word is set;
/// the control loop does not touch the packet after that.
#[derive(Debug)]
pub struct ReqPacket {
    v: Req,
    success: bool,
    completion: u32,
}

impl ReqPacket {
    /// The request that the packet carries.
    pub closed spec fn req(&self) -> Req {
        self.v
    }

    /// Whether the control loop is done with the packet.
    pub closed spec fn completed(&self) -> bool {
        self.completion != 0
    }

    /// What the control loop has recorded as the request's result so far.
    pub closed spec fn succeeded(&self) -> bool {
        self.success
    }

    /// A packet for `req` that awaits the control loop. Until told otherwise
    /// the request counts as failed.
    pub fn new(req: Req) -> (packet: Self)
        ensures
            packet.req() == req,
            !packet.completed(),
            !packet.succeeded(),
    {
        ReqPacket { v: req, success: false, completion: 0 }
    }

    /// The request to work on.
    pub fn request(&self) -> (req: &Req)
        ensures
            *req == self.req(),
    {
        &self.v
    }

    /// Records the result of the request.
    pub fn record(&mut self, success: bool)
        requires
            !old(self).completed(),
        ensures
            final(self).req() == old(self).req(),
            !final(self).completed(),
            final(self).succeeded() == success,
    {
        self.success = success;
    }

    /// Marks the packet as done. The recorded result stands from here on.
    pub fn complete(&mut self)
        ensures
            final(self).req() == old(self).req(),
            final(self).completed(),
            final(self).succeeded() == old(self).succeeded(),
    {
        self.completion = 1;
    }

    /// The result of the request, once the control loop is done with it;
    /// `None` while the caller has to wait.
    pub fn outcome(&self) -> (outcome: Option<bool>)
        ensures
            outcome == (if self.completed() {
                Some(self.succeeded())
            } else {
                None
            }),
    {
        if self.completion != 0 {
            Some(self.success)
        } else {
            None
        }
    }
}

/// A reset that was asked for and did not happen.
#[derive(Debug)]
pub struct ResetFailed {
    /// The pin that was to be reset.
    pub pin: String,
}

impl ResetFailed {
    /// The failure in words.
    pub fn message(&self) -> (text: String)
        ensures
            text@ == "failed to reset pin "@ + self.pin@,
    {
        String::from_str("failed to reset pin ").concat(self.pin.as_str())
    }
}

/// What the caller of a reset is told: success, or a failure that names the
/// pin. The cause of a failure is not passed on.
pub fn reset_outcome(pin: &str, success: bool) -> (outcome: Result<(), ResetFailed>)
    ensures
        outcome is Ok <==> success,
        outcome matches Err(failed) ==> failed.pin@ == pin@,
{
    if success {
        Ok(())
    } else {
        Err(ResetFailed { pin: String::from_str(pin) })
    }
}

} // verus!
