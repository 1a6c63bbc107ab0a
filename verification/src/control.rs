//! The run-stop signal: a flag the host raises to ask the runtime to stop
//! at its next check.
use vstd::prelude::*;

verus! {

/// Whether a stop has been requested.
#[derive(Debug, Clone, Copy)]
pub struct StopSignal {
    pub requested: bool,
}

impl StopSignal {
    /// No stop requested.
    pub fn new() -> (s: Self)
        ensures
            !s.requested,
    {
        StopSignal { requested: false }
    }
}

/// Asks the runtime to stop.
pub fn request_stop(signal: &mut StopSignal)
    ensures
        final(signal).requested,
{
    signal.requested = true;
}

/// Withdraws a stop request.
pub fn clear_stop_request(signal: &mut StopSignal)
    ensures
        !final(signal).requested,
{
    signal.requested = false;
}

/// Whether a stop has been requested.
pub fn is_stop_requested(signal: &StopSignal) -> (b: bool)
    ensures
        b == signal.requested,
{
    signal.requested
}

} // verus!
