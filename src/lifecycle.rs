use vstd::prelude::*;

verus! {

/// Where a connection handle stands. A handle comes into being `Connected`
/// (a failed connect creates none), becomes `Listening` once its worker is
/// spawned, and ends `Closed`.
#[derive(PartialEq, Eq, Structural, Clone, Copy, Debug)]
pub enum Phase {
    Connected,
    Listening,
    Closed,
}

/// Why `start` was refused.
#[derive(PartialEq, Eq, Structural, Clone, Copy, Debug)]
pub enum StartError {
    /// A worker was already spawned for this handle.
    AlreadyStarted,
    /// The handle was closed.
    Closed,
}

/// A worker exists exactly while the handle is listening: at most one per handle.
pub open spec fn worker_active(p: Phase) -> bool {
    p == Phase::Listening
}

/// The lifecycle state machine of one connection handle.
pub struct Lifecycle {
    phase: Phase,
}

impl View for Lifecycle {
    type V = Phase;

    closed spec fn view(&self) -> Phase {
        self.phase
    }
}

impl Lifecycle {
    /// The state of a handle whose connect has just succeeded: no worker yet.
    pub fn new() -> (r: Lifecycle)
        ensures
            r@ == Phase::Connected,
            !worker_active(r@),
    {
        Lifecycle { phase: Phase::Connected }
    }

    pub fn phase(&self) -> (r: Phase)
        ensures
            r == self@,
    {
        self.phase
    }

    /// Whether a worker is running and has not yet been reclaimed.
    pub fn has_worker(&self) -> (r: bool)
        ensures
            r == worker_active(self@),
    {
        self.phase == Phase::Listening
    }

    /// Permits spawning the worker, once per handle and only from `Connected`.
    /// On `Ok` the caller spawns the worker; on an error nothing changes.
    pub fn start(&mut self) -> (r: Result<(), StartError>)
        ensures
            old(self)@ == Phase::Connected ==> r is Ok && final(self)@ == Phase::Listening,
            old(self)@ == Phase::Listening ==> r == Err::<(), StartError>(StartError::AlreadyStarted)
                && final(self)@ == old(self)@,
            old(self)@ == Phase::Closed ==> r == Err::<(), StartError>(StartError::Closed)
                && final(self)@ == old(self)@,
    {
        match self.phase {
            Phase::Connected => {
                self.phase = Phase::Listening;
                Ok(())
            },
            Phase::Listening => Err(StartError::AlreadyStarted),
            Phase::Closed => Err(StartError::Closed),
        }
    }

    /// Whether an interrupt must shut down both directions of the socket:
    /// exactly when a worker is active. Otherwise the interrupt is a no-op
    /// that succeeds. The phase is not changed either way.
    pub fn interrupt(&self) -> (shut_down: bool)
        ensures
            shut_down == worker_active(self@),
    {
        self.has_worker()
    }

    /// Teardown: the handle becomes `Closed`, and the result says whether a
    /// worker exists that the caller must join (after interrupting it) before
    /// teardown completes. No worker is left behind.
    pub fn close(&mut self) -> (join: bool)
        ensures
            join == worker_active(old(self)@),
            final(self)@ == Phase::Closed,
            !worker_active(final(self)@),
    {
        let join = self.has_worker();
        self.phase = Phase::Closed;
        join
    }
}

} // verus!
