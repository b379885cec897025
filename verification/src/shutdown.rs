//! The wait for a termination signal.
//!
//! The process watches for an interrupt and, where the platform has it, for
//! a request to terminate. Whichever comes first resolves the wait, once;
//! what comes after is noticed and changes nothing.

use vstd::prelude::*;

verus! {

/// A termination signal.
#[derive(Clone, Copy, Debug, PartialEq, Eq, Structural)]
pub enum Signal {
    /// The interactive interrupt.
    Interrupt,
    /// The polite request to terminate.
    Terminate,
}

/// The wait for termination: open, or resolved by the first signal. Its
/// view is the signal that resolved it, if one has.
#[derive(Debug)]
pub struct ShutdownCoordinator {
    resolved_by: Option<Signal>,
}

impl View for ShutdownCoordinator {
    type V = Option<Signal>;

    closed spec fn view(&self) -> Option<Signal> {
        self.resolved_by
    }
}

/// What resolved the wait once `signal` was noticed: what had resolved it
/// before, or else `signal`.
pub open spec fn noticed(before: Option<Signal>, signal: Signal) -> Option<Signal> {
    match before {
        Some(_) => before,
        None => Some(signal),
    }
}

impl ShutdownCoordinator {
    /// A coordinator that has seen no signal.
    pub fn new() -> (c: ShutdownCoordinator)
        ensures
            c@ is None,
    {
        ShutdownCoordinator { resolved_by: None }
    }

    /// Whether the wait is resolved.
    pub fn is_resolved(&self) -> (b: bool)
        ensures
            b == self@ is Some,
    {
        self.resolved_by.is_some()
    }

    /// The signal that resolved the wait, if one has.
    pub fn resolved_by(&self) -> (signal: Option<Signal>)
        ensures
            signal == self@,
    {
        self.resolved_by
    }

    /// Notices a signal. Returns whether this signal resolved the wait, that
    /// is, whether the instances are to be told now.
    pub fn notice(&mut self, signal: Signal) -> (first: bool)
        ensures
            first == old(self)@ is None,
            final(self)@ == noticed(old(self)@, signal),
    {
        match self.resolved_by {
            Some(_) => false,
            None => {
                self.resolved_by = Some(signal);
                true
            },
        }
    }
}

/// The wait resolves exactly once: after the first signal it is resolved by
/// that signal, and no later signal changes it or resolves it again.
pub proof fn lemma_resolves_once(before: Option<Signal>, first: Signal, second: Signal)
    ensures
        noticed(before, first) is Some,
        before is None ==> noticed(before, first) == Some(first),
        noticed(noticed(before, first), second) == noticed(before, first),
{
}

} // verus!
