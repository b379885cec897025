//! The life of one listener.
//!
//! An instance starts, listens, drains and stops: `Starting`, `Listening`,
//! `Draining`, `Stopped`, in that order and never back. One that cannot bind
//! its port ends in `FailedStartup` instead. The program around the library
//! reports what happened as an [`InstanceEvent`]; [`step`] answers with the
//! next state and with what to do, an [`InstanceAction`].

use vstd::prelude::*;

verus! {

/// Where an instance is in its life.
#[derive(Clone, Copy, Debug, PartialEq, Eq, Structural)]
pub enum InstanceState {
    /// Not bound yet.
    Starting,
    /// Bound and accepting; `in_flight` requests are being served.
    Listening { in_flight: u64 },
    /// Closed to new requests; `in_flight` requests are still being served.
    Draining { in_flight: u64 },
    /// The socket is released. Final.
    Stopped,
    /// The port could not be bound. Final.
    FailedStartup,
}

/// What happened to an instance.
#[derive(Clone, Copy, Debug, PartialEq, Eq, Structural)]
pub enum InstanceEvent {
    /// The port is bound.
    BindSucceeded,
    /// The port could not be bound.
    BindFailed,
    /// A request came in.
    RequestArrived,
    /// A request that was being served is done.
    RequestFinished,
    /// The shutdown signal reached the instance.
    ShutdownRequested,
    /// The time granted to requests in flight at shutdown is over.
    DrainWindowElapsed,
}

/// What the instance is to do next.
#[derive(Clone, Copy, Debug, PartialEq, Eq, Structural)]
pub enum InstanceAction {
    /// Nothing.
    Nothing,
    /// Announce the listener and start accepting.
    Announce,
    /// Report the failed start to the supervisor.
    ReportFailure,
    /// Hand the request to the forwarder.
    Serve,
    /// Turn the request away.
    Refuse,
    /// Stop accepting and start the drain window.
    StopAccepting,
    /// Release the socket, if one is held, and return.
    Release,
    /// Abort the `aborted` requests still in flight, release the socket and
    /// return.
    AbortAndRelease { aborted: u64 },
}

/// The number of requests that an instance is serving.
pub open spec fn in_flight(state: InstanceState) -> nat {
    match state {
        InstanceState::Listening { in_flight } => in_flight as nat,
        InstanceState::Draining { in_flight } => in_flight as nat,
        _ => 0,
    }
}

/// Whether the state is one that occurs: an instance drains only while
/// something is in flight.
pub open spec fn well_formed(state: InstanceState) -> bool {
    state matches InstanceState::Draining { in_flight } ==> in_flight > 0
}

/// Whether the instance has come to its end.
pub open spec fn is_final(state: InstanceState) -> bool {
    state is Stopped || state is FailedStartup
}

/// Whether the instance holds its port.
pub open spec fn holds_port(state: InstanceState) -> bool {
    state is Listening || state is Draining
}

/// Whether the instance accepts requests now or may do so later.
pub open spec fn may_accept(state: InstanceState) -> bool {
    state is Starting || state is Listening
}

/// How far the instance has come: states are passed in this order only.
pub open spec fn progress(state: InstanceState) -> nat {
    match state {
        InstanceState::Starting => 0,
        InstanceState::Listening { .. } => 1,
        InstanceState::Draining { .. } => 2,
        InstanceState::Stopped => 3,
        InstanceState::FailedStartup => 3,
    }
}

/// The state that follows `state` on `event`.
///
/// A pair that the life of an instance does not know (a second bind, a
/// finished request where none is in flight) leaves the state as it is.
pub open spec fn next_state(state: InstanceState, event: InstanceEvent) -> InstanceState {
    match (state, event) {
        (InstanceState::Starting, InstanceEvent::BindSucceeded) => InstanceState::Listening {
            in_flight: 0,
        },
        (InstanceState::Starting, InstanceEvent::BindFailed) => InstanceState::FailedStartup,
        (InstanceState::Starting, InstanceEvent::ShutdownRequested) => InstanceState::Stopped,
        (InstanceState::Listening { in_flight }, InstanceEvent::RequestArrived) => if in_flight
            < u64::MAX {
            InstanceState::Listening { in_flight: (in_flight + 1) as u64 }
        } else {
            state
        },
        (InstanceState::Listening { in_flight }, InstanceEvent::RequestFinished) => if in_flight
            > 0 {
            InstanceState::Listening { in_flight: (in_flight - 1) as u64 }
        } else {
            state
        },
        (InstanceState::Listening { in_flight }, InstanceEvent::ShutdownRequested) => if in_flight
            > 0 {
            InstanceState::Draining { in_flight }
        } else {
            InstanceState::Stopped
        },
        (InstanceState::Draining { in_flight }, InstanceEvent::RequestFinished) => if in_flight
            > 1 {
            InstanceState::Draining { in_flight: (in_flight - 1) as u64 }
        } else {
            InstanceState::Stopped
        },
        (InstanceState::Draining { .. }, InstanceEvent::DrainWindowElapsed) => {
            InstanceState::Stopped
        },
        _ => state,
    }
}

/// What an instance in `state` is to do on `event`.
pub open spec fn action_for(state: InstanceState, event: InstanceEvent) -> InstanceAction {
    match (state, event) {
        (InstanceState::Starting, InstanceEvent::BindSucceeded) => InstanceAction::Announce,
        (InstanceState::Starting, InstanceEvent::BindFailed) => InstanceAction::ReportFailure,
        (InstanceState::Starting, InstanceEvent::ShutdownRequested) => InstanceAction::Release,
        (InstanceState::Listening { in_flight }, InstanceEvent::RequestArrived) => if in_flight
            < u64::MAX {
            InstanceAction::Serve
        } else {
            InstanceAction::Refuse
        },
        (InstanceState::Listening { in_flight }, InstanceEvent::ShutdownRequested) => if in_flight
            > 0 {
            InstanceAction::StopAccepting
        } else {
            InstanceAction::Release
        },
        (InstanceState::Draining { in_flight }, InstanceEvent::RequestFinished) => if in_flight
            > 1 {
            InstanceAction::Nothing
        } else {
            InstanceAction::Release
        },
        (
            InstanceState::Draining { in_flight },
            InstanceEvent::DrainWindowElapsed,
        ) => InstanceAction::AbortAndRelease { aborted: in_flight },
        (_, InstanceEvent::RequestArrived) => InstanceAction::Refuse,
        _ => InstanceAction::Nothing,
    }
}

/// The state after a run of events, taken in order.
pub open spec fn state_after(state: InstanceState, events: Seq<InstanceEvent>) -> InstanceState
    decreases events.len(),
{
    if events.len() == 0 {
        state
    } else {
        next_state(state_after(state, events.drop_last()), events.last())
    }
}

/// The state in which an instance starts.
pub fn initial_state() -> (state: InstanceState)
    ensures
        state == InstanceState::Starting,
{
    InstanceState::Starting
}

/// Takes one event: the next state, and what to do.
pub fn step(state: InstanceState, event: InstanceEvent) -> (r: (InstanceState, InstanceAction))
    ensures
        r.0 == next_state(state, event),
        r.1 == action_for(state, event),
{
    match state {
        InstanceState::Starting => match event {
            InstanceEvent::BindSucceeded => (
                InstanceState::Listening { in_flight: 0 },
                InstanceAction::Announce,
            ),
            InstanceEvent::BindFailed => (
                InstanceState::FailedStartup,
                InstanceAction::ReportFailure,
            ),
            InstanceEvent::ShutdownRequested => (InstanceState::Stopped, InstanceAction::Release),
            InstanceEvent::RequestArrived => (state, InstanceAction::Refuse),
            _ => (state, InstanceAction::Nothing),
        },
        InstanceState::Listening { in_flight } => match event {
            InstanceEvent::RequestArrived => match in_flight.checked_add(1) {
                Some(more) => (InstanceState::Listening { in_flight: more }, InstanceAction::Serve),
                None => (state, InstanceAction::Refuse),
            },
            InstanceEvent::RequestFinished => if in_flight > 0 {
                (InstanceState::Listening { in_flight: in_flight - 1 }, InstanceAction::Nothing)
            } else {
                (state, InstanceAction::Nothing)
            },
            InstanceEvent::ShutdownRequested => if in_flight > 0 {
                (InstanceState::Draining { in_flight }, InstanceAction::StopAccepting)
            } else {
                (InstanceState::Stopped, InstanceAction::Release)
            },
            _ => (state, InstanceAction::Nothing),
        },
        InstanceState::Draining { in_flight } => match event {
            InstanceEvent::RequestArrived => (state, InstanceAction::Refuse),
            InstanceEvent::RequestFinished => if in_flight > 1 {
                (InstanceState::Draining { in_flight: in_flight - 1 }, InstanceAction::Nothing)
            } else {
                (InstanceState::Stopped, InstanceAction::Release)
            },
            InstanceEvent::DrainWindowElapsed => (
                InstanceState::Stopped,
                InstanceAction::AbortAndRelease { aborted: in_flight },
            ),
            _ => (state, InstanceAction::Nothing),
        },
        _ => match event {
            InstanceEvent::RequestArrived => (state, InstanceAction::Refuse),
            _ => (state, InstanceAction::Nothing),
        },
    }
}

/// Whether the instance has come to its end.
pub fn has_finished(state: InstanceState) -> (b: bool)
    ensures
        b == is_final(state),
{
    match state {
        InstanceState::Stopped => true,
        InstanceState::FailedStartup => true,
        _ => false,
    }
}

/// Whether a request that comes in now is served.
pub fn is_accepting(state: InstanceState) -> (b: bool)
    ensures
        b == (action_for(state, InstanceEvent::RequestArrived) is Serve),
        b ==> state is Listening,
{
    match state {
        InstanceState::Listening { in_flight } => in_flight < u64::MAX,
        _ => false,
    }
}

/// No event makes a state that does not occur out of one that does.
pub proof fn lemma_step_keeps_well_formed(state: InstanceState, event: InstanceEvent)
    requires
        well_formed(state),
    ensures
        well_formed(next_state(state, event)),
{
}

/// An instance never goes back: every event leaves it where it is or takes
/// it further, and one that has ended stays as it ended.
pub proof fn lemma_no_way_back(state: InstanceState, event: InstanceEvent)
    ensures
        progress(state) <= progress(next_state(state, event)),
        is_final(state) ==> next_state(state, event) == state,
        is_final(state) ==> action_for(state, event) is Nothing || action_for(state, event)
            is Refuse,
{
}

/// A request is served only by an instance that listens, and turning a
/// request away or serving it never moves the instance to another phase.
pub proof fn lemma_only_listeners_serve(state: InstanceState, event: InstanceEvent)
    ensures
        action_for(state, event) is Serve ==> state is Listening && event is RequestArrived,
        action_for(state, event) is Announce ==> state is Starting && event is BindSucceeded,
        event is RequestArrived ==> progress(next_state(state, event)) == progress(state),
{
}

/// Shutdown closes an instance for good: once the signal has reached it,
/// whatever happens afterwards, in whatever order, it neither serves a
/// request nor starts to accept.
pub proof fn lemma_closed_after_shutdown(
    state: InstanceState,
    later: Seq<InstanceEvent>,
    event: InstanceEvent,
)
    ensures
        !may_accept(state_after(next_state(state, InstanceEvent::ShutdownRequested), later)),
        !(action_for(
            state_after(next_state(state, InstanceEvent::ShutdownRequested), later),
            event,
        ) is Serve),
        !(action_for(
            state_after(next_state(state, InstanceEvent::ShutdownRequested), later),
            event,
        ) is Announce),
    decreases later.len(),
{
    if later.len() > 0 {
        lemma_closed_after_shutdown(state, later.drop_last(), later.last());
    }
}

/// A second shutdown signal changes nothing and asks for nothing.
pub proof fn lemma_shutdown_is_idempotent(state: InstanceState)
    ensures
        next_state(
            next_state(state, InstanceEvent::ShutdownRequested),
            InstanceEvent::ShutdownRequested,
        ) == next_state(state, InstanceEvent::ShutdownRequested),
        action_for(
            next_state(state, InstanceEvent::ShutdownRequested),
            InstanceEvent::ShutdownRequested,
        ) is Nothing,
{
}

/// An instance stops only when its requests are accounted for: either none
/// is left in flight, or the drain window is over and every one still in
/// flight is named for abortion.
pub proof fn lemma_stop_accounts_for_requests(state: InstanceState, event: InstanceEvent)
    requires
        well_formed(state),
        !(state is Stopped),
        next_state(state, event) is Stopped,
    ensures
        event is DrainWindowElapsed ==> action_for(state, event) == (
            InstanceAction::AbortAndRelease { aborted: in_flight(state) as u64 }
        ),
        !(event is DrainWindowElapsed) ==> {
            &&& action_for(state, event) is Release
            &&& in_flight(state) == if event is RequestFinished {
                1nat
            } else {
                0nat
            }
        },
{
}

/// Serving a request leaves no trace: when it is done the instance is as it
/// was, so the next request meets the same instance and is served as well.
pub proof fn lemma_serving_leaves_no_trace(served: u64)
    requires
        served < u64::MAX,
    ensures
        ({
            let before = InstanceState::Listening { in_flight: served };
            let during = next_state(before, InstanceEvent::RequestArrived);
            let after = next_state(during, InstanceEvent::RequestFinished);
            &&& action_for(before, InstanceEvent::RequestArrived) is Serve
            &&& after == before
            &&& action_for(after, InstanceEvent::RequestArrived) is Serve
        }),
{
}

} // verus!
