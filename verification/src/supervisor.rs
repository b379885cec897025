//! Many instances, one supervisor.
//!
//! The supervisor keeps one record per mapping, all started before any is
//! waited for, and is told what happens to each. Instances share nothing but
//! the shutdown signal: an event changes the instance it belongs to and no
//! other. The first termination signal reaches every instance at once; the
//! supervisor is done when every instance has stopped or failed to start.
//!
//! A port is held by one instance at a time. A bind that is reported for a
//! port which another instance of the set holds is taken as failed.

use vstd::prelude::*;
use crate::instance::{
    action_for, holds_port, is_final, may_accept, next_state, step, well_formed, InstanceAction,
    InstanceEvent, InstanceState,
};
use crate::mapping::ProxyMapping;
use crate::shutdown::{ShutdownCoordinator, Signal};

verus! {

/// One instance as the supervisor knows it.
#[derive(Clone, Copy, Debug, PartialEq, Eq, Structural)]
pub struct InstanceRecord {
    pub port: u16,
    pub state: InstanceState,
}

/// How the supervision ended.
#[derive(Clone, Copy, Debug, PartialEq, Eq, Structural)]
pub enum ExitOutcome {
    /// Every instance stopped.
    AllStopped,
    /// At least one instance failed to start; `first` is the first of them
    /// in the order of the mappings.
    StartupFailed { first: usize },
}

/// The supervisor of a set of instances.
pub struct Supervisor {
    instances: Vec<InstanceRecord>,
    coordinator: ShutdownCoordinator,
}

/// What a [`Supervisor`] holds, as mathematical values.
pub struct SupervisorView {
    pub instances: Seq<InstanceRecord>,
    /// The termination signal that has come, if one has.
    pub resolved_by: Option<Signal>,
}

impl View for Supervisor {
    type V = SupervisorView;

    closed spec fn view(&self) -> SupervisorView {
        SupervisorView { instances: self.instances@, resolved_by: self.coordinator@ }
    }
}

/// The records of instances that have just been started, one per mapping.
pub open spec fn started(mappings: Seq<ProxyMapping>) -> Seq<InstanceRecord> {
    Seq::new(
        mappings.len(),
        |i: int| InstanceRecord { port: mappings[i]@.port, state: InstanceState::Starting },
    )
}

/// Whether another instance holds the port that instance `idx` is to bind.
pub open spec fn port_taken(instances: Seq<InstanceRecord>, idx: int) -> bool {
    exists|j: int|
        0 <= j < instances.len() && j != idx && holds_port(#[trigger] instances[j].state)
            && instances[j].port == instances[idx].port
}

/// The event as the supervisor takes it: a bind on a port that another
/// instance holds counts as failed.
pub open spec fn taken_as(
    instances: Seq<InstanceRecord>,
    idx: int,
    event: InstanceEvent,
) -> InstanceEvent {
    if event is BindSucceeded && port_taken(instances, idx) {
        InstanceEvent::BindFailed
    } else {
        event
    }
}

/// The record of an instance after `event`.
pub open spec fn record_after(record: InstanceRecord, event: InstanceEvent) -> InstanceRecord {
    InstanceRecord { port: record.port, state: next_state(record.state, event) }
}

impl SupervisorView {
    /// What holds of every supervisor: each instance is in a state that
    /// occurs, no port is held twice, and once the termination signal has
    /// come no instance accepts or will accept.
    pub open spec fn valid(self) -> bool {
        &&& forall|i: int|
            0 <= i < self.instances.len() ==> well_formed(#[trigger] self.instances[i].state)
        &&& forall|i: int, j: int|
            0 <= i < j < self.instances.len() && holds_port(#[trigger] self.instances[i].state)
                && holds_port(#[trigger] self.instances[j].state) ==> self.instances[i].port
                != self.instances[j].port
        &&& self.resolved_by is Some ==> forall|i: int|
            0 <= i < self.instances.len() ==> !may_accept(#[trigger] self.instances[i].state)
    }

    /// The supervisor after `event` was delivered to instance `idx`. Only
    /// that instance changes; an index that names no instance changes
    /// nothing.
    pub open spec fn delivered(self, idx: int, event: InstanceEvent) -> SupervisorView {
        if 0 <= idx < self.instances.len() {
            SupervisorView {
                instances: self.instances.update(
                    idx,
                    record_after(self.instances[idx], taken_as(self.instances, idx, event)),
                ),
                resolved_by: self.resolved_by,
            }
        } else {
            self
        }
    }

    /// What instance `idx` is to do on `event`, if there is such an
    /// instance.
    pub open spec fn action_on(self, idx: int, event: InstanceEvent) -> Option<InstanceAction> {
        if 0 <= idx < self.instances.len() {
            Some(action_for(self.instances[idx].state, taken_as(self.instances, idx, event)))
        } else {
            None
        }
    }

    /// The supervisor after a termination signal. The first signal reaches
    /// every instance; a later one changes nothing.
    pub open spec fn signalled(self, signal: Signal) -> SupervisorView {
        if self.resolved_by is Some {
            self
        } else {
            SupervisorView {
                instances: Seq::new(
                    self.instances.len(),
                    |i: int| record_after(self.instances[i], InstanceEvent::ShutdownRequested),
                ),
                resolved_by: Some(signal),
            }
        }
    }

    /// What each instance is to do on a termination signal: its part of
    /// the broadcast if the signal is the first, nothing to anyone if not.
    pub open spec fn broadcast(self) -> Option<Seq<InstanceAction>> {
        if self.resolved_by is Some {
            None
        } else {
            Some(
                Seq::new(
                    self.instances.len(),
                    |i: int| action_for(self.instances[i].state, InstanceEvent::ShutdownRequested),
                ),
            )
        }
    }

    /// Whether every instance has stopped or failed to start.
    pub open spec fn all_finished(self) -> bool {
        forall|i: int|
            0 <= i < self.instances.len() ==> is_final(#[trigger] self.instances[i].state)
    }

    /// Whether `idx` is the first instance that failed to start.
    pub open spec fn first_failure_at(self, idx: int) -> bool {
        &&& 0 <= idx < self.instances.len()
        &&& self.instances[idx].state is FailedStartup
        &&& forall|j: int| 0 <= j < idx ==> !(#[trigger] self.instances[j].state is FailedStartup)
    }

    /// Whether no instance failed to start.
    pub open spec fn no_failure(self) -> bool {
        forall|j: int|
            0 <= j < self.instances.len() ==> !(#[trigger] self.instances[j].state is FailedStartup)
    }

    /// The supervisor after a run of deliveries, each an instance and an
    /// event, taken in order.
    pub open spec fn after(self, deliveries: Seq<(int, InstanceEvent)>) -> SupervisorView
        decreases deliveries.len(),
    {
        if deliveries.len() == 0 {
            self
        } else {
            self.after(deliveries.drop_last()).delivered(deliveries.last().0, deliveries.last().1)
        }
    }
}

impl Supervisor {
    /// Starts the supervision of one instance per mapping, in the order of
    /// the mappings. No signal has come yet.
    pub fn new(mappings: &Vec<ProxyMapping>) -> (s: Supervisor)
        ensures
            s@.instances == started(mappings@),
            s@.resolved_by is None,
            s@.valid(),
    {
        let mut instances: Vec<InstanceRecord> = Vec::new();
        let mut i: usize = 0;
        while i < mappings.len()
            invariant
                i <= mappings@.len(),
                instances@ == started(mappings@).take(i as int),
            decreases mappings@.len() - i,
        {
            instances.push(
                InstanceRecord { port: mappings[i].port(), state: InstanceState::Starting },
            );
            assert(instances@ =~= started(mappings@).take(i + 1));
            i += 1;
        }
        assert(instances@ =~= started(mappings@));
        Supervisor { instances, coordinator: ShutdownCoordinator::new() }
    }

    /// The number of instances.
    pub fn len(&self) -> (n: usize)
        ensures
            n == self@.instances.len(),
    {
        self.instances.len()
    }

    /// The record of instance `idx`, if there is such an instance.
    pub fn record(&self, idx: usize) -> (r: Option<InstanceRecord>)
        ensures
            idx < self@.instances.len() ==> r == Some(self@.instances[idx as int]),
            idx >= self@.instances.len() ==> r is None,
    {
        if idx < self.instances.len() {
            Some(self.instances[idx])
        } else {
            None
        }
    }

    /// Whether a termination signal has come.
    pub fn is_shutting_down(&self) -> (b: bool)
        ensures
            b == self@.resolved_by is Some,
    {
        self.coordinator.is_resolved()
    }

    /// Whether another instance holds the port that instance `idx` is to bind.
    fn port_is_taken(&self, idx: usize) -> (b: bool)
        requires
            idx < self@.instances.len(),
        ensures
            b == port_taken(self@.instances, idx as int),
    {
        let port = self.instances[idx].port;
        let mut j: usize = 0;
        while j < self.instances.len()
            invariant
                j <= self.instances@.len(),
                idx < self.instances@.len(),
                port == self.instances@[idx as int].port,
                forall|k: int|
                    0 <= k < j && k != idx && holds_port(#[trigger] self.instances@[k].state)
                        ==> self.instances@[k].port != port,
            decreases self.instances@.len() - j,
        {
            if j != idx && self.instances[j].port == port {
                match self.instances[j].state {
                    InstanceState::Listening { .. } => {
                        return true;
                    },
                    InstanceState::Draining { .. } => {
                        return true;
                    },
                    _ => {},
                }
            }
            j += 1;
        }
        false
    }

    /// Delivers `event` to instance `idx` and returns what that instance is
    /// to do. No other instance is touched. Where `idx` names no instance,
    /// nothing changes and nothing is returned.
    pub fn deliver(&mut self, idx: usize, event: InstanceEvent) -> (r: Option<InstanceAction>)
        ensures
            final(self)@ == old(self)@.delivered(idx as int, event),
            r == old(self)@.action_on(idx as int, event),
            old(self)@.valid() ==> final(self)@.valid(),
    {
        if idx >= self.instances.len() {
            return None;
        }
        let record = self.instances[idx];
        let taken = match event {
            InstanceEvent::BindSucceeded => if self.port_is_taken(idx) {
                InstanceEvent::BindFailed
            } else {
                event
            },
            _ => event,
        };
        let (state, action) = step(record.state, taken);
        self.instances.set(idx, InstanceRecord { port: record.port, state });
        proof {
            assert(self@.instances =~= old(self)@.delivered(idx as int, event).instances);
            if old(self)@.valid() {
                lemma_delivery_keeps_valid(old(self)@, idx as int, event);
            }
        }
        Some(action)
    }

    /// Takes a termination signal. The first one is passed to every
    /// instance at once, and what each is to do is returned, in the order of
    /// the instances. A later one changes nothing and returns nothing.
    pub fn signal(&mut self, signal: Signal) -> (r: Option<Vec<InstanceAction>>)
        ensures
            final(self)@ == old(self)@.signalled(signal),
            match r {
                Some(actions) => old(self)@.broadcast() == Some(actions@),
                None => old(self)@.broadcast() is None,
            },
            old(self)@.valid() ==> final(self)@.valid(),
    {
        if !self.coordinator.notice(signal) {
            return None;
        }
        let ghost before = self.instances@;
        let mut actions: Vec<InstanceAction> = Vec::new();
        let mut i: usize = 0;
        while i < self.instances.len()
            invariant
                i <= before.len(),
                self.instances@.len() == before.len(),
                self.coordinator@ == Some(signal),
                actions@.len() == i,
                forall|k: int|
                    0 <= k < i ==> #[trigger] self.instances@[k] == record_after(
                        before[k],
                        InstanceEvent::ShutdownRequested,
                    ),
                forall|k: int| i <= k < before.len() ==> #[trigger] self.instances@[k] == before[k],
                forall|k: int|
                    0 <= k < i ==> #[trigger] actions@[k] == action_for(
                        before[k].state,
                        InstanceEvent::ShutdownRequested,
                    ),
            decreases before.len() - i,
        {
            let record = self.instances[i];
            let (state, action) = step(record.state, InstanceEvent::ShutdownRequested);
            self.instances.set(i, InstanceRecord { port: record.port, state });
            actions.push(action);
            i += 1;
        }
        proof {
            assert(self@.instances =~= old(self)@.signalled(signal).instances);
            assert(actions@ =~= old(self)@.broadcast()->Some_0);
            if old(self)@.valid() {
                lemma_signal_keeps_valid(old(self)@, signal);
            }
        }
        Some(actions)
    }

    /// Whether every instance has stopped or failed to start.
    pub fn all_finished(&self) -> (b: bool)
        ensures
            b == self@.all_finished(),
    {
        let mut i: usize = 0;
        while i < self.instances.len()
            invariant
                i <= self.instances@.len(),
                forall|k: int| 0 <= k < i ==> is_final(#[trigger] self.instances@[k].state),
            decreases self.instances@.len() - i,
        {
            match self.instances[i].state {
                InstanceState::Stopped => {},
                InstanceState::FailedStartup => {},
                _ => {
                    assert(!is_final(self@.instances[i as int].state));
                    return false;
                },
            }
            i += 1;
        }
        true
    }

    /// The first instance that failed to start, if any did.
    pub fn first_failure(&self) -> (r: Option<usize>)
        ensures
            match r {
                Some(idx) => self@.first_failure_at(idx as int),
                None => self@.no_failure(),
            },
    {
        let mut i: usize = 0;
        while i < self.instances.len()
            invariant
                i <= self.instances@.len(),
                forall|k: int|
                    0 <= k < i ==> !(#[trigger] self.instances@[k].state is FailedStartup),
            decreases self.instances@.len() - i,
        {
            match self.instances[i].state {
                InstanceState::FailedStartup => {
                    return Some(i);
                },
                _ => {},
            }
            i += 1;
        }
        None
    }

    /// How the supervision ended, once it has: nothing while an instance is
    /// still on its way, then `AllStopped`, or `StartupFailed` with the first
    /// instance that failed.
    pub fn outcome(&self) -> (r: Option<ExitOutcome>)
        ensures
            r is Some <==> self@.all_finished(),
            r == Some(ExitOutcome::AllStopped) ==> self@.no_failure(),
            r matches Some(ExitOutcome::StartupFailed { first }) ==> self@.first_failure_at(
                first as int,
            ),
    {
        if !self.all_finished() {
            return None;
        }
        match self.first_failure() {
            Some(first) => Some(ExitOutcome::StartupFailed { first }),
            None => Some(ExitOutcome::AllStopped),
        }
    }
}

/// A delivery keeps what holds of every supervisor.
pub proof fn lemma_delivery_keeps_valid(before: SupervisorView, idx: int, event: InstanceEvent)
    requires
        before.valid(),
    ensures
        before.delivered(idx, event).valid(),
{
    let after = before.delivered(idx, event);
    if 0 <= idx < before.instances.len() {
        let taken = taken_as(before.instances, idx, event);
        assert(well_formed(before.instances[idx].state));
        assert forall|i: int, j: int|
            0 <= i < j < after.instances.len() && holds_port(#[trigger] after.instances[i].state)
                && holds_port(#[trigger] after.instances[j].state) implies after.instances[i].port
            != after.instances[j].port by {
            let other = if i == idx {
                j
            } else {
                i
            };
            if (i == idx || j == idx) && !holds_port(before.instances[idx].state) {
                assert(taken is BindSucceeded);
                assert(!port_taken(before.instances, idx));
                assert(holds_port(before.instances[other].state));
            } else {
                assert(holds_port(before.instances[i].state));
                assert(holds_port(before.instances[j].state));
            }
        }
        assert forall|i: int| 0 <= i < after.instances.len() implies well_formed(
            #[trigger] after.instances[i].state,
        ) by {
            assert(well_formed(before.instances[i].state));
        }
        if before.resolved_by is Some {
            assert forall|i: int| 0 <= i < after.instances.len() implies !may_accept(
                #[trigger] after.instances[i].state,
            ) by {
                assert(!may_accept(before.instances[i].state));
            }
        }
    }
}

/// A termination signal keeps what holds of every supervisor.
pub proof fn lemma_signal_keeps_valid(before: SupervisorView, signal: Signal)
    requires
        before.valid(),
    ensures
        before.signalled(signal).valid(),
{
    let after = before.signalled(signal);
    if before.resolved_by is None {
        assert forall|i: int| 0 <= i < after.instances.len() implies well_formed(
            #[trigger] after.instances[i].state,
        ) && !may_accept(after.instances[i].state) by {
            assert(well_formed(before.instances[i].state));
        }
        assert forall|i: int, j: int|
            0 <= i < j < after.instances.len() && holds_port(#[trigger] after.instances[i].state)
                && holds_port(#[trigger] after.instances[j].state) implies after.instances[i].port
            != after.instances[j].port by {
            assert(holds_port(before.instances[i].state));
            assert(holds_port(before.instances[j].state));
        }
    }
}

/// Instances on different ports do not interfere: what is delivered to one
/// changes the other in no way, and two deliveries to the two of them leave
/// the same supervisor in either order. So a failure of one, at its start or
/// later, keeps no other from serving.
pub proof fn lemma_instances_are_independent(
    before: SupervisorView,
    one: int,
    event: InstanceEvent,
    other: int,
    other_event: InstanceEvent,
)
    requires
        0 <= one < before.instances.len(),
        0 <= other < before.instances.len(),
        before.instances[one].port != before.instances[other].port,
    ensures
        before.delivered(one, event).instances[other] == before.instances[other],
        before.delivered(one, event).action_on(other, other_event) == before.action_on(
            other,
            other_event,
        ),
        before.delivered(one, event).delivered(other, other_event) == before.delivered(
            other,
            other_event,
        ).delivered(one, event),
{
    lemma_taken_alike(before, one, event, other, other_event);
    lemma_taken_alike(before, other, other_event, one, event);
    let first = before.delivered(one, event).delivered(other, other_event);
    let second = before.delivered(other, other_event).delivered(one, event);
    assert(first.instances =~= second.instances);
}

/// What is delivered to an instance on another port does not change how an
/// event is taken.
proof fn lemma_taken_alike(
    before: SupervisorView,
    one: int,
    event: InstanceEvent,
    other: int,
    other_event: InstanceEvent,
)
    requires
        0 <= one < before.instances.len(),
        0 <= other < before.instances.len(),
        before.instances[one].port != before.instances[other].port,
    ensures
        taken_as(before.delivered(one, event).instances, other, other_event) == taken_as(
            before.instances,
            other,
            other_event,
        ),
{
    let after = before.delivered(one, event).instances;
    if port_taken(before.instances, other) {
        let j = choose|j: int|
            0 <= j < before.instances.len() && j != other && holds_port(
                #[trigger] before.instances[j].state,
            ) && before.instances[j].port == before.instances[other].port;
        assert(after[j] == before.instances[j]);
        assert(holds_port(after[j].state));
    }
    if port_taken(after, other) {
        let j = choose|j: int|
            0 <= j < after.len() && j != other && holds_port(#[trigger] after[j].state)
                && after[j].port == after[other].port;
        assert(after[j] == before.instances[j]);
        assert(holds_port(before.instances[j].state));
    }
}

/// After the termination signal no instance accepts again: whatever is
/// delivered afterwards, to whichever instance and in whatever order, no
/// instance is told to serve a request or to start accepting.
pub proof fn lemma_closed_after_signal(
    before: SupervisorView,
    signal: Signal,
    later: Seq<(int, InstanceEvent)>,
    idx: int,
    event: InstanceEvent,
)
    requires
        before.valid(),
    ensures
        before.signalled(signal).after(later).valid(),
        before.signalled(signal).after(later).resolved_by is Some,
        !(before.signalled(signal).after(later).action_on(idx, event) matches Some(
            InstanceAction::Serve,
        )),
        !(before.signalled(signal).after(later).action_on(idx, event) matches Some(
            InstanceAction::Announce,
        )),
    decreases later.len(),
{
    let closed = before.signalled(signal);
    lemma_signal_keeps_valid(before, signal);
    if later.len() > 0 {
        lemma_closed_after_signal(before, signal, later.drop_last(), idx, event);
        lemma_delivery_keeps_valid(
            closed.after(later.drop_last()),
            later.last().0,
            later.last().1,
        );
    }
    let now = closed.after(later);
    if 0 <= idx < now.instances.len() {
        assert(!may_accept(now.instances[idx].state));
    }
}

/// A second termination signal has no effect.
pub proof fn lemma_signal_is_idempotent(before: SupervisorView, first: Signal, second: Signal)
    ensures
        before.signalled(first).signalled(second) == before.signalled(first),
        before.signalled(first).broadcast() is None,
{
}

/// The drain window bounds the shutdown: after the termination signal every
/// instance has ended or ends when its drain window is over.
pub proof fn lemma_drain_window_ends_all(before: SupervisorView, signal: Signal, idx: int)
    requires
        before.valid(),
        0 <= idx < before.instances.len(),
    ensures
        is_final(
            next_state(
                before.signalled(signal).instances[idx].state,
                InstanceEvent::DrainWindowElapsed,
            ),
        ),
{
    lemma_signal_keeps_valid(before, signal);
    assert(!may_accept(before.signalled(signal).instances[idx].state));
}

} // verus!
