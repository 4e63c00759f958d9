//! The background loop as a state machine.
//!
//! The loop itself never waits, locks or sends. It is told what happened
//! (an [`Event`]) and answers with what to do next (an [`Action`]); the host
//! carries the action out and reports its outcome as the next event.
//!
//! One cycle, with the default configuration:
//!
//! | phase        | action handed out | event that ends the phase |
//! |--------------|-------------------|---------------------------|
//! | `Waiting`    | `WaitForTick`     | `TickElapsed`             |
//! | `Acquiring`  | `AcquireLock`     | `LockAcquired`            |
//! | `Refreshing` | `Refresh`         | `Refreshed(samples)`      |
//! | `Releasing`  | `ReleaseLock`     | `LockReleased`            |
//! | `Publishing` | `Push(event)`     | `PushSucceeded` / `PushFailed`, once per sample |
//!
//! With `hold_lock_while_publishing` the lock is released after the last push
//! instead of before the first.
//!
//! An event that the current phase does not wait for changes nothing and is
//! answered with `CarryOn`: the action handed out before still stands. This is
//! how a tick that elapses in the middle of a cycle is skipped.
//!
//! `StopRequested` is honoured in every phase. No sample is started after it;
//! if the lock is held it is released first.

use crate::sample::{
    event_of, events_of, sample_views, EventView, ProcessSample, ProcessUpdatedEvent, SampleView,
};
use std::collections::VecDeque;
use vstd::prelude::*;

verus! {

/// What the host may configure.
#[derive(Clone, Copy, Debug, PartialEq, Eq, Structural)]
pub struct Config {
    /// Time between two refresh cycles, in milliseconds.
    pub interval_ms: u64,
    /// Whether exclusive access is kept until the last sample of a cycle has
    /// been pushed. When `false`, it is released before the first push, so
    /// that a slow sink cannot keep an on-demand refresh waiting.
    pub hold_lock_while_publishing: bool,
}

impl Default for Config {
    /// One cycle per second; the lock is released before publishing.
    fn default() -> (config: Config)
        ensures
            config == (Config { interval_ms: 1000, hold_lock_while_publishing: false }),
    {
        Config { interval_ms: 1000, hold_lock_while_publishing: false }
    }
}

/// Where the loop stands.
#[derive(Clone, Copy, Debug, PartialEq, Eq, Structural)]
pub enum Phase {
    /// Not started yet.
    Idle,
    /// Timer armed: waiting for the next tick.
    Waiting,
    /// Waiting for exclusive access to the snapshot.
    Acquiring,
    /// Exclusive access held; the refresh is under way.
    Refreshing,
    /// Told to release exclusive access; the cycle goes on afterwards.
    Releasing,
    /// A push is under way.
    Publishing,
    /// Told to release exclusive access because a stop was requested.
    Stopping,
    /// Stopped by the host. Terminal.
    Stopped,
    /// The lock is unusable. Terminal.
    Failed,
}

/// What the host reports to the loop.
#[derive(Clone, Debug, PartialEq, Eq)]
pub enum Event {
    StartRequested,
    TickElapsed,
    LockAcquired,
    LockPoisoned,
    /// The refresh is done; these are the samples it listed.
    Refreshed(Vec<ProcessSample>),
    RefreshFailed,
    LockReleased,
    PushSucceeded,
    PushFailed,
    StopRequested,
}

/// What the loop asks the host to do.
#[derive(Clone, Debug, PartialEq, Eq)]
pub enum Action {
    /// Nothing new: the action handed out before still stands.
    CarryOn,
    WaitForTick { interval_ms: u64 },
    AcquireLock,
    Refresh,
    ReleaseLock,
    /// Push this event to the sink, under the topic of [`crate::sample::event_topic`].
    Push(ProcessUpdatedEvent),
    /// The loop is over.
    Halt,
}

/// What an [`Event`] holds.
pub enum EventModel {
    StartRequested,
    TickElapsed,
    LockAcquired,
    LockPoisoned,
    Refreshed(Seq<SampleView>),
    RefreshFailed,
    LockReleased,
    PushSucceeded,
    PushFailed,
    StopRequested,
}

/// What an [`Action`] holds.
pub enum ActionModel {
    CarryOn,
    WaitForTick { interval_ms: u64 },
    AcquireLock,
    Refresh,
    ReleaseLock,
    Push(EventView),
    Halt,
}

/// The events of a queue, each by its view.
pub open spec fn event_views(events: Seq<ProcessUpdatedEvent>) -> Seq<EventView> {
    events.map_values(|event: ProcessUpdatedEvent| event@)
}

impl View for Event {
    type V = EventModel;

    open spec fn view(&self) -> EventModel {
        match self {
            Event::StartRequested => EventModel::StartRequested,
            Event::TickElapsed => EventModel::TickElapsed,
            Event::LockAcquired => EventModel::LockAcquired,
            Event::LockPoisoned => EventModel::LockPoisoned,
            Event::Refreshed(samples) => EventModel::Refreshed(sample_views(samples@)),
            Event::RefreshFailed => EventModel::RefreshFailed,
            Event::LockReleased => EventModel::LockReleased,
            Event::PushSucceeded => EventModel::PushSucceeded,
            Event::PushFailed => EventModel::PushFailed,
            Event::StopRequested => EventModel::StopRequested,
        }
    }
}

impl View for Action {
    type V = ActionModel;

    open spec fn view(&self) -> ActionModel {
        match self {
            Action::CarryOn => ActionModel::CarryOn,
            Action::WaitForTick { interval_ms } => ActionModel::WaitForTick {
                interval_ms: *interval_ms,
            },
            Action::AcquireLock => ActionModel::AcquireLock,
            Action::Refresh => ActionModel::Refresh,
            Action::ReleaseLock => ActionModel::ReleaseLock,
            Action::Push(event) => ActionModel::Push(event@),
            Action::Halt => ActionModel::Halt,
        }
    }
}

/// The loop as a mathematical value.
pub struct LoopModel {
    pub config: Config,
    pub phase: Phase,
    /// Events of the current cycle that have not been handed out yet, in
    /// the order in which they will be pushed.
    pub pending: Seq<EventView>,
    /// Pushes of the current cycle whose outcome is known.
    pub pushed: nat,
    /// How many of those failed.
    pub failed: nat,
}

impl LoopModel {
    /// A loop that has not been started.
    pub open spec fn initial(config: Config) -> LoopModel {
        LoopModel { config, phase: Phase::Idle, pending: Seq::empty(), pushed: 0, failed: 0 }
    }

    /// The number of pushes handed out whose outcome is still owed: one
    /// while publishing, none otherwise.
    pub open spec fn in_flight(self) -> nat {
        if self.phase == Phase::Publishing {
            1
        } else {
            0
        }
    }

    /// What holds of every state the loop can reach: no more failures than
    /// pushes, and when the lock is kept through publishing, nothing is left
    /// to publish by the time it is released.
    pub open spec fn coherent(self) -> bool {
        &&& self.failed <= self.pushed
        &&& (self.phase == Phase::Releasing && self.config.hold_lock_while_publishing
            ==> self.pending.len() == 0)
    }

    /// Coherent, and the counters fit the machine.
    pub open spec fn wf(self) -> bool {
        &&& self.coherent()
        &&& self.pushed + self.in_flight() + self.pending.len() <= usize::MAX
    }

    /// The counters fit the machine once no push is under way.
    spec fn settled(self) -> bool {
        &&& self.failed <= self.pushed
        &&& self.pushed + self.pending.len() <= usize::MAX
    }

    /// Exclusive access is held, and the host has not been told to release it.
    pub open spec fn in_window(self) -> bool {
        ||| self.phase == Phase::Refreshing
        ||| (self.phase == Phase::Publishing && self.config.hold_lock_while_publishing)
    }

    /// Exclusive access is held, or its release has not been confirmed yet.
    pub open spec fn holds_lock(self) -> bool {
        ||| self.in_window()
        ||| self.phase == Phase::Releasing
        ||| self.phase == Phase::Stopping
    }

    /// A stop has been observed, or the loop has failed: nothing will be
    /// refreshed or pushed any more.
    pub open spec fn winding_down(self) -> bool {
        ||| self.phase == Phase::Stopping
        ||| self.phase == Phase::Stopped
        ||| self.phase == Phase::Failed
    }

    /// The loop is over.
    pub open spec fn terminal(self) -> bool {
        self.phase == Phase::Stopped || self.phase == Phase::Failed
    }

    /// Whether `event` is one that the current phase waits for: the outcome
    /// of the action handed out last, or a stop where the host may give
    /// that action up.
    pub open spec fn awaits(self, event: EventModel) -> bool {
        match self.phase {
            Phase::Idle => event is StartRequested || event is StopRequested,
            Phase::Waiting => event is TickElapsed || event is StopRequested,
            Phase::Acquiring => event is LockAcquired || event is LockPoisoned
                || event is StopRequested,
            Phase::Refreshing => event is Refreshed || event is RefreshFailed
                || event is StopRequested,
            Phase::Releasing => event is LockReleased,
            Phase::Publishing => event is PushSucceeded || event is PushFailed
                || event is StopRequested,
            Phase::Stopping => event is LockReleased,
            Phase::Stopped | Phase::Failed => false,
        }
    }

    pub open spec fn to(self, phase: Phase) -> LoopModel {
        LoopModel { phase, ..self }
    }

    pub open spec fn carry_on(self) -> (LoopModel, ActionModel) {
        (self, ActionModel::CarryOn)
    }

    /// Arm the timer for the next cycle.
    pub open spec fn wait(self) -> (LoopModel, ActionModel) {
        (
            self.to(Phase::Waiting),
            ActionModel::WaitForTick { interval_ms: self.config.interval_ms },
        )
    }

    pub open spec fn halt(self) -> (LoopModel, ActionModel) {
        (self.to(Phase::Stopped), ActionModel::Halt)
    }

    pub open spec fn release(self, phase: Phase) -> (LoopModel, ActionModel) {
        (self.to(phase), ActionModel::ReleaseLock)
    }

    /// Hand out the first pending event.
    pub open spec fn publish_next(self) -> (LoopModel, ActionModel)
        recommends
            self.pending.len() > 0,
    {
        (
            LoopModel { phase: Phase::Publishing, pending: self.pending.drop_first(), ..self },
            ActionModel::Push(self.pending[0]),
        )
    }

    /// A fresh cycle's events are in: publish at once if the lock is to be
    /// held throughout and there is something to publish, else release first.
    pub open spec fn after_refresh(self, events: Seq<EventView>) -> (LoopModel, ActionModel) {
        let fresh = LoopModel { pending: events, pushed: 0, failed: 0, ..self };
        if self.config.hold_lock_while_publishing && events.len() > 0 {
            fresh.publish_next()
        } else {
            fresh.release(Phase::Releasing)
        }
    }

    /// The lock is free again: publish what is pending, else wait for the
    /// next tick.
    pub open spec fn after_release(self) -> (LoopModel, ActionModel) {
        if self.pending.len() > 0 {
            self.publish_next()
        } else {
            self.wait()
        }
    }

    /// A push is over: record its outcome, then go on with the next sample,
    /// or end the cycle.
    pub open spec fn after_push(self, ok: bool) -> (LoopModel, ActionModel) {
        let counted = LoopModel {
            pushed: self.pushed + 1,
            failed: if ok {
                self.failed
            } else {
                self.failed + 1
            },
            ..self
        };
        if counted.pending.len() > 0 {
            counted.publish_next()
        } else if counted.config.hold_lock_while_publishing {
            counted.release(Phase::Releasing)
        } else {
            counted.wait()
        }
    }

    /// A stop request: give up what was about to be done, releasing the lock
    /// first where it is held.
    pub open spec fn stop(self) -> (LoopModel, ActionModel) {
        match self.phase {
            Phase::Idle | Phase::Waiting | Phase::Acquiring => self.halt(),
            Phase::Refreshing => self.release(Phase::Stopping),
            Phase::Publishing => if self.config.hold_lock_while_publishing {
                self.release(Phase::Stopping)
            } else {
                self.halt()
            },
            Phase::Releasing => (self.to(Phase::Stopping), ActionModel::CarryOn),
            Phase::Stopping => self.carry_on(),
            Phase::Stopped | Phase::Failed => (self, ActionModel::Halt),
        }
    }

    /// The transition function: the state after `event`, and the action
    /// handed out in answer to it.
    pub open spec fn step(self, event: EventModel) -> (LoopModel, ActionModel) {
        if self.terminal() {
            (self, ActionModel::Halt)
        } else if event is StopRequested {
            self.stop()
        } else {
            match (self.phase, event) {
                (Phase::Idle, EventModel::StartRequested) => self.wait(),
                (Phase::Waiting, EventModel::TickElapsed) => (
                    self.to(Phase::Acquiring),
                    ActionModel::AcquireLock,
                ),
                (Phase::Acquiring, EventModel::LockAcquired) => (
                    self.to(Phase::Refreshing),
                    ActionModel::Refresh,
                ),
                (Phase::Acquiring, EventModel::LockPoisoned) => (
                    self.to(Phase::Failed),
                    ActionModel::Halt,
                ),
                (Phase::Refreshing, EventModel::Refreshed(samples)) => self.after_refresh(
                    events_of(samples),
                ),
                (Phase::Refreshing, EventModel::RefreshFailed) => self.after_refresh(Seq::empty()),
                (Phase::Releasing, EventModel::LockReleased) => self.after_release(),
                (Phase::Publishing, EventModel::PushSucceeded) => self.after_push(true),
                (Phase::Publishing, EventModel::PushFailed) => self.after_push(false),
                (Phase::Stopping, EventModel::LockReleased) => self.halt(),
                _ => self.carry_on(),
            }
        }
    }
}

/// The loop's state as the machine holds it.
struct LoopState {
    config: Config,
    phase: Phase,
    pending: VecDeque<ProcessUpdatedEvent>,
    pushed: usize,
    failed: usize,
}

impl View for LoopState {
    type V = LoopModel;

    closed spec fn view(&self) -> LoopModel {
        LoopModel {
            config: self.config,
            phase: self.phase,
            pending: event_views(self.pending@),
            pushed: self.pushed as nat,
            failed: self.failed as nat,
        }
    }
}

impl LoopState {
    fn idle(config: Config) -> (state: LoopState)
        ensures
            state@ == LoopModel::initial(config),
    {
        let state = LoopState {
            config,
            phase: Phase::Idle,
            pending: VecDeque::new(),
            pushed: 0,
            failed: 0,
        };
        assert(event_views(state.pending@) =~= Seq::empty());
        state
    }

    fn wait(&mut self) -> (action: Action)
        requires
            old(self)@.settled(),
        ensures
            final(self)@.wf(),
            (final(self)@, action@) == old(self)@.wait(),
    {
        self.phase = Phase::Waiting;
        Action::WaitForTick { interval_ms: self.config.interval_ms }
    }

    fn halt(&mut self) -> (action: Action)
        requires
            old(self)@.settled(),
        ensures
            final(self)@.wf(),
            (final(self)@, action@) == old(self)@.halt(),
    {
        self.phase = Phase::Stopped;
        Action::Halt
    }

    fn release(&mut self, phase: Phase) -> (action: Action)
        requires
            old(self)@.settled(),
            phase != Phase::Publishing,
            phase == Phase::Releasing && old(self)@.config.hold_lock_while_publishing
                ==> old(self)@.pending.len() == 0,
        ensures
            final(self)@.wf(),
            (final(self)@, action@) == old(self)@.release(phase),
    {
        self.phase = phase;
        Action::ReleaseLock
    }

    fn publish_next(&mut self) -> (action: Action)
        requires
            old(self)@.settled(),
            old(self)@.pending.len() > 0,
        ensures
            final(self)@.wf(),
            (final(self)@, action@) == old(self)@.publish_next(),
    {
        let head = self.pending.pop_front();
        self.phase = Phase::Publishing;
        proof {
            assert(event_views(self.pending@) =~= event_views(old(self).pending@).drop_first());
        }
        match head {
            Some(event) => Action::Push(event),
            None => Action::CarryOn,
        }
    }

    fn after_refresh(&mut self, samples: Vec<ProcessSample>) -> (action: Action)
        requires
            old(self)@.phase == Phase::Refreshing,
        ensures
            final(self)@.wf(),
            (final(self)@, action@) == old(self)@.after_refresh(events_of(sample_views(samples@))),
    {
        let mut queue: VecDeque<ProcessUpdatedEvent> = VecDeque::new();
        let mut i: usize = 0;
        while i < samples.len()
            invariant
                i <= samples.len(),
                queue@.len() == i,
                forall|j: int|
                    0 <= j < i ==> (#[trigger] queue@[j])@ == event_of(samples@[j]@),
            decreases samples.len() - i,
        {
            queue.push_back(ProcessUpdatedEvent::from_sample(&samples[i]));
            i = i + 1;
        }
        proof {
            assert(event_views(queue@) =~= events_of(sample_views(samples@)));
        }
        self.pending = queue;
        self.pushed = 0;
        self.failed = 0;
        if self.config.hold_lock_while_publishing && self.pending.len() > 0 {
            self.publish_next()
        } else {
            self.release(Phase::Releasing)
        }
    }

    fn after_release(&mut self) -> (action: Action)
        requires
            old(self)@.settled(),
        ensures
            final(self)@.wf(),
            (final(self)@, action@) == old(self)@.after_release(),
    {
        if self.pending.len() > 0 {
            self.publish_next()
        } else {
            self.wait()
        }
    }

    fn after_push(&mut self, ok: bool) -> (action: Action)
        requires
            old(self)@.wf(),
            old(self)@.phase == Phase::Publishing,
        ensures
            final(self)@.wf(),
            (final(self)@, action@) == old(self)@.after_push(ok),
    {
        self.pushed = self.pushed + 1;
        if !ok {
            self.failed = self.failed + 1;
        }
        if self.pending.len() > 0 {
            self.publish_next()
        } else if self.config.hold_lock_while_publishing {
            self.release(Phase::Releasing)
        } else {
            self.wait()
        }
    }

    fn stop(&mut self) -> (action: Action)
        requires
            old(self)@.wf(),
        ensures
            final(self)@.wf(),
            (final(self)@, action@) == old(self)@.stop(),
    {
        match self.phase {
            Phase::Idle | Phase::Waiting | Phase::Acquiring => self.halt(),
            Phase::Refreshing => self.release(Phase::Stopping),
            Phase::Publishing => {
                if self.config.hold_lock_while_publishing {
                    self.release(Phase::Stopping)
                } else {
                    self.halt()
                }
            },
            Phase::Releasing => {
                self.phase = Phase::Stopping;
                Action::CarryOn
            },
            Phase::Stopping => Action::CarryOn,
            Phase::Stopped | Phase::Failed => Action::Halt,
        }
    }

    fn step(&mut self, event: Event) -> (action: Action)
        requires
            old(self)@.wf(),
        ensures
            final(self)@.wf(),
            (final(self)@, action@) == old(self)@.step(event@),
    {
        match self.phase {
            Phase::Stopped | Phase::Failed => {
                return Action::Halt;
            },
            _ => {},
        }
        match event {
            Event::StopRequested => self.stop(),
            Event::StartRequested => match self.phase {
                Phase::Idle => self.wait(),
                _ => Action::CarryOn,
            },
            Event::TickElapsed => match self.phase {
                Phase::Waiting => {
                    self.phase = Phase::Acquiring;
                    Action::AcquireLock
                },
                _ => Action::CarryOn,
            },
            Event::LockAcquired => match self.phase {
                Phase::Acquiring => {
                    self.phase = Phase::Refreshing;
                    Action::Refresh
                },
                _ => Action::CarryOn,
            },
            Event::LockPoisoned => match self.phase {
                Phase::Acquiring => {
                    self.phase = Phase::Failed;
                    Action::Halt
                },
                _ => Action::CarryOn,
            },
            Event::Refreshed(samples) => match self.phase {
                Phase::Refreshing => self.after_refresh(samples),
                _ => Action::CarryOn,
            },
            Event::RefreshFailed => match self.phase {
                Phase::Refreshing => {
                    let nothing: Vec<ProcessSample> = Vec::new();
                    assert(events_of(sample_views(nothing@)) =~= Seq::empty());
                    self.after_refresh(nothing)
                },
                _ => Action::CarryOn,
            },
            Event::LockReleased => match self.phase {
                Phase::Releasing => self.after_release(),
                Phase::Stopping => self.halt(),
                _ => Action::CarryOn,
            },
            Event::PushSucceeded => match self.phase {
                Phase::Publishing => self.after_push(true),
                _ => Action::CarryOn,
            },
            Event::PushFailed => match self.phase {
                Phase::Publishing => self.after_push(false),
                _ => Action::CarryOn,
            },
        }
    }
}

/// The decisions of the background loop.
///
/// Every value of this type is well-formed, in the sense of
/// [`LoopModel::wf`]: `new` makes it so and `step` keeps it so.
pub struct MonitorLoop {
    state: LoopState,
}

impl View for MonitorLoop {
    type V = LoopModel;

    closed spec fn view(&self) -> LoopModel {
        self.state@
    }
}

impl MonitorLoop {
    #[verifier::type_invariant]
    spec fn well_formed(self) -> bool {
        self.state@.wf()
    }

    /// A loop that has not been started.
    pub fn new(config: Config) -> (monitor: MonitorLoop)
        ensures
            monitor@ == LoopModel::initial(config),
            monitor@.wf(),
    {
        MonitorLoop { state: LoopState::idle(config) }
    }

    pub fn config(&self) -> (config: Config)
        ensures
            config == self@.config,
    {
        self.state.config
    }

    pub fn phase(&self) -> (phase: Phase)
        ensures
            phase == self@.phase,
    {
        self.state.phase
    }

    /// How many events of the current cycle are still to be handed out.
    pub fn pending(&self) -> (count: usize)
        ensures
            count == self@.pending.len(),
    {
        self.state.pending.len()
    }

    /// How many pushes of the current cycle have come back.
    pub fn pushed(&self) -> (count: usize)
        ensures
            count == self@.pushed,
    {
        self.state.pushed
    }

    /// How many pushes of the current cycle have failed.
    pub fn failed(&self) -> (count: usize)
        ensures
            count == self@.failed,
    {
        self.state.failed
    }

    /// Whether the loop holds exclusive access to the snapshot, or has not
    /// yet heard that its release went through.
    pub fn holds_lock(&self) -> (held: bool)
        ensures
            held == self@.holds_lock(),
    {
        match self.state.phase {
            Phase::Refreshing | Phase::Releasing | Phase::Stopping => true,
            Phase::Publishing => self.state.config.hold_lock_while_publishing,
            _ => false,
        }
    }

    /// Whether the loop is over.
    pub fn is_terminal(&self) -> (over: bool)
        ensures
            over == self@.terminal(),
    {
        match self.state.phase {
            Phase::Stopped | Phase::Failed => true,
            _ => false,
        }
    }

    /// Takes in what happened and says what to do next.
    pub fn step(&mut self, event: Event) -> (action: Action)
        ensures
            (final(self)@, action@) == old(self)@.step(event@),
            final(self)@.wf(),
    {
        proof {
            use_type_invariant(&*self);
        }
        // The state is taken out while it moves on, so that the loop is
        // well-formed whenever it can be looked at.
        let mut state = LoopState::idle(self.state.config);
        std::mem::swap(&mut self.state, &mut state);
        let action = state.step(event);
        self.state = state;
        action
    }
}

} // verus!
