//! Runs of the loop, and what holds of every one of them.
//!
//! A run is the sequence of events the host reports, in order; the loop
//! answers each with one action. Everything here is stated over
//! [`LoopModel`], which [`crate::monitor::MonitorLoop::step`] follows
//! exactly.

use crate::monitor::{ActionModel, Config, EventModel, LoopModel, Phase};
use crate::sample::{
    decodable, event_of, events_of, sample_of, EventView, RawProcessView, SampleView,
};
use crate::snapshot::{lemma_decodable_table_is_listed_in_full, listed_samples};
use vstd::assert_by_contradiction;
use vstd::prelude::*;

verus! {

/// The state after `events`, and the actions given in answer, one per event.
pub open spec fn run(start: LoopModel, events: Seq<EventModel>) -> (LoopModel, Seq<ActionModel>)
    decreases events.len(),
{
    if events.len() == 0 {
        (start, Seq::empty())
    } else {
        let (state, actions) = run(start, events.drop_last());
        let (next, action) = state.step(events.last());
        (next, actions.push(action))
    }
}

/// The events that `actions` ask to push, in order.
pub open spec fn pushes(actions: Seq<ActionModel>) -> Seq<EventView>
    decreases actions.len(),
{
    if actions.len() == 0 {
        Seq::empty()
    } else {
        let earlier = pushes(actions.drop_last());
        match actions.last() {
            ActionModel::Push(event) => earlier.push(event),
            _ => earlier,
        }
    }
}

/// One push action for each event, in order.
pub open spec fn push_each(events: Seq<EventView>) -> Seq<ActionModel> {
    events.map_values(|event: EventView| ActionModel::Push(event))
}

/// What the host reports when a push comes back.
pub open spec fn push_outcome(ok: bool) -> EventModel {
    if ok {
        EventModel::PushSucceeded
    } else {
        EventModel::PushFailed
    }
}

/// The reports for a sequence of pushes, in order.
pub open spec fn outcome_events(outcomes: Seq<bool>) -> Seq<EventModel> {
    outcomes.map_values(|ok: bool| push_outcome(ok))
}

/// How many of `outcomes` are failures.
pub open spec fn failures(outcomes: Seq<bool>) -> nat
    decreases outcomes.len(),
{
    if outcomes.len() == 0 {
        0
    } else if outcomes[0] {
        failures(outcomes.drop_first())
    } else {
        1 + failures(outcomes.drop_first())
    }
}

/// The events of one whole cycle: the tick, the lock, the refresh that lists
/// `samples`, one outcome per push, and the release, which comes before the
/// pushes unless the lock is held while publishing.
pub open spec fn cycle(config: Config, samples: Seq<SampleView>, outcomes: Seq<bool>) -> Seq<
    EventModel,
> {
    let refresh = seq![
        EventModel::TickElapsed,
        EventModel::LockAcquired,
        EventModel::Refreshed(samples),
    ];
    if config.hold_lock_while_publishing {
        refresh + outcome_events(outcomes) + seq![EventModel::LockReleased]
    } else {
        refresh + seq![EventModel::LockReleased] + outcome_events(outcomes)
    }
}

/// The actions of one whole cycle that lists `samples`.
pub open spec fn cycle_actions(config: Config, samples: Seq<SampleView>) -> Seq<ActionModel> {
    let rearm = ActionModel::WaitForTick { interval_ms: config.interval_ms };
    if config.hold_lock_while_publishing {
        seq![ActionModel::AcquireLock, ActionModel::Refresh] + push_each(events_of(samples))
            + seq![ActionModel::ReleaseLock, rearm]
    } else {
        seq![ActionModel::AcquireLock, ActionModel::Refresh, ActionModel::ReleaseLock] + push_each(
            events_of(samples),
        ) + seq![rearm]
    }
}

/// One more event at the end of a run is one more step.
pub proof fn lemma_run_push(start: LoopModel, events: Seq<EventModel>, event: EventModel)
    ensures
        run(start, events.push(event)) == ({
            let (state, actions) = run(start, events);
            let (next, action) = state.step(event);
            (next, actions.push(action))
        }),
{
    assert(events.push(event).drop_last() =~= events);
}

/// A run of one event is one step.
pub proof fn lemma_run_one(start: LoopModel, event: EventModel)
    ensures
        run(start, seq![event]) == (start.step(event).0, seq![start.step(event).1]),
{
    lemma_run_push(start, Seq::empty(), event);
    assert(Seq::<EventModel>::empty().push(event) =~= seq![event]);
    assert(Seq::<ActionModel>::empty().push(start.step(event).1) =~= seq![start.step(event).1]);
}

/// A run can be cut anywhere: the second part starts where the first ended.
pub proof fn lemma_run_split(start: LoopModel, first: Seq<EventModel>, second: Seq<EventModel>)
    ensures
        run(start, first + second) == ({
            let (middle, before) = run(start, first);
            let (end, after) = run(middle, second);
            (end, before + after)
        }),
    decreases second.len(),
{
    let (middle, before) = run(start, first);
    if second.len() == 0 {
        assert(first + second =~= first);
        assert(before + Seq::<ActionModel>::empty() =~= before);
    } else {
        lemma_run_split(start, first, second.drop_last());
        assert((first + second).drop_last() =~= first + second.drop_last());
        let (state, actions) = run(middle, second.drop_last());
        let (next, action) = state.step(second.last());
        assert((before + actions).push(action) =~= before + actions.push(action));
    }
}

/// A run answers every event with exactly one action.
pub proof fn lemma_run_len(start: LoopModel, events: Seq<EventModel>)
    ensures
        run(start, events).1.len() == events.len(),
    decreases events.len(),
{
    if events.len() > 0 {
        lemma_run_len(start, events.drop_last());
    }
}

/// The pushes of two runs of actions, one after the other.
pub proof fn lemma_pushes_concat(first: Seq<ActionModel>, second: Seq<ActionModel>)
    ensures
        pushes(first + second) == pushes(first) + pushes(second),
    decreases second.len(),
{
    if second.len() == 0 {
        assert(first + second =~= first);
        assert(pushes(first) + Seq::<EventView>::empty() =~= pushes(first));
    } else {
        lemma_pushes_concat(first, second.drop_last());
        assert((first + second).drop_last() =~= first + second.drop_last());
        let earlier = pushes(second.drop_last());
        match second.last() {
            ActionModel::Push(event) => {
                assert((pushes(first) + earlier).push(event) =~= pushes(first) + earlier.push(
                    event,
                ));
            },
            _ => {},
        }
    }
}

/// Push actions ask for exactly their events.
pub proof fn lemma_pushes_of_push_each(events: Seq<EventView>)
    ensures
        pushes(push_each(events)) == events,
    decreases events.len(),
{
    if events.len() == 0 {
        assert(pushes(push_each(events)) =~= events);
    } else {
        lemma_pushes_of_push_each(events.drop_last());
        assert(push_each(events).drop_last() =~= push_each(events.drop_last()));
        assert(events.drop_last().push(events.last()) =~= events);
    }
}

/// The state in which the event at index `at` is taken in.
pub open spec fn state_before(start: LoopModel, events: Seq<EventModel>, at: int) -> LoopModel {
    run(start, events.take(at)).0
}

/// The action at an index of a run is the step taken there.
pub proof fn lemma_run_index(start: LoopModel, events: Seq<EventModel>, at: int)
    requires
        0 <= at < events.len(),
    ensures
        run(start, events).1.len() == events.len(),
        run(start, events).1[at] == state_before(start, events, at).step(events[at]).1,
        state_before(start, events, at + 1) == state_before(start, events, at).step(events[at]).0,
    decreases events.len(),
{
    lemma_run_len(start, events);
    lemma_run_len(start, events.drop_last());
    assert(events.take(at + 1).drop_last() =~= events.take(at));
    if at == events.len() - 1 {
        assert(events.take(at) =~= events.drop_last());
    } else {
        lemma_run_index(start, events.drop_last(), at);
        assert(events.drop_last().take(at) =~= events.take(at));
    }
}

/// Every step keeps the state coherent, and the configuration as it is.
pub proof fn lemma_step_keeps_coherence(state: LoopModel, event: EventModel)
    requires
        state.coherent(),
    ensures
        state.step(event).0.coherent(),
        state.step(event).0.config == state.config,
{
}

/// Every run keeps the state coherent, and the configuration as it is.
pub proof fn lemma_run_keeps_coherence(start: LoopModel, events: Seq<EventModel>)
    requires
        start.coherent(),
    ensures
        run(start, events).0.coherent(),
        run(start, events).0.config == start.config,
    decreases events.len(),
{
    if events.len() > 0 {
        lemma_run_keeps_coherence(start, events.drop_last());
        lemma_step_keeps_coherence(run(start, events.drop_last()).0, events.last());
    }
}

/// How one step moves the window of exclusive access: only `Refresh` opens
/// it, and only in answer to the lock being granted; only `ReleaseLock`
/// closes it; and the lock is never asked for while it is held.
pub proof fn lemma_step_and_window(state: LoopModel, event: EventModel)
    requires
        state.coherent(),
    ensures
        ({
            let (next, action) = state.step(event);
            &&& action is Refresh ==> event is LockAcquired && !state.holds_lock()
                && next.in_window()
            &&& action is ReleaseLock ==> state.in_window() && !next.in_window()
                && next.holds_lock()
            &&& action is AcquireLock ==> !state.holds_lock() && !next.holds_lock()
            &&& !(action is Refresh) && !(action is ReleaseLock) ==> next.in_window()
                == state.in_window()
        }),
{
}

/// The protocol between the loop and its host. An event that the phase
/// waits for is always answered with something to do, never with `CarryOn`.
/// Any other event leaves the loop as it is, except that a stop request
/// during a release is remembered.
pub proof fn lemma_only_awaited_events_count(state: LoopModel, event: EventModel)
    ensures
        state.awaits(event) ==> !(state.step(event).1 is CarryOn),
        !state.awaits(event) && !state.terminal() ==> state.step(event).1 is CarryOn,
        !state.awaits(event) && !(event is StopRequested) ==> state.step(event).0 == state,
{
}

/// A tick that elapses in the middle of a cycle is skipped: nothing
/// changes, and no new cycle is begun for it later.
pub proof fn lemma_tick_in_mid_cycle_is_skipped(state: LoopModel)
    requires
        state.phase != Phase::Waiting,
        !state.terminal(),
    ensures
        state.step(EventModel::TickElapsed) == (state, ActionModel::CarryOn),
{
}

proof fn lemma_window_stays_open(start: LoopModel, events: Seq<EventModel>, from: int, to: int)
    requires
        start.coherent(),
        0 <= from <= to <= events.len(),
        state_before(start, events, from).in_window(),
        forall|k: int| from <= k < to ==> !(#[trigger] run(start, events).1[k] is ReleaseLock),
    ensures
        state_before(start, events, to).in_window(),
    decreases to - from,
{
    if from < to {
        lemma_window_stays_open(start, events, from, to - 1);
        lemma_run_index(start, events, to - 1);
        lemma_run_keeps_coherence(start, events.take(to - 1));
        lemma_step_and_window(state_before(start, events, to - 1), events[to - 1]);
        assert(!(run(start, events).1[to - 1] is ReleaseLock));
    }
}

/// Refreshes never overlap: whatever the host reports and in whatever
/// order, between two `Refresh` actions of a run there is a `ReleaseLock`.
/// A new refresh begins only after the exclusive access of the one before
/// has been given up.
pub proof fn lemma_refreshes_never_overlap(
    start: LoopModel,
    events: Seq<EventModel>,
    earlier: int,
    later: int,
)
    requires
        start.coherent(),
        0 <= earlier < later < events.len(),
        run(start, events).1[earlier] is Refresh,
        run(start, events).1[later] is Refresh,
    ensures
        exists|k: int| earlier < k < later && #[trigger] run(start, events).1[k] is ReleaseLock,
{
    let actions = run(start, events).1;
    assert_by_contradiction!(
        exists|k: int| earlier < k < later && #[trigger] actions[k] is ReleaseLock,
        {
            // the first refresh opens the window,
            lemma_run_index(start, events, earlier);
            lemma_run_keeps_coherence(start, events.take(earlier));
            lemma_step_and_window(state_before(start, events, earlier), events[earlier]);
            // with no release it is still open when the second is asked for,
            lemma_window_stays_open(start, events, earlier + 1, later);
            // and a refresh is never asked for in an open window.
            lemma_run_index(start, events, later);
            lemma_run_keeps_coherence(start, events.take(later));
            lemma_step_and_window(state_before(start, events, later), events[later]);
        }
    );
}

/// Once the loop is winding down it asks for nothing but the end: every
/// answer is `CarryOn` or `Halt`, so nothing is pushed, refreshed or locked.
pub proof fn lemma_winding_down_is_quiet(start: LoopModel, events: Seq<EventModel>)
    requires
        start.winding_down(),
    ensures
        run(start, events).0.winding_down(),
        pushes(run(start, events).1) == Seq::<EventView>::empty(),
        forall|i: int|
            0 <= i < events.len() ==> {
                let action = #[trigger] run(start, events).1[i];
                action is CarryOn || action is Halt
            },
    decreases events.len(),
{
    lemma_run_len(start, events);
    if events.len() > 0 {
        lemma_winding_down_is_quiet(start, events.drop_last());
        lemma_run_len(start, events.drop_last());
        let (state, actions) = run(start, events.drop_last());
        let action = state.step(events.last()).1;
        assert(action is CarryOn || action is Halt);
        assert(pushes(actions.push(action)) == pushes(actions)) by {
            assert(actions.push(action).drop_last() =~= actions);
        }
    }
}

/// Cancellation: from whatever state, once a stop has been requested no
/// event is pushed any more, whatever the host reports afterwards. The
/// answer to the request itself is never a push either; it is `Halt` at
/// once unless the lock is held, and then `Halt` follows the release.
pub proof fn lemma_nothing_is_pushed_after_stop(state: LoopModel, events: Seq<EventModel>)
    ensures
        ({
            let (stopped, answer) = state.step(EventModel::StopRequested);
            let (end, actions) = run(stopped, events);
            &&& !(answer is Push)
            &&& pushes(actions) == Seq::<EventView>::empty()
            &&& stopped.winding_down() && end.winding_down()
            &&& !state.holds_lock() ==> stopped.terminal() && answer is Halt
            &&& !stopped.terminal() ==> stopped.step(EventModel::LockReleased) == (
                stopped.to(Phase::Stopped),
                ActionModel::Halt,
            )
        }),
{
    lemma_winding_down_is_quiet(state.step(EventModel::StopRequested).0, events);
}

/// The loop never leaves a terminal state, and answers `Halt` there.
pub proof fn lemma_terminal_is_final(state: LoopModel, event: EventModel)
    requires
        state.terminal(),
    ensures
        state.step(event) == (state, ActionModel::Halt),
{
}

proof fn lemma_publishing(state: LoopModel, outcomes: Seq<bool>)
    requires
        state.phase == Phase::Publishing,
        outcomes.len() == state.pending.len() + 1,
    ensures
        ({
            let (end, actions) = run(state, outcome_events(outcomes));
            let hold = state.config.hold_lock_while_publishing;
            &&& actions == push_each(state.pending).push(
                if hold {
                    ActionModel::ReleaseLock
                } else {
                    ActionModel::WaitForTick { interval_ms: state.config.interval_ms }
                },
            )
            &&& end == (LoopModel {
                phase: if hold {
                    Phase::Releasing
                } else {
                    Phase::Waiting
                },
                pending: Seq::empty(),
                pushed: state.pushed + outcomes.len(),
                failed: state.failed + failures(outcomes),
                config: state.config,
            })
        }),
    decreases outcomes.len(),
{
    let hold = state.config.hold_lock_while_publishing;
    let last = if hold {
        ActionModel::ReleaseLock
    } else {
        ActionModel::WaitForTick { interval_ms: state.config.interval_ms }
    };
    let first = push_outcome(outcomes[0]);
    let rest = outcomes.drop_first();
    let (next, action) = state.step(first);
    assert(outcome_events(outcomes) =~= seq![first] + outcome_events(rest));
    lemma_run_one(state, first);
    lemma_run_split(state, seq![first], outcome_events(rest));
    if rest.len() == 0 {
        assert(outcome_events(rest) =~= Seq::<EventModel>::empty());
        assert(state.pending =~= Seq::<EventView>::empty());
        assert(seq![action] + Seq::<ActionModel>::empty() =~= push_each(state.pending).push(last));
        assert(failures(rest) == 0);
    } else {
        lemma_publishing(next, rest);
        assert(seq![action] + push_each(next.pending).push(last) =~= push_each(
            state.pending,
        ).push(last));
    }
}

/// Cycle completeness, and the isolation of failed pushes.
///
/// Take a loop that waits for its tick, and one whole cycle whose refresh
/// lists `samples`. Whatever the outcome of each push, the loop asks for
/// exactly the actions of [`cycle_actions`]: one lock, one refresh, one
/// release, and one push for each sample, in the order listed and with the
/// event of that sample. A failed push is counted and changes nothing else:
/// the cycle ends waiting for the next tick, ready for the next cycle.
pub proof fn lemma_cycle_publishes_every_sample(
    start: LoopModel,
    samples: Seq<SampleView>,
    outcomes: Seq<bool>,
)
    requires
        start.phase == Phase::Waiting,
        outcomes.len() == samples.len(),
    ensures
        ({
            let (end, actions) = run(start, cycle(start.config, samples, outcomes));
            &&& actions == cycle_actions(start.config, samples)
            &&& pushes(actions) == events_of(samples)
            &&& end == (LoopModel {
                phase: Phase::Waiting,
                pending: Seq::empty(),
                pushed: samples.len(),
                failed: failures(outcomes),
                config: start.config,
            })
        }),
{
    let config = start.config;
    let hold = config.hold_lock_while_publishing;
    let all = events_of(samples);
    let rearm = ActionModel::WaitForTick { interval_ms: config.interval_ms };
    let refresh = seq![
        EventModel::TickElapsed,
        EventModel::LockAcquired,
        EventModel::Refreshed(samples),
    ];
    // the refresh
    let acquiring = start.to(Phase::Acquiring);
    let refreshing = start.to(Phase::Refreshing);
    let (listed, third) = refreshing.after_refresh(all);
    lemma_run_one(start, EventModel::TickElapsed);
    lemma_run_push(start, seq![EventModel::TickElapsed], EventModel::LockAcquired);
    lemma_run_push(
        start,
        seq![EventModel::TickElapsed, EventModel::LockAcquired],
        EventModel::Refreshed(samples),
    );
    assert(seq![EventModel::TickElapsed].push(EventModel::LockAcquired) =~= seq![
        EventModel::TickElapsed,
        EventModel::LockAcquired,
    ]);
    assert(seq![EventModel::TickElapsed, EventModel::LockAcquired].push(
        EventModel::Refreshed(samples),
    ) =~= refresh);
    assert(run(start, refresh) == (
        listed,
        seq![ActionModel::AcquireLock, ActionModel::Refresh, third],
    )) by {
        assert(seq![ActionModel::AcquireLock].push(ActionModel::Refresh).push(third) =~= seq![
            ActionModel::AcquireLock,
            ActionModel::Refresh,
            third,
        ]);
    }
    let released = seq![EventModel::LockReleased];
    let pushed = outcome_events(outcomes);
    if hold {
        lemma_run_split(start, refresh + pushed, released);
        lemma_run_split(start, refresh, pushed);
        if samples.len() == 0 {
            assert(pushed =~= Seq::<EventModel>::empty());
            lemma_run_one(listed, EventModel::LockReleased);
            assert(run(start, cycle(config, samples, outcomes)).1 =~= cycle_actions(
                config,
                samples,
            ));
        } else {
            lemma_publishing(listed, outcomes);
            let (published, answers) = run(listed, pushed);
            lemma_run_one(published, EventModel::LockReleased);
            assert(run(start, cycle(config, samples, outcomes)).1 =~= cycle_actions(
                config,
                samples,
            ));
        }
    } else {
        lemma_run_split(start, refresh + released, pushed);
        lemma_run_split(start, refresh, released);
        lemma_run_one(listed, EventModel::LockReleased);
        let (publishing, fourth) = listed.step(EventModel::LockReleased);
        if samples.len() == 0 {
            assert(pushed =~= Seq::<EventModel>::empty());
            assert(run(start, cycle(config, samples, outcomes)).1 =~= cycle_actions(
                config,
                samples,
            ));
        } else {
            lemma_publishing(publishing, outcomes);
            assert(run(start, cycle(config, samples, outcomes)).1 =~= cycle_actions(
                config,
                samples,
            ));
        }
    }
    // what the actions push
    let head = if hold {
        seq![ActionModel::AcquireLock, ActionModel::Refresh]
    } else {
        seq![ActionModel::AcquireLock, ActionModel::Refresh, ActionModel::ReleaseLock]
    };
    let foot = if hold {
        seq![ActionModel::ReleaseLock, rearm]
    } else {
        seq![rearm]
    };
    lemma_pushes_concat(head + push_each(all), foot);
    lemma_pushes_concat(head, push_each(all));
    lemma_pushes_of_push_each(all);
    assert(pushes(head) =~= Seq::<EventView>::empty()) by {
        reveal_with_fuel(pushes, 4);
    }
    assert(pushes(foot) =~= Seq::<EventView>::empty()) by {
        reveal_with_fuel(pushes, 3);
    }
    assert(pushes(cycle_actions(config, samples)) =~= all);
}

/// No failures among outcomes that are all successes.
proof fn lemma_no_failures(outcomes: Seq<bool>)
    requires
        forall|i: int| 0 <= i < outcomes.len() ==> #[trigger] outcomes[i],
    ensures
        failures(outcomes) == 0,
    decreases outcomes.len(),
{
    if outcomes.len() > 0 {
        lemma_no_failures(outcomes.drop_first());
    }
}

/// Cycle completeness, in terms of the process table.
///
/// Take a table of N rows whose names can all be decoded, and a sink that
/// never fails. A cycle that refreshes to this table pushes exactly N
/// events, the i-th being the event of the i-th row, and counts no failure.
pub proof fn lemma_cycle_is_complete(
    start: LoopModel,
    table: Seq<RawProcessView>,
    outcomes: Seq<bool>,
)
    requires
        start.phase == Phase::Waiting,
        forall|i: int| 0 <= i < table.len() ==> decodable(#[trigger] table[i]),
        outcomes.len() == table.len(),
        forall|i: int| 0 <= i < outcomes.len() ==> #[trigger] outcomes[i],
    ensures
        ({
            let (end, actions) = run(start, cycle(start.config, listed_samples(table), outcomes));
            &&& pushes(actions).len() == table.len()
            &&& forall|i: int|
                0 <= i < table.len() ==> #[trigger] pushes(actions)[i] == event_of(
                    sample_of(table[i]),
                )
            &&& end.failed == 0
            &&& end.phase == Phase::Waiting
        }),
{
    lemma_decodable_table_is_listed_in_full(table);
    lemma_cycle_publishes_every_sample(start, listed_samples(table), outcomes);
    lemma_no_failures(outcomes);
}

/// Isolation of failed pushes: which pushes fail changes neither what the
/// cycle asks for nor where it ends, only the count of failures.
pub proof fn lemma_failed_pushes_change_nothing_else(
    start: LoopModel,
    samples: Seq<SampleView>,
    outcomes: Seq<bool>,
    others: Seq<bool>,
)
    requires
        start.phase == Phase::Waiting,
        outcomes.len() == samples.len(),
        others.len() == samples.len(),
    ensures
        ({
            let (end, actions) = run(start, cycle(start.config, samples, outcomes));
            let (other_end, other_actions) = run(start, cycle(start.config, samples, others));
            &&& actions == other_actions
            &&& end == (LoopModel { failed: failures(outcomes), ..other_end })
        }),
{
    lemma_cycle_publishes_every_sample(start, samples, outcomes);
    lemma_cycle_publishes_every_sample(start, samples, others);
}

/// An empty process table: the cycle pushes nothing, counts no failure, and
/// ends waiting for the next tick.
pub proof fn lemma_empty_table_pushes_nothing(start: LoopModel)
    requires
        start.phase == Phase::Waiting,
    ensures
        ({
            let (end, actions) = run(
                start,
                cycle(start.config, Seq::<SampleView>::empty(), Seq::<bool>::empty()),
            );
            &&& pushes(actions) == Seq::<EventView>::empty()
            &&& end.failed == 0
            &&& end.phase == Phase::Waiting
        }),
{
    lemma_cycle_publishes_every_sample(start, Seq::empty(), Seq::empty());
    assert(events_of(Seq::<SampleView>::empty()) =~= Seq::<EventView>::empty());
}

} // verus!
