use process_monitor::monitor::{Action, Config, Event, MonitorLoop, Phase};
use process_monitor::sample::{ProcessSample, ProcessUpdatedEvent};

fn sample(pid: u32, name: &str, cpu: f32) -> ProcessSample {
    ProcessSample { pid, name: String::from(name), cpu_bits: cpu.to_bits() }
}

fn event(pid: u32, name: &str, cpu: f32) -> ProcessUpdatedEvent {
    ProcessUpdatedEvent { pid: pid.to_string(), name: String::from(name), cpu_bits: cpu.to_bits() }
}

fn releasing_first() -> Config {
    Config { interval_ms: 250, hold_lock_while_publishing: false }
}

fn holding() -> Config {
    Config { interval_ms: 250, hold_lock_while_publishing: true }
}

/// A started loop that has just been granted the lock.
fn refreshing(config: Config) -> MonitorLoop {
    let mut monitor = MonitorLoop::new(config);
    assert_eq!(
        monitor.step(Event::StartRequested),
        Action::WaitForTick { interval_ms: config.interval_ms }
    );
    assert_eq!(monitor.step(Event::TickElapsed), Action::AcquireLock);
    assert_eq!(monitor.step(Event::LockAcquired), Action::Refresh);
    monitor
}

#[test]
fn default_config_is_one_second_releasing_before_publishing() {
    let config = Config::default();
    assert_eq!(config.interval_ms, 1000);
    assert!(!config.hold_lock_while_publishing);
}

#[test]
fn new_loop_is_idle() {
    let monitor = MonitorLoop::new(releasing_first());
    assert_eq!(monitor.phase(), Phase::Idle);
    assert_eq!(monitor.config(), releasing_first());
    assert_eq!(monitor.pending(), 0);
    assert_eq!(monitor.pushed(), 0);
    assert_eq!(monitor.failed(), 0);
    assert!(!monitor.holds_lock());
    assert!(!monitor.is_terminal());
}

#[test]
fn start_arms_the_timer_with_the_configured_interval() {
    let mut monitor = MonitorLoop::new(Config { interval_ms: 100, hold_lock_while_publishing: false });
    assert_eq!(monitor.step(Event::StartRequested), Action::WaitForTick { interval_ms: 100 });
    assert_eq!(monitor.phase(), Phase::Waiting);
    // a second start changes nothing
    assert_eq!(monitor.step(Event::StartRequested), Action::CarryOn);
    assert_eq!(monitor.phase(), Phase::Waiting);
}

#[test]
fn idle_loop_waits_for_start() {
    let mut monitor = MonitorLoop::new(releasing_first());
    assert_eq!(monitor.step(Event::TickElapsed), Action::CarryOn);
    assert_eq!(monitor.step(Event::LockAcquired), Action::CarryOn);
    assert_eq!(monitor.step(Event::Refreshed(vec![sample(1, "a", 0.0)])), Action::CarryOn);
    assert_eq!(monitor.phase(), Phase::Idle);
    assert_eq!(monitor.pending(), 0);
}

#[test]
fn cycle_releases_the_lock_before_publishing_by_default() {
    let mut monitor = refreshing(releasing_first());
    assert_eq!(monitor.phase(), Phase::Refreshing);
    assert!(monitor.holds_lock());
    let listed = vec![sample(1, "a", 0.0), sample(2, "b", 50.5), sample(3, "c", 1.25)];
    assert_eq!(monitor.step(Event::Refreshed(listed)), Action::ReleaseLock);
    assert_eq!(monitor.phase(), Phase::Releasing);
    assert_eq!(monitor.pending(), 3);
    assert!(monitor.holds_lock());
    assert_eq!(monitor.step(Event::LockReleased), Action::Push(event(1, "a", 0.0)));
    assert_eq!(monitor.phase(), Phase::Publishing);
    assert!(!monitor.holds_lock());
    assert_eq!(monitor.step(Event::PushSucceeded), Action::Push(event(2, "b", 50.5)));
    assert_eq!(monitor.step(Event::PushSucceeded), Action::Push(event(3, "c", 1.25)));
    assert_eq!(monitor.pending(), 0);
    assert_eq!(monitor.pushed(), 2);
    assert_eq!(monitor.step(Event::PushSucceeded), Action::WaitForTick { interval_ms: 250 });
    assert_eq!(monitor.phase(), Phase::Waiting);
    assert_eq!(monitor.pushed(), 3);
    assert_eq!(monitor.failed(), 0);
}

#[test]
fn cycle_can_hold_the_lock_through_publishing() {
    let mut monitor = refreshing(holding());
    let listed = vec![sample(1, "a", 0.0), sample(2, "b", 50.5)];
    assert_eq!(monitor.step(Event::Refreshed(listed)), Action::Push(event(1, "a", 0.0)));
    assert_eq!(monitor.phase(), Phase::Publishing);
    assert!(monitor.holds_lock());
    assert_eq!(monitor.step(Event::PushSucceeded), Action::Push(event(2, "b", 50.5)));
    assert!(monitor.holds_lock());
    assert_eq!(monitor.step(Event::PushSucceeded), Action::ReleaseLock);
    assert_eq!(monitor.phase(), Phase::Releasing);
    assert!(monitor.holds_lock());
    assert_eq!(monitor.step(Event::LockReleased), Action::WaitForTick { interval_ms: 250 });
    assert!(!monitor.holds_lock());
    assert_eq!(monitor.pushed(), 2);
}

#[test]
fn every_sample_is_pushed_exactly_once_when_the_sink_never_fails() {
    for config in [releasing_first(), holding()] {
        for size in [1usize, 2, 5, 64] {
            let listed: Vec<ProcessSample> =
                (0..size).map(|i| sample(1000 + i as u32, "proc", i as f32)).collect();
            let mut monitor = refreshing(config);
            let mut action = monitor.step(Event::Refreshed(listed.clone()));
            let mut pushed = Vec::new();
            let mut steps = 0;
            while action != (Action::WaitForTick { interval_ms: config.interval_ms }) {
                action = match action {
                    Action::ReleaseLock => monitor.step(Event::LockReleased),
                    Action::Push(event) => {
                        pushed.push(event);
                        monitor.step(Event::PushSucceeded)
                    }
                    other => panic!("unexpected action {:?}", other),
                };
                steps += 1;
                assert!(steps <= size + 1);
            }
            let expected: Vec<ProcessUpdatedEvent> =
                listed.iter().map(ProcessUpdatedEvent::from_sample).collect();
            assert_eq!(pushed, expected);
            assert_eq!(monitor.pushed(), size);
            assert_eq!(monitor.failed(), 0);
        }
    }
}

#[test]
fn failed_push_does_not_stop_the_others() {
    for config in [releasing_first(), holding()] {
        let listed = vec![sample(1, "a", 0.0), sample(2, "b", 50.5), sample(3, "c", 9.0)];
        let mut monitor = refreshing(config);
        let mut action = monitor.step(Event::Refreshed(listed));
        let mut pushed = Vec::new();
        while action != (Action::WaitForTick { interval_ms: 250 }) {
            action = match action {
                Action::ReleaseLock => monitor.step(Event::LockReleased),
                Action::Push(event) => {
                    let failed = event.pid == "2";
                    pushed.push(event.pid);
                    monitor.step(if failed { Event::PushFailed } else { Event::PushSucceeded })
                }
                other => panic!("unexpected action {:?}", other),
            };
        }
        assert_eq!(pushed, vec!["1", "2", "3"]);
        assert_eq!(monitor.pushed(), 3);
        assert_eq!(monitor.failed(), 1);
        // the next cycle goes ahead as if nothing had happened
        assert_eq!(monitor.phase(), Phase::Waiting);
        assert_eq!(monitor.step(Event::TickElapsed), Action::AcquireLock);
        assert_eq!(monitor.step(Event::LockAcquired), Action::Refresh);
        let again = monitor.step(Event::Refreshed(vec![sample(2, "b", 51.0)]));
        assert_eq!(monitor.pushed(), 0);
        assert_eq!(monitor.failed(), 0);
        if config.hold_lock_while_publishing {
            assert_eq!(again, Action::Push(event(2, "b", 51.0)));
        } else {
            assert_eq!(again, Action::ReleaseLock);
            assert_eq!(monitor.step(Event::LockReleased), Action::Push(event(2, "b", 51.0)));
        }
    }
}

#[test]
fn failure_of_the_last_push_ends_the_cycle_all_the_same() {
    let mut monitor = refreshing(releasing_first());
    assert_eq!(monitor.step(Event::Refreshed(vec![sample(5, "e", 0.5)])), Action::ReleaseLock);
    assert_eq!(monitor.step(Event::LockReleased), Action::Push(event(5, "e", 0.5)));
    assert_eq!(monitor.step(Event::PushFailed), Action::WaitForTick { interval_ms: 250 });
    assert_eq!(monitor.pushed(), 1);
    assert_eq!(monitor.failed(), 1);
}

#[test]
fn empty_table_pushes_nothing() {
    for config in [releasing_first(), holding()] {
        let mut monitor = refreshing(config);
        assert_eq!(monitor.step(Event::Refreshed(Vec::new())), Action::ReleaseLock);
        assert_eq!(monitor.pending(), 0);
        assert_eq!(monitor.step(Event::LockReleased), Action::WaitForTick { interval_ms: 250 });
        assert_eq!(monitor.phase(), Phase::Waiting);
        assert_eq!(monitor.pushed(), 0);
        assert_eq!(monitor.failed(), 0);
    }
}

#[test]
fn failed_refresh_skips_the_cycle() {
    let mut monitor = refreshing(releasing_first());
    assert_eq!(monitor.step(Event::RefreshFailed), Action::ReleaseLock);
    assert_eq!(monitor.pending(), 0);
    assert_eq!(monitor.step(Event::LockReleased), Action::WaitForTick { interval_ms: 250 });
    assert_eq!(monitor.step(Event::TickElapsed), Action::AcquireLock);
}

#[test]
fn tick_in_mid_cycle_is_skipped() {
    let mut monitor = MonitorLoop::new(releasing_first());
    monitor.step(Event::StartRequested);
    monitor.step(Event::TickElapsed);
    // waiting for the lock
    assert_eq!(monitor.step(Event::TickElapsed), Action::CarryOn);
    assert_eq!(monitor.phase(), Phase::Acquiring);
    monitor.step(Event::LockAcquired);
    // refreshing, and the refresh is slow
    assert_eq!(monitor.step(Event::TickElapsed), Action::CarryOn);
    assert_eq!(monitor.step(Event::TickElapsed), Action::CarryOn);
    assert_eq!(monitor.phase(), Phase::Refreshing);
    assert_eq!(monitor.step(Event::Refreshed(vec![sample(1, "a", 0.0)])), Action::ReleaseLock);
    assert_eq!(monitor.step(Event::TickElapsed), Action::CarryOn);
    assert_eq!(monitor.phase(), Phase::Releasing);
    assert_eq!(monitor.step(Event::LockReleased), Action::Push(event(1, "a", 0.0)));
    assert_eq!(monitor.step(Event::TickElapsed), Action::CarryOn);
    assert_eq!(monitor.phase(), Phase::Publishing);
    assert_eq!(monitor.pushed(), 0);
    assert_eq!(monitor.step(Event::PushSucceeded), Action::WaitForTick { interval_ms: 250 });
    // the skipped ticks are not replayed: only a new tick begins a cycle
    assert_eq!(monitor.phase(), Phase::Waiting);
    assert_eq!(monitor.step(Event::TickElapsed), Action::AcquireLock);
}

#[test]
fn events_out_of_turn_change_nothing() {
    let mut monitor = refreshing(holding());
    for stray in [
        Event::StartRequested,
        Event::LockAcquired,
        Event::LockPoisoned,
        Event::LockReleased,
        Event::PushSucceeded,
        Event::PushFailed,
    ] {
        assert_eq!(monitor.step(stray), Action::CarryOn);
        assert_eq!(monitor.phase(), Phase::Refreshing);
    }
    assert_eq!(monitor.step(Event::Refreshed(vec![sample(1, "a", 0.0)])), Action::Push(event(1, "a", 0.0)));
    for stray in [
        Event::StartRequested,
        Event::LockAcquired,
        Event::LockReleased,
        Event::RefreshFailed,
        Event::Refreshed(vec![sample(9, "z", 9.0)]),
    ] {
        assert_eq!(monitor.step(stray), Action::CarryOn);
        assert_eq!(monitor.phase(), Phase::Publishing);
        assert_eq!(monitor.pending(), 0);
    }
}

#[test]
fn stop_between_two_ticks_halts_at_once() {
    let mut monitor = MonitorLoop::new(releasing_first());
    monitor.step(Event::StartRequested);
    assert_eq!(monitor.step(Event::StopRequested), Action::Halt);
    assert_eq!(monitor.phase(), Phase::Stopped);
    assert!(monitor.is_terminal());
    for later in [
        Event::TickElapsed,
        Event::LockAcquired,
        Event::Refreshed(vec![sample(1, "a", 0.0)]),
        Event::LockReleased,
        Event::PushSucceeded,
        Event::StartRequested,
        Event::StopRequested,
    ] {
        assert_eq!(monitor.step(later), Action::Halt);
        assert_eq!(monitor.phase(), Phase::Stopped);
    }
}

#[test]
fn stop_before_start_halts() {
    let mut monitor = MonitorLoop::new(releasing_first());
    assert_eq!(monitor.step(Event::StopRequested), Action::Halt);
    assert_eq!(monitor.step(Event::StartRequested), Action::Halt);
    assert_eq!(monitor.phase(), Phase::Stopped);
}

#[test]
fn stop_while_waiting_for_the_lock_gives_up_the_wait() {
    let mut monitor = MonitorLoop::new(releasing_first());
    monitor.step(Event::StartRequested);
    monitor.step(Event::TickElapsed);
    assert_eq!(monitor.step(Event::StopRequested), Action::Halt);
    assert!(!monitor.holds_lock());
}

#[test]
fn stop_during_refresh_releases_the_lock_first() {
    let mut monitor = refreshing(releasing_first());
    assert_eq!(monitor.step(Event::StopRequested), Action::ReleaseLock);
    assert_eq!(monitor.phase(), Phase::Stopping);
    assert!(monitor.holds_lock());
    assert!(!monitor.is_terminal());
    assert_eq!(monitor.step(Event::Refreshed(vec![sample(1, "a", 0.0)])), Action::CarryOn);
    assert_eq!(monitor.step(Event::LockReleased), Action::Halt);
    assert_eq!(monitor.phase(), Phase::Stopped);
    assert!(!monitor.holds_lock());
}

#[test]
fn stop_while_publishing_starts_no_further_sample() {
    let listed = vec![sample(1, "a", 0.0), sample(2, "b", 50.5), sample(3, "c", 9.0)];
    // lock already released
    let mut monitor = refreshing(releasing_first());
    monitor.step(Event::Refreshed(listed.clone()));
    assert_eq!(monitor.step(Event::LockReleased), Action::Push(event(1, "a", 0.0)));
    assert_eq!(monitor.step(Event::PushSucceeded), Action::Push(event(2, "b", 50.5)));
    assert_eq!(monitor.step(Event::StopRequested), Action::Halt);
    assert_eq!(monitor.step(Event::PushSucceeded), Action::Halt);
    // lock still held
    let mut monitor = refreshing(holding());
    assert_eq!(monitor.step(Event::Refreshed(listed)), Action::Push(event(1, "a", 0.0)));
    assert_eq!(monitor.step(Event::StopRequested), Action::ReleaseLock);
    assert_eq!(monitor.step(Event::PushSucceeded), Action::CarryOn);
    assert_eq!(monitor.step(Event::LockReleased), Action::Halt);
    assert!(monitor.is_terminal());
}

#[test]
fn stop_while_releasing_lets_the_release_finish() {
    let mut monitor = refreshing(releasing_first());
    assert_eq!(monitor.step(Event::Refreshed(vec![sample(1, "a", 0.0)])), Action::ReleaseLock);
    assert_eq!(monitor.step(Event::StopRequested), Action::CarryOn);
    assert_eq!(monitor.phase(), Phase::Stopping);
    assert_eq!(monitor.step(Event::StopRequested), Action::CarryOn);
    assert_eq!(monitor.step(Event::LockReleased), Action::Halt);
    assert_eq!(monitor.phase(), Phase::Stopped);
}

#[test]
fn poisoned_lock_ends_the_loop() {
    let mut monitor = MonitorLoop::new(releasing_first());
    monitor.step(Event::StartRequested);
    monitor.step(Event::TickElapsed);
    assert_eq!(monitor.step(Event::LockPoisoned), Action::Halt);
    assert_eq!(monitor.phase(), Phase::Failed);
    assert!(monitor.is_terminal());
    assert!(!monitor.holds_lock());
    assert_eq!(monitor.step(Event::TickElapsed), Action::Halt);
    assert_eq!(monitor.step(Event::StartRequested), Action::Halt);
    assert_eq!(monitor.phase(), Phase::Failed);
}
