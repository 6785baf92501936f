use bevyforge::lifecycle::{AttemptPoll, Lifecycle, LifecycleAction};

#[test]
fn spawn_attempts_back_off_and_log_new_failures() {
    let mut l = Lifecycle::new(1000, true, None, None);
    assert_eq!(l.status_line(), "Engine starting… (editing works meanwhile)");
    assert_eq!(l.step(1100, true, AttemptPoll::Pending), LifecycleAction::Idle);
    assert_eq!(l.step(1200, true, AttemptPoll::Pending), LifecycleAction::StartSpawn);
    assert!(l.attempt_in_flight());
    assert_eq!(l.step(1250, true, AttemptPoll::Pending), LifecycleAction::Idle);
    assert_eq!(
        l.step(1300, true, AttemptPoll::Failed("boom".to_string())),
        LifecycleAction::RecordFailure { log: true }
    );
    assert!(!l.attempt_in_flight());
    assert_eq!(l.last_error().as_deref(), Some("boom"));
    assert_eq!(l.status_line(), "Engine offline — retrying…");
    // next attempt at 1200 + 2000
    assert_eq!(l.step(3199, true, AttemptPoll::Pending), LifecycleAction::Idle);
    assert_eq!(l.step(3200, true, AttemptPoll::Pending), LifecycleAction::StartSpawn);
    assert_eq!(
        l.step(3300, true, AttemptPoll::Failed("boom".to_string())),
        LifecycleAction::RecordFailure { log: false }
    );
    // next attempt at 3200 + 4000
    assert_eq!(l.step(7199, true, AttemptPoll::Pending), LifecycleAction::Idle);
    assert_eq!(l.step(7200, true, AttemptPoll::Pending), LifecycleAction::StartSpawn);
    assert_eq!(l.step(7300, true, AttemptPoll::Succeeded), LifecycleAction::Adopt);
    assert_eq!(l.last_error(), None);
    assert_eq!(l.status_line(), "Connecting…");
}

#[test]
fn backoff_is_capped() {
    let mut l = Lifecycle::new(0, true, None, None);
    let mut now = 200;
    let mut gaps = Vec::new();
    let mut last = None;
    for _ in 0..6 {
        loop {
            let a = l.step(now, true, AttemptPoll::Pending);
            if a == LifecycleAction::StartSpawn {
                if let Some(prev) = last {
                    gaps.push(now - prev);
                }
                last = Some(now);
                break;
            }
            now += 100;
        }
        assert_eq!(
            l.step(now, true, AttemptPoll::Failed("x".to_string())),
            LifecycleAction::RecordFailure { log: last == Some(200) }
        );
    }
    assert_eq!(gaps, vec![2000, 4000, 8000, 10000, 10000]);
}

#[test]
fn initial_attach_comes_first() {
    let mut l = Lifecycle::new(0, true, Some(7001), None);
    assert_eq!(l.step(200, true, AttemptPoll::Pending), LifecycleAction::StartAttach(7001));
    assert_eq!(l.status_line(), "Attaching to engine…");
    assert_eq!(l.step(201, true, AttemptPoll::Lost), LifecycleAction::StartSpawn);
    assert!(l.attempt_in_flight());
}

#[test]
fn online_closing_restart_and_loss() {
    let mut l = Lifecycle::new(0, false, None, Some("no binary".to_string()));
    assert_eq!(l.status_line(), "Connecting…");
    assert_eq!(l.last_error().as_deref(), Some("no binary"));
    assert_eq!(l.step(10_000, false, AttemptPoll::Pending), LifecycleAction::Idle);
    assert!(l.engine_lost(20_000, "engine exited".to_string()));
    assert_eq!(l.last_error().as_deref(), Some("engine exited"));
    assert_eq!(l.step(21_999, true, AttemptPoll::Pending), LifecycleAction::Idle);
    assert_eq!(l.step(22_000, true, AttemptPoll::Pending), LifecycleAction::StartSpawn);
    l.restart(30_000);
    assert_eq!(l.status_line(), "Restarting engine…");
    assert_eq!(l.last_error(), None);
    l.close();
    assert_eq!(l.step(40_000, true, AttemptPoll::Succeeded), LifecycleAction::Idle);
    assert!(!l.engine_lost(40_000, "gone".to_string()));
}
