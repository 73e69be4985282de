use backup_stream::error::Error;
use backup_stream::region::{EpochOrder, ObserveHandle, Region, RegionEpoch};
use backup_stream::scan::{ScanAttempts, ScanStep};
use backup_stream::subscription_manager::{
    CheckpointLookup, OperatorInput, RefreshAction, RegionLookup, RegionSubscriptionManager,
    RetryAction, ScanCmd, SkipReason, StartAction,
};
use backup_stream::tracker::ObserveState;

fn region(id: u64, version: u64, conf_ver: u64, start_key: &[u8], end_key: &[u8]) -> Region {
    Region::new(
        id,
        start_key.to_vec(),
        end_key.to_vec(),
        RegionEpoch { conf_ver, version },
    )
}

/// Starts `r` and answers the checkpoint lookup with `ts`; returns the
/// handle of the scan dispatched.
fn start_with_checkpoint(m: &mut RegionSubscriptionManager, r: &Region, ts: u64) -> ObserveHandle {
    let h = m.start_observe(r);
    match m.on_checkpoint_lookup(r.clone(), h, 0, CheckpointLookup::Found(ts)) {
        StartAction::Scan(cmd) => {
            assert_eq!(cmd.region.id, r.id);
            assert_eq!(cmd.handle, h);
            assert_eq!(cmd.last_checkpoint, ts);
        }
        other => panic!("expected a scan, got {:?}", other),
    }
    h
}

#[test]
fn start_tracks_a_pending_record_with_a_fresh_handle() {
    let mut m = RegionSubscriptionManager::new();
    let r1 = region(1, 1, 1, b"a", b"b");
    let r2 = region(2, 1, 1, b"b", b"c");
    let h1 = m.start_observe(&r1);
    let h2 = m.start_observe(&r2);
    assert_ne!(h1, h2);
    let rec = m.record_of(1).unwrap();
    assert_eq!(rec.handle, h1);
    assert_eq!(rec.state, ObserveState::Pending);
    assert_eq!(rec.checkpoint, None);
    let mut rs = m.current_regions();
    rs.sort();
    assert_eq!(rs, vec![1, 2]);
}

#[test]
fn checkpoint_found_dispatches_a_scan_from_it() {
    let mut m = RegionSubscriptionManager::new();
    let r1 = region(1, 1, 1, b"a", b"b");
    let h = start_with_checkpoint(&mut m, &r1, 43);
    let rec = m.record_of(1).unwrap();
    assert_eq!(rec.handle, h);
    assert_eq!(rec.checkpoint, Some(43));
    assert_eq!(rec.state, ObserveState::Pending);
}

#[test]
fn no_task_abandons_the_start() {
    let mut m = RegionSubscriptionManager::new();
    let r1 = region(1, 1, 1, b"a", b"b");
    let h = m.start_observe(&r1);
    let a = m.on_checkpoint_lookup(r1.clone(), h, 0, CheckpointLookup::NoTask);
    assert!(matches!(a, StartAction::Abandon));
    assert_eq!(m.record_of(1).unwrap().checkpoint, None);
}

#[test]
fn failed_lookup_schedules_a_retry_after_backoff() {
    let mut m = RegionSubscriptionManager::new();
    let r1 = region(1, 1, 1, b"a", b"b");
    let h = m.start_observe(&r1);
    let a = m.on_checkpoint_lookup(
        r1.clone(),
        h,
        3,
        CheckpointLookup::Failed(Error::Other("Nature is boring".to_owned())),
    );
    match a {
        StartAction::RetryLater(retry) => {
            assert_eq!(retry.region.id, 1);
            assert_eq!(retry.handle, h);
            assert_eq!(retry.has_failed_for, 4);
            assert_eq!(retry.delay_secs, 8);
            assert!(matches!(retry.err, Error::Other(_)));
        }
        other => panic!("expected a retry, got {:?}", other),
    }
    let a = m.on_checkpoint_lookup(
        r1.clone(),
        h,
        u8::MAX,
        CheckpointLookup::Failed(Error::Other("again".to_owned())),
    );
    match a {
        StartAction::RetryLater(retry) => {
            assert_eq!(retry.has_failed_for, u8::MAX);
            assert_eq!(retry.delay_secs, 16);
        }
        other => panic!("expected a retry, got {:?}", other),
    }
}

#[test]
fn stop_is_idempotent() {
    let mut m = RegionSubscriptionManager::new();
    let r1 = region(1, 1, 1, b"a", b"b");
    let r2 = region(2, 1, 1, b"b", b"c");
    start_with_checkpoint(&mut m, &r1, 10);
    start_with_checkpoint(&mut m, &r2, 10);
    assert!(m.stop(&r1));
    assert!(!m.stop(&r1));
    assert!(m.record_of(1).is_none());
    assert_eq!(m.current_regions(), vec![2]);
    let mut empty = RegionSubscriptionManager::new();
    assert!(!empty.stop(&r1));
    assert!(empty.current_regions().is_empty());
}

#[test]
fn stop_ignores_the_epoch() {
    let mut m = RegionSubscriptionManager::new();
    start_with_checkpoint(&mut m, &region(1, 5, 5, b"a", b"b"), 10);
    assert!(m.stop(&region(1, 1, 1, b"a", b"b")));
    assert!(m.current_regions().is_empty());
}

#[test]
fn destroy_with_an_older_epoch_after_refresh_keeps_the_record() {
    let mut m = RegionSubscriptionManager::new();
    let old = region(1, 1, 1, b"a", b"b");
    let new = region(1, 2, 1, b"a", b"az");
    start_with_checkpoint(&mut m, &old, 10);
    let action = m.refresh_resolver(&new);
    let h = match action {
        RefreshAction::Rebootstrap(h) => h,
        other => panic!("expected a restart, got {:?}", other),
    };
    assert!(m.record_of(1).is_none());
    assert!(matches!(
        m.on_refresh_checkpoint_lookup(new.clone(), h, CheckpointLookup::Found(12)),
        StartAction::Scan(_)
    ));
    assert!(!m.destroy(&old));
    let rec = m.record_of(1).unwrap();
    assert_eq!(rec.region.epoch, RegionEpoch { conf_ver: 1, version: 2 });
    assert_eq!(rec.region.end_key, b"az".to_vec());
    assert!(m.destroy(&new));
    assert!(m.record_of(1).is_none());
}

#[test]
fn destroy_with_equal_or_newer_epoch_removes() {
    let mut m = RegionSubscriptionManager::new();
    start_with_checkpoint(&mut m, &region(1, 2, 2, b"a", b"b"), 10);
    assert!(!m.destroy(&region(1, 3, 1, b"a", b"b")));
    assert!(m.destroy(&region(1, 3, 2, b"a", b"b")));
    assert!(!m.destroy(&region(1, 3, 2, b"a", b"b")));
}

#[test]
fn refresh_with_same_range_updates_in_place() {
    let mut m = RegionSubscriptionManager::new();
    let h = start_with_checkpoint(&mut m, &region(1, 1, 1, b"a", b"b"), 10);
    assert!(m.on_scan_finished(1, h));
    let action = m.refresh_resolver(&region(1, 1, 2, b"a", b"b"));
    assert_eq!(action, RefreshAction::Updated);
    let rec = m.record_of(1).unwrap();
    assert_eq!(rec.handle, h);
    assert_eq!(rec.state, ObserveState::Observing);
    assert_eq!(rec.checkpoint, Some(10));
    assert_eq!(rec.region.epoch.conf_ver, 2);
}

#[test]
fn refresh_of_an_unknown_or_older_region_is_ignored() {
    let mut m = RegionSubscriptionManager::new();
    assert_eq!(m.refresh_resolver(&region(1, 1, 1, b"a", b"b")), RefreshAction::Ignored);
    assert!(m.current_regions().is_empty());
    start_with_checkpoint(&mut m, &region(1, 3, 3, b"a", b"b"), 10);
    assert_eq!(m.refresh_resolver(&region(1, 2, 3, b"a", b"c")), RefreshAction::Ignored);
    assert_eq!(m.record_of(1).unwrap().region.epoch.version, 3);
}

#[test]
fn epoch_comparison_is_three_way_over_both_counters() {
    let e = |conf_ver, version| RegionEpoch { conf_ver, version };
    assert_eq!(e(1, 1).compare(&e(1, 1)), EpochOrder::Same);
    assert_eq!(e(1, 2).compare(&e(1, 1)), EpochOrder::Newer);
    assert_eq!(e(2, 2).compare(&e(1, 1)), EpochOrder::Newer);
    assert_eq!(e(1, 1).compare(&e(1, 2)), EpochOrder::Older);
    assert_eq!(e(2, 1).compare(&e(1, 2)), EpochOrder::Diverged);
    assert!(e(2, 2).dominates(&e(2, 1)));
    assert!(!e(2, 1).dominates(&e(1, 2)));
}

#[test]
fn retry_of_the_current_attempt_restarts_it() {
    let mut m = RegionSubscriptionManager::new();
    let r1 = region(1, 1, 1, b"a", b"b");
    let h = m.start_observe(&r1);
    let a = m.retry_observe(r1.clone(), h, 2, RegionLookup::Found { is_leader: true });
    let h2 = match a {
        RetryAction::Restart { handle, has_failed_for } => {
            assert_eq!(has_failed_for, 2);
            handle
        }
        other => panic!("expected a restart, got {:?}", other),
    };
    assert_ne!(h, h2);
    assert_eq!(m.record_of(1).unwrap().handle, h2);
}

#[test]
fn retry_of_a_stale_attempt_is_skipped() {
    let mut m = RegionSubscriptionManager::new();
    let r1 = region(1, 1, 1, b"a", b"b");
    let h_old = m.start_observe(&r1);
    let h_new = m.start_observe(&r1);
    let a = m.retry_observe(r1.clone(), h_old, 1, RegionLookup::Found { is_leader: true });
    assert!(matches!(a, RetryAction::Skip(SkipReason::StaleCommand)));
    assert_eq!(m.record_of(1).unwrap().handle, h_new);
}

#[test]
fn retry_of_an_absent_or_not_led_region_is_skipped() {
    let mut m = RegionSubscriptionManager::new();
    let r1 = region(1, 1, 1, b"a", b"b");
    let h = m.start_observe(&r1);
    let a = m.retry_observe(r1.clone(), h, 1, RegionLookup::Absent);
    assert!(matches!(a, RetryAction::Skip(SkipReason::RegionAbsent)));
    let a = m.retry_observe(r1.clone(), h, 1, RegionLookup::Found { is_leader: false });
    assert!(matches!(a, RetryAction::Skip(SkipReason::NotLeader)));
    assert_eq!(m.record_of(1).unwrap().handle, h);
}

#[test]
fn retry_past_the_budget_is_fatal_for_the_range() {
    let mut m = RegionSubscriptionManager::new();
    let r1 = region(1, 1, 1, b"a", b"b");
    let h = m.start_observe(&r1);
    let a = m.retry_observe(r1.clone(), h, 24, RegionLookup::Found { is_leader: true });
    assert!(matches!(a, RetryAction::Restart { .. }));
    let h = m.record_of(1).unwrap().handle;
    let a = m.retry_observe(r1.clone(), h, 25, RegionLookup::Found { is_leader: true });
    match a {
        RetryAction::Fatal(f) => {
            assert_eq!(f.start_key, b"a".to_vec());
            assert_eq!(f.end_key, b"b".to_vec());
            assert!(matches!(f.err, Error::Contextual { .. }));
        }
        other => panic!("expected a fatal error, got {:?}", other),
    }
    assert_eq!(m.record_of(1).unwrap().handle, h);
}

#[test]
fn failed_region_lookup_is_fatal() {
    let mut m = RegionSubscriptionManager::new();
    let r1 = region(1, 1, 1, b"a", b"b");
    let h = m.start_observe(&r1);
    let lookup = RegionLookup::Failed(Error::Other("too busy".to_owned()));
    match m.retry_observe(r1.clone(), h, 1, lookup) {
        RetryAction::Fatal(f) => {
            assert_eq!(f.start_key, b"a".to_vec());
            match f.err.without_context() {
                Error::Other(msg) => assert_eq!(msg, "too busy"),
                other => panic!("unexpected cause {:?}", other),
            }
        }
        other => panic!("expected a fatal error, got {:?}", other),
    }
}

#[derive(Debug, PartialEq, Eq)]
enum ObserveEvent {
    Start(u64),
    RefreshObs(u64),
    StartResult(u64, bool),
}

/// Records the start of a scan that the operator dispatched.
fn dispatched(events: &mut Vec<ObserveEvent>, action: StartAction) -> ScanCmd {
    match action {
        StartAction::Scan(cmd) => {
            events.push(ObserveEvent::Start(cmd.region.id));
            cmd
        }
        other => panic!("expected a scan, got {:?}", other),
    }
}

/// Runs one attempt of `cmd` with `outcome` and records what the retry
/// policy made of it.
fn attempt(
    events: &mut Vec<ObserveEvent>,
    attempts: &mut ScanAttempts,
    cmd: &ScanCmd,
    outcome: Result<(), Error>,
) -> ScanStep {
    let step = attempts.on_outcome(&outcome);
    events.push(ObserveEvent::StartResult(cmd.region.id, step == ScanStep::Finished));
    step
}

/// Records the start of the next attempt of `cmd`, which only a retry step
/// allows.
fn restart(events: &mut Vec<ObserveEvent>, step: ScanStep, cmd: &ScanCmd) {
    assert!(matches!(step, ScanStep::RetryAfter(_)), "no retry after {:?}", step);
    events.push(ObserveEvent::Start(cmd.region.id));
}

/// Records a refresh that the operator acted on.
fn refreshed(events: &mut Vec<ObserveEvent>, region: &Region, action: RefreshAction) -> RefreshAction {
    if action != RefreshAction::Ignored {
        events.push(ObserveEvent::RefreshObs(region.id));
    }
    action
}

#[test]
fn test_basic_retry() {
    let mut events = vec![];
    let mut m = RegionSubscriptionManager::new();
    let r1 = region(1, 1, 1, b"a", b"b");
    let r2 = region(2, 1, 1, b"b", b"c");
    let h1 = m.start_observe(&r1);
    let cmd1 = dispatched(&mut events, m.on_checkpoint_lookup(r1.clone(), h1, 0, CheckpointLookup::Found(43)));
    let h2 = m.start_observe(&r2);
    let cmd2 = dispatched(&mut events, m.on_checkpoint_lookup(r2.clone(), h2, 0, CheckpointLookup::Found(43)));
    let mut attempts1 = ScanAttempts::new();
    let mut attempts2 = ScanAttempts::new();
    let step = attempt(&mut events, &mut attempts1, &cmd1, Err(Error::OutOfQuota { region_id: 1 }));
    assert_eq!(step, ScanStep::RetryAfter(1));
    // The retry of region 1 runs after its one-second backoff, when region
    // 2 is done.
    assert_eq!(attempt(&mut events, &mut attempts2, &cmd2, Ok(())), ScanStep::Finished);
    assert!(m.on_scan_finished(2, cmd2.handle));
    restart(&mut events, step, &cmd1);
    assert_eq!(attempt(&mut events, &mut attempts1, &cmd1, Ok(())), ScanStep::Finished);
    assert!(m.on_scan_finished(1, cmd1.handle));
    assert_eq!(m.record_of(1).unwrap().state, ObserveState::Observing);
    assert_eq!(m.record_of(2).unwrap().state, ObserveState::Observing);
    assert_eq!(
        events,
        [
            ObserveEvent::Start(1),
            ObserveEvent::Start(2),
            ObserveEvent::StartResult(1, false),
            ObserveEvent::StartResult(2, true),
            ObserveEvent::Start(1),
            ObserveEvent::StartResult(1, true)
        ]
    );
}

#[test]
fn test_always_failure_initial_scan() {
    let mut events = vec![];
    let mut m = RegionSubscriptionManager::new();
    let r1 = region(1, 1, 1, b"a", b"b");
    let target: u64 = 300;
    let mut now: u64 = 0;
    let h = m.start_observe(&r1);
    let cmd = dispatched(&mut events, m.on_checkpoint_lookup(r1.clone(), h, 0, CheckpointLookup::Found(43)));
    let mut attempts = ScanAttempts::new();
    loop {
        let outcome = if now < target {
            Err(Error::Other(format!(
                "work in progress now... please wait more {:?}",
                target - now
            )))
        } else {
            Ok(())
        };
        let step = attempt(&mut events, &mut attempts, &cmd, outcome);
        match step {
            ScanStep::RetryAfter(secs) => {
                restart(&mut events, step, &cmd);
                now += secs;
            }
            ScanStep::Finished => break,
            other => panic!("unexpected step {:?}", other),
        }
    }
    assert!(m.on_scan_finished(1, h));
    let mut rem: &[ObserveEvent] = &events;
    let mut count = 0;
    while rem.starts_with(&[ObserveEvent::Start(1), ObserveEvent::StartResult(1, false)]) {
        rem = &rem[2..];
        count += 1;
    }
    assert!(count > 0);
    assert_eq!(rem, [ObserveEvent::Start(1), ObserveEvent::StartResult(1, true)]);
}

#[test]
fn test_region_split_inflight() {
    let mut events = vec![];
    let mut m = RegionSubscriptionManager::new();
    let before_split = region(1, 1, 1, b"a", b"b");
    let after_split = region(1, 2, 1, b"a", b"az");
    let h1 = m.start_observe(&before_split);
    events.push(ObserveEvent::Start(before_split.id));
    let action = refreshed(&mut events, &after_split, m.refresh_resolver(&after_split));
    let h2 = match action {
        RefreshAction::Rebootstrap(h) => h,
        other => panic!("expected a restart, got {:?}", other),
    };
    assert_ne!(h1, h2);
    // The first attempt was cleared: its scan can no longer finish it.
    assert!(!m.on_scan_finished(1, h1));
    let cmd = match m.on_refresh_checkpoint_lookup(after_split.clone(), h2, CheckpointLookup::Found(43)) {
        StartAction::Scan(cmd) => cmd,
        other => panic!("expected a scan, got {:?}", other),
    };
    assert_eq!(cmd.region.end_key, b"az".to_vec());
    let mut attempts = ScanAttempts::new();
    assert_eq!(attempt(&mut events, &mut attempts, &cmd, Ok(())), ScanStep::Finished);
    assert!(m.on_scan_finished(1, cmd.handle));
    assert_eq!(m.current_regions(), vec![1]);
    let rec = m.record_of(1).unwrap();
    assert_eq!(rec.state, ObserveState::Observing);
    assert_eq!(rec.region.epoch.version, 2);
    assert_eq!(
        events,
        [ObserveEvent::Start(1), ObserveEvent::RefreshObs(1), ObserveEvent::StartResult(1, true)]
    );
}

#[test]
fn test_unretryable_failure() {
    let mut events = vec![];
    let mut m = RegionSubscriptionManager::new();
    let r1 = region(1, 1, 1, b"a", b"b");
    let h = m.start_observe(&r1);
    let cmd = dispatched(&mut events, m.on_checkpoint_lookup(r1.clone(), h, 0, CheckpointLookup::Found(43)));
    let mut attempts = ScanAttempts::new();
    let step = attempt(
        &mut events,
        &mut attempts,
        &cmd,
        Err(Error::EpochNotMatch("Testing Testing".to_owned())),
    );
    assert_eq!(step, ScanStep::Abandoned);
    assert!(attempts.done());
    let r2 = region(1, 2, 1, b"a", b"az");
    let h2 = match refreshed(&mut events, &r2, m.refresh_resolver(&r2)) {
        RefreshAction::Rebootstrap(h2) => h2,
        other => panic!("expected a restart, got {:?}", other),
    };
    assert_ne!(h, h2);
    let cmd2 = match m.on_refresh_checkpoint_lookup(r2.clone(), h2, CheckpointLookup::Found(43)) {
        StartAction::Scan(cmd2) => cmd2,
        other => panic!("expected a scan, got {:?}", other),
    };
    let mut attempts = ScanAttempts::new();
    assert_eq!(attempt(&mut events, &mut attempts, &cmd2, Ok(())), ScanStep::Finished);
    assert!(m.on_scan_finished(1, h2));
    assert_eq!(
        events,
        [
            ObserveEvent::Start(1),
            ObserveEvent::StartResult(1, false),
            ObserveEvent::RefreshObs(1),
            ObserveEvent::StartResult(1, true)
        ]
    );
}

#[test]
fn failed_refresh_lookup_is_reported_at_once_as_first_failure() {
    let mut m = RegionSubscriptionManager::new();
    let old = region(1, 1, 1, b"a", b"b");
    let new = region(1, 2, 1, b"a", b"az");
    let h_old = start_with_checkpoint(&mut m, &old, 10);
    let h = match m.refresh_resolver(&new) {
        RefreshAction::Rebootstrap(h) => h,
        other => panic!("expected a restart, got {:?}", other),
    };
    assert_ne!(h, h_old);
    let err = Error::Other("meta store unavailable".to_owned());
    match m.on_refresh_checkpoint_lookup(new.clone(), h, CheckpointLookup::Failed(err)) {
        StartAction::RetryLater(retry) => {
            assert_eq!(retry.has_failed_for, 0);
            assert_eq!(retry.delay_secs, 0);
            assert_eq!(retry.handle, h);
            assert_eq!(retry.region.end_key, b"az".to_vec());
        }
        other => panic!("expected a retry, got {:?}", other),
    }
    let rec = m.record_of(1).unwrap();
    assert_eq!(rec.handle, h);
    assert_eq!(rec.state, ObserveState::Pending);
    assert_eq!(rec.checkpoint, None);
    // The retry of this attempt goes on.
    let a = m.retry_observe(new.clone(), h, 0, RegionLookup::Found { is_leader: true });
    assert!(matches!(a, RetryAction::Restart { has_failed_for: 0, .. }));
}

#[test]
fn refresh_without_task_leaves_the_region_cleared() {
    let mut m = RegionSubscriptionManager::new();
    start_with_checkpoint(&mut m, &region(1, 1, 1, b"a", b"b"), 10);
    let new = region(1, 2, 1, b"a", b"az");
    let h = match m.refresh_resolver(&new) {
        RefreshAction::Rebootstrap(h) => h,
        other => panic!("expected a restart, got {:?}", other),
    };
    let a = m.on_refresh_checkpoint_lookup(new.clone(), h, CheckpointLookup::NoTask);
    assert!(matches!(a, StartAction::Abandon));
    assert!(m.record_of(1).is_none());
    assert!(m.current_regions().is_empty());
}

#[test]
fn restarted_attempts_get_handles_never_seen_before() {
    let mut m = RegionSubscriptionManager::new();
    let r1 = region(1, 1, 1, b"a", b"b");
    let r2 = region(2, 1, 1, b"b", b"c");
    let h1 = start_with_checkpoint(&mut m, &r1, 10);
    let h2 = start_with_checkpoint(&mut m, &r2, 10);
    let h3 = match m.retry_observe(r1.clone(), h1, 1, RegionLookup::Found { is_leader: true }) {
        RetryAction::Restart { handle, .. } => handle,
        other => panic!("expected a restart, got {:?}", other),
    };
    assert!(h3 != h1 && h3 != h2);
    assert!(m.issued(h3));
    assert!(!m.issued(ObserveHandle { id: h3.id + 1 }));
    assert!(m.can_issue_handle());
}

#[test]
fn replay_applies_operations_in_arrival_order() {
    let r1 = region(1, 1, 1, b"a", b"b");
    let r1_new = region(1, 2, 1, b"a", b"az");
    let r2 = region(2, 1, 1, b"b", b"c");
    let ops = || {
        vec![
            OperatorInput::Start { region: r1.clone() },
            OperatorInput::CheckpointLookedUp {
                region: r1.clone(),
                handle: ObserveHandle { id: 0 },
                has_failed_for: 0,
                lookup: CheckpointLookup::Found(7),
            },
            OperatorInput::Start { region: r2.clone() },
            OperatorInput::RefreshResolver { region: r1_new.clone() },
            OperatorInput::RefreshCheckpointLookedUp {
                region: r1_new.clone(),
                handle: ObserveHandle { id: 2 },
                lookup: CheckpointLookup::Found(9),
            },
            OperatorInput::Destroy { region: r1.clone() },
            OperatorInput::Stop { region: r2.clone() },
            OperatorInput::ScanFinished { region_id: 1, handle: ObserveHandle { id: 2 } },
        ]
    };
    let mut a = RegionSubscriptionManager::new();
    let mut b = RegionSubscriptionManager::new();
    assert_eq!(a.replay(ops()), 8);
    assert_eq!(b.replay(ops()), 8);
    for m in [&a, &b] {
        assert_eq!(m.current_regions(), vec![1]);
        let rec = m.record_of(1).unwrap();
        assert_eq!(rec.handle, ObserveHandle { id: 2 });
        assert_eq!(rec.checkpoint, Some(9));
        assert_eq!(rec.state, ObserveState::Observing);
        assert_eq!(rec.region.end_key, b"az".to_vec());
    }
    // Swapping the stop and the start of region 2 changes the outcome.
    let mut c = RegionSubscriptionManager::new();
    let swapped = vec![
        OperatorInput::Stop { region: r2.clone() },
        OperatorInput::Start { region: r2.clone() },
    ];
    assert_eq!(c.replay(swapped), 2);
    assert_eq!(c.current_regions(), vec![2]);
}

#[test]
fn replay_stops_at_an_answer_for_an_unknown_handle() {
    let r1 = region(1, 1, 1, b"a", b"b");
    let mut m = RegionSubscriptionManager::new();
    let ops = vec![
        OperatorInput::Start { region: r1.clone() },
        OperatorInput::CheckpointLookedUp {
            region: r1.clone(),
            handle: ObserveHandle { id: 5 },
            has_failed_for: 0,
            lookup: CheckpointLookup::Found(7),
        },
        OperatorInput::Stop { region: r1.clone() },
    ];
    assert_eq!(m.replay(ops), 1);
    assert_eq!(m.current_regions(), vec![1]);
}

#[test]
fn scan_fatal_error_names_the_region_range() {
    let cmd = ScanCmd {
        region: region(1, 1, 1, b"a", b"b"),
        handle: ObserveHandle { id: 0 },
        last_checkpoint: 3,
    };
    let fatal = cmd.fatal_error(Error::Other("backend".to_owned()));
    assert_eq!(fatal.start_key, b"a".to_vec());
    assert_eq!(fatal.end_key, b"b".to_vec());
    match &fatal.err {
        Error::Contextual { context, inner_error } => {
            assert_eq!(context, "retry time exceeds");
            assert!(matches!(**inner_error, Error::Other(_)));
        }
        other => panic!("unexpected error {:?}", other),
    }
}
