use discord_rpc::scheduler::{
    tick_period_secs, PublishOutcome, Scheduler, TickEvent, TickOutcome, CONNECT_GRACE_SECS,
    IDLE_WAIT_SECS, MULTI_KIND_TICK_SECS, RESTART_COOLDOWN_SECS, SINGLE_KIND_TICK_SECS,
};

fn delivered() -> TickEvent {
    TickEvent::Published { outcome: PublishOutcome::Delivered }
}

#[test]
fn new_run_starts_at_first_enabled_with_nothing_visible() {
    let enabled = vec![false, true, true];
    let s = Scheduler::new(&enabled);
    assert_eq!(s.active, 1);
    assert_eq!(s.visible, vec![false, false, false]);
}

#[test]
fn plan_keeps_an_enabled_active_kind() {
    let enabled = vec![true, true];
    let s = Scheduler::new(&enabled);
    assert_eq!(s.plan(&enabled), Some(0));
}

#[test]
fn plan_advances_off_a_disabled_active_kind() {
    let enabled = vec![true, true];
    let s = Scheduler::new(&enabled);
    // The active kind is disabled between ticks; the next rotation check
    // moves on without fetching for it.
    let now_disabled = vec![false, true];
    assert_eq!(s.plan(&now_disabled), Some(1));
}

#[test]
fn disabling_the_only_enabled_kind_idles_within_one_check() {
    let enabled = vec![true];
    let s = Scheduler::new(&enabled);
    assert_eq!(s.plan(&enabled), Some(0));
    let all_off = vec![false];
    assert_eq!(s.plan(&all_off), None);
}

#[test]
fn all_disabled_from_the_start_idles() {
    let enabled = vec![false, false, false];
    let s = Scheduler::new(&enabled);
    assert_eq!(s.plan(&enabled), None);
}

#[test]
fn delivered_publish_leaves_exactly_one_visible_and_advances() {
    let enabled = vec![true, true, true];
    let mut s = Scheduler::new(&enabled);
    let out = s.apply(&enabled, 0, delivered());
    assert_eq!(out, TickOutcome::Continue);
    assert_eq!(s.visible, vec![true, false, false]);
    assert_eq!(s.active, 1);
    let visible_enabled = s.visible.iter().filter(|&&v| v).count();
    assert_eq!(visible_enabled, 1);
}

#[test]
fn delivered_publish_clears_only_enabled_siblings() {
    // A kind disabled mid-run keeps whatever status stood on its channel:
    // only enabled siblings are cleared.
    let enabled = vec![true, true, true];
    let mut s = Scheduler::new(&enabled);
    assert_eq!(s.apply(&enabled, 0, delivered()), TickOutcome::Continue);
    let water_off = vec![true, false, true];
    assert_eq!(s.apply(&water_off, 2, delivered()), TickOutcome::Continue);
    assert_eq!(s.visible, vec![false, false, true]);

    let mut t = Scheduler::new(&enabled);
    assert_eq!(t.apply(&enabled, 0, delivered()), TickOutcome::Continue);
    assert_eq!(t.apply(&water_off, 2, delivered()), TickOutcome::Continue);
    // Steps' status was cleared; the disabled water kind never had one.
    assert_eq!(t.visible.iter().filter(|&&v| v).count(), 1);
}

#[test]
fn fetch_failure_continues_rotation() {
    let enabled = vec![true, true];
    let mut s = Scheduler::new(&enabled);
    let out = s.apply(&enabled, 0, TickEvent::FetchFailed { degraded_shown: true });
    assert_eq!(out, TickOutcome::Continue);
    assert_eq!(s.active, 1);
    // The degraded status stands on the failed kind; nothing was cleared.
    assert_eq!(s.visible, vec![true, false]);
}

#[test]
fn fetch_failure_with_unsettled_degraded_status_still_continues() {
    let enabled = vec![true, true];
    let mut s = Scheduler::new(&enabled);
    let out = s.apply(&enabled, 0, TickEvent::FetchFailed { degraded_shown: false });
    assert_eq!(out, TickOutcome::Continue);
    assert_eq!(s.active, 1);
    assert_eq!(s.visible, vec![false, false]);
}

#[test]
fn publish_channel_error_terminates_whatever_kind_is_active() {
    for active in 0..3usize {
        let enabled = vec![true, true, true];
        let mut s = Scheduler::new(&enabled);
        for _ in 0..active {
            assert_eq!(s.apply(&enabled, s.active, delivered()), TickOutcome::Continue);
        }
        assert_eq!(s.active, active);
        let out = s.apply(
            &enabled,
            active,
            TickEvent::Published { outcome: PublishOutcome::ChannelError },
        );
        assert_eq!(out, TickOutcome::Terminate);
        assert_eq!(s.active, active);
    }
}

#[test]
fn publish_fault_terminates_like_a_channel_error() {
    let enabled = vec![true, true];
    let mut s = Scheduler::new(&enabled);
    let out = s.apply(&enabled, 0, TickEvent::Published { outcome: PublishOutcome::Fault });
    assert_eq!(out, TickOutcome::Terminate);
    assert_eq!(s.visible, vec![false, false]);
}

#[test]
fn three_kind_run_end_to_end() {
    // Three kinds enabled: steps publishes and advances; water's fetch
    // fails, shows the degraded status, and rotation still advances; the
    // sleep publish fails and the run ends; the supervisor rebuilds a
    // fresh run back at steps.
    let enabled = vec![true, true, true];
    let mut s = Scheduler::new(&enabled);
    assert_eq!(s.active, 0);

    // First tick: steps fetches and publishes; water and sleep are clear.
    assert_eq!(s.plan(&enabled), Some(0));
    assert_eq!(s.apply(&enabled, 0, delivered()), TickOutcome::Continue);
    assert_eq!(s.visible, vec![true, false, false]);
    assert_eq!(s.active, 1);

    // Second tick: water's fetch fails; the degraded status stands on
    // water and rotation advances to sleep.
    assert_eq!(s.plan(&enabled), Some(1));
    let out = s.apply(&enabled, 1, TickEvent::FetchFailed { degraded_shown: true });
    assert_eq!(out, TickOutcome::Continue);
    assert_eq!(s.active, 2);

    // Third tick: sleep's publish fails; the run terminates.
    assert_eq!(s.plan(&enabled), Some(2));
    let out = s.apply(&enabled, 2, TickEvent::Published { outcome: PublishOutcome::ChannelError });
    assert_eq!(out, TickOutcome::Terminate);

    // The supervisor rebuilds every session and resumes at steps.
    let rebuilt = Scheduler::new(&enabled);
    assert_eq!(rebuilt.active, 0);
    assert_eq!(rebuilt.visible, vec![false, false, false]);
}

#[test]
fn tick_period_is_quicker_for_a_single_kind() {
    assert_eq!(tick_period_secs(1), 30);
    assert_eq!(tick_period_secs(2), 60);
    assert_eq!(tick_period_secs(3), 60);
    assert_eq!(tick_period_secs(0), 60);
    assert_eq!(SINGLE_KIND_TICK_SECS, 30);
    assert_eq!(MULTI_KIND_TICK_SECS, 60);
}

#[test]
fn supervisor_periods_are_fixed() {
    assert_eq!(RESTART_COOLDOWN_SECS, 5);
    assert_eq!(CONNECT_GRACE_SECS, 2);
    assert_eq!(IDLE_WAIT_SECS, 60);
}
