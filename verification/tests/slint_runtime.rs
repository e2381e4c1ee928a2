use std::sync::atomic::{AtomicUsize, Ordering};
use std::sync::Arc;

use hypr_commons::duration::Duration;
use hypr_commons::slint_runtime::{
    any_animating,
    DirtySet, FakeClock, IdleScheduler, Metrics, MetricsSnapshot, WaitDecision, WakeHandle,
    SLINT_VERSION,
};

#[test]
fn static_idle_blocks_indefinitely_regardless_of_output_count() {
    let scheduler = IdleScheduler::default();
    for outputs in [0, 1, 3, 32] {
        let mut dirty = DirtySet::new();
        for output in 0..outputs {
            dirty.mark(output);
        }
        dirty.take_all();
        assert_eq!(scheduler.decide(false, None), WaitDecision::Indefinite);
        assert!(dirty.is_empty());
    }
}

#[test]
fn timer_and_frame_decisions_use_real_deadlines() {
    let scheduler = IdleScheduler::new(Duration::from_millis(16));
    assert_eq!(
        scheduler.decide(false, Some(Duration::from_secs(60))),
        WaitDecision::Timer(Duration::from_secs(60))
    );
    assert_eq!(
        scheduler.decide(true, None),
        WaitDecision::Frame(Duration::from_millis(16))
    );
    assert_eq!(
        scheduler.decide(true, Some(Duration::from_millis(4))),
        WaitDecision::Frame(Duration::from_millis(4))
    );
}

#[test]
fn wake_requests_coalesce_until_acknowledged() {
    let calls = Arc::new(AtomicUsize::new(0));
    let seen = calls.clone();
    let mut wake = WakeHandle::new(move || {
        seen.fetch_add(1, Ordering::SeqCst);
    });
    assert!(wake.wake());
    assert!(!wake.wake());
    assert_eq!(calls.load(Ordering::SeqCst), 1);
    assert!(wake.acknowledge());
    assert!(wake.wake());
    assert_eq!(calls.load(Ordering::SeqCst), 2);
}

#[test]
fn redraw_only_marks_its_output_and_wakes_once() {
    let mut dirty = DirtySet::new();
    let mut metrics = Metrics::new();
    let calls = Arc::new(AtomicUsize::new(0));
    let seen = calls.clone();
    let mut wake = WakeHandle::new(move || {
        seen.fetch_add(1, Ordering::SeqCst);
    });
    let one = wake.redraw_handle("one");
    let two = wake.redraw_handle("two");
    assert!(one.request_redraw(&mut dirty, &mut metrics, &mut wake));
    assert!(!one.request_redraw(&mut dirty, &mut metrics, &mut wake));
    assert!(!two.request_redraw(&mut dirty, &mut metrics, &mut wake));
    assert_eq!(dirty.take_all(), vec!["one", "two"]);
    assert_eq!(calls.load(Ordering::SeqCst), 1);
    assert_eq!(metrics.snapshot().redraw_requests, 3);
    assert_eq!(metrics.snapshot().buffer_acquires, 0);
}

#[test]
fn fake_clock_models_minute_boundary_without_polling() {
    let mut clock = FakeClock::new();
    let deadline = clock.deadline_after(Duration::from_secs(60));
    clock.advance(Duration::from_secs(59));
    assert_eq!(clock.remaining_until(deadline), Duration::from_secs(1));
    clock.advance(Duration::from_secs(1));
    assert_eq!(clock.remaining_until(deadline), Duration::zero());
}

#[test]
fn metrics_distinguish_intent_from_expensive_work() {
    let mut metrics = Metrics::new();
    metrics.record_wake();
    metrics.record_redraw_request();
    metrics.record_buffer_acquire();
    metrics.record_render();
    metrics.record_commit();
    assert_eq!(
        metrics.snapshot(),
        MetricsSnapshot {
            wake_requests: 1,
            redraw_requests: 1,
            buffer_acquires: 1,
            renders: 1,
            commits: 1,
        }
    );
}

#[test]
fn take_all_drains_in_ascending_order_without_duplicates() {
    let mut dirty = DirtySet::new();
    assert!(dirty.mark(7u32));
    assert!(dirty.mark(3u32));
    assert!(!dirty.mark(7u32));
    assert!(dirty.mark(5u32));
    assert_eq!(dirty.len(), 3);
    assert_eq!(dirty.take_all(), vec![3, 5, 7]);
    assert_eq!(dirty.len(), 0);
    assert!(dirty.take_all().is_empty());
}

#[test]
fn a_frame_is_never_later_than_the_frame_interval() {
    let scheduler = IdleScheduler::new(Duration::from_millis(16));
    assert_eq!(
        scheduler.decide(true, Some(Duration::from_secs(60))),
        WaitDecision::Frame(Duration::from_millis(16))
    );
    assert_eq!(
        scheduler.decide(false, Some(Duration::from_millis(4))),
        WaitDecision::Timer(Duration::from_millis(4))
    );
    assert_eq!(
        IdleScheduler::default().decide(true, None),
        WaitDecision::Frame(Duration::from_nanos(16_666_667))
    );
}

#[test]
fn acknowledging_without_a_pending_edge_reports_none() {
    let mut wake = WakeHandle::new(|| {});
    assert!(!wake.is_pending());
    assert!(!wake.acknowledge());
    assert!(wake.wake());
    assert!(wake.is_pending());
    assert!(wake.acknowledge());
    assert!(!wake.is_pending());
}

#[test]
fn metrics_counters_wrap_like_an_atomic_add() {
    let mut metrics = Metrics::new();
    for _ in 0..3 {
        metrics.record_commit();
    }
    assert_eq!(metrics.snapshot().commits, 3);
    assert_eq!(metrics.snapshot().renders, 0);
    assert_eq!(metrics.snapshot().wake_requests, 0);
}

#[test]
fn the_fake_clock_saturates_instead_of_overflowing() {
    let mut clock = FakeClock::new();
    assert_eq!(clock.now(), Duration::zero());
    let far = Duration::new(u64::MAX, 999_999_999);
    assert_eq!(clock.advance(far), Duration::max());
    assert_eq!(clock.advance(Duration::from_secs(1)), Duration::max());
    assert_eq!(clock.deadline_after(Duration::from_secs(5)), Duration::max());
    assert_eq!(clock.remaining_until(Duration::from_secs(5)), Duration::zero());
}

#[test]
fn durations_convert_exactly() {
    let d = Duration::new(3, 2_000_000_500);
    assert_eq!(d.as_secs(), 5);
    assert_eq!(d.subsec_nanos(), 500);
    assert_eq!(d.as_nanos(), 5_000_000_500);
    assert_eq!(d.as_micros(), 5_000_000);
    assert_eq!(Duration::from_micros(1_500).as_nanos(), 1_500_000);
    assert_eq!(
        Duration::from_secs(2).saturating_sub(Duration::from_secs(3)),
        Duration::zero()
    );
    assert_eq!(
        Duration::from_secs(2).min(Duration::from_millis(2500)),
        Duration::from_secs(2)
    );
}

#[test]
fn the_pinned_slint_release_is_recorded() {
    assert_eq!(SLINT_VERSION, "1.17.1");
}

#[test]
fn std_durations_convert_to_the_same_length() {
    let d = hypr_commons::duration::from_std(std::time::Duration::new(3, 5));
    assert_eq!(d.as_nanos(), 3_000_000_005);
    let d = hypr_commons::duration::from_std(std::time::Duration::from_nanos(16_666_667));
    assert_eq!(d, Duration::from_nanos(16_666_667));
}

#[test]
fn with_no_windows_and_no_timers_slint_lets_the_loop_block() {
    let scheduler = IdleScheduler::default();
    assert_eq!(scheduler.from_slint(&[]), WaitDecision::Indefinite);
}

#[test]
fn any_window_animating_keeps_the_frame_clock() {
    assert!(!any_animating(&[]));
    assert!(!any_animating(&[false, false]));
    assert!(any_animating(&[false, true, false]));
    let scheduler = IdleScheduler::new(Duration::from_millis(16));
    assert_eq!(
        scheduler.decide(any_animating(&[false, true]), None),
        WaitDecision::Frame(Duration::from_millis(16))
    );
}
