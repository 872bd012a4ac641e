use pvf_prepare_worker::tracker::clamp_peak;
use pvf_prepare_worker::tracker::MemoryTracker;

#[test]
fn peak_follows_the_running_total() {
    let mut t = MemoryTracker::new();
    t.start_tracking(None);
    t.on_alloc(100);
    t.on_dealloc(50);
    t.on_alloc(10);
    // 100 was the high-water mark: 50 + 10 = 60 never exceeded it.
    assert_eq!(t.end_tracking(), 100);
}

#[test]
fn ceiling_fires_exactly_once() {
    let mut t = MemoryTracker::new();
    t.start_tracking(Some(64));
    assert!(!t.on_alloc(64)); // exactly at the ceiling: not over it
    assert!(t.on_alloc(1)); // first crossing
    assert!(!t.on_alloc(1000)); // already breached: never fires again
    t.on_dealloc(2000);
    assert!(!t.on_alloc(1)); // the breach is for the whole session
    assert!(t.end_tracking() >= 65);
}

#[test]
fn no_ceiling_means_no_enforcement() {
    let mut t = MemoryTracker::new();
    t.start_tracking(None);
    assert!(!t.on_alloc(1_000_000_000));
    assert!(!t.on_alloc(1_000_000_000));
    assert_eq!(t.end_tracking(), 2_000_000_000);
}

#[test]
fn negative_peak_reading_clamps_to_zero() {
    let mut t = MemoryTracker::new();
    t.start_tracking(None);
    // Freeing memory allocated before the session drives the total, and
    // hence the reported peak, negative.
    t.on_dealloc(4096);
    let peak = t.end_tracking();
    assert_eq!(peak, 0);
    assert_eq!(clamp_peak(peak), 0);
    assert_eq!(clamp_peak(-4096), 0);
    assert_eq!(clamp_peak(4096), 4096);
}

#[test]
fn sessions_do_not_share_state() {
    // Trackers model per-process sessions: what one session observed is
    // invisible to another.
    let mut first = MemoryTracker::new();
    first.start_tracking(Some(1000));
    first.on_alloc(900);

    let mut second = MemoryTracker::new();
    second.start_tracking(Some(1000));
    assert!(!second.on_alloc(200)); // 900 + 200 would have crossed a shared ceiling
    assert_eq!(second.end_tracking(), 200); // not 1100, and not first's 900

    assert_eq!(first.end_tracking(), 900); // untouched by second's session
}

#[test]
fn a_fresh_session_starts_from_zero() {
    let mut t = MemoryTracker::new();
    t.start_tracking(None);
    t.on_alloc(5000);
    assert_eq!(t.end_tracking(), 5000);
    // The same tracker, re-armed, reports only what the new session saw.
    t.start_tracking(None);
    t.on_alloc(3);
    assert_eq!(t.end_tracking(), 3);
}
