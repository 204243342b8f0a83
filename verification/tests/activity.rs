use inventory_agent::activity::{
    clean_window_title, idle_time_ms, interval_elapsed, ActivityTracker, InactivityMonitor,
    ThresholdCache,
};

/// `x` milliseconds in nanoseconds.
fn ms(x: u64) -> u64 {
    x * 1_000_000
}

fn title(t: &str) -> Option<String> {
    Some(t.to_string())
}

#[test]
fn browser_names_are_removed() {
    assert_eq!(clean_window_title("Rust Docs - Mozilla Firefox"), "Rust Docs - Firefox");
    assert_eq!(clean_window_title("Inbox - Microsoft Edge"), "Inbox - Edge");
    assert_eq!(clean_window_title("  Search - Brave  "), "Search -");
    assert_eq!(clean_window_title("News - Google Chrome"), "News - Google Chrome");
    assert_eq!(clean_window_title("Chrome Web Store - Google Chrome"), "Web Store - Google Chrome");
}

#[test]
fn other_titles_are_only_trimmed() {
    assert_eq!(clean_window_title("  Documento1 - Word \r\n"), "Documento1 - Word");
    assert_eq!(clean_window_title("Mozilla Thunderbird"), "Mozilla Thunderbird");
}

#[test]
fn first_window_reports_nothing() {
    let mut t = ActivityTracker::new(0);
    assert!(t.observe_window(ms(1_000), title("Planilha")).is_none());
    assert_eq!(t.last_window.as_deref(), Some("Planilha"));
    assert_eq!(t.start_time, ms(1_000));
}

#[test]
fn same_window_twice_reports_nothing() {
    let mut t = ActivityTracker::new(0);
    t.observe_window(ms(1_000), title("Planilha"));
    assert!(t.observe_window(ms(5_000), title("  Planilha ")).is_none());
    assert_eq!(t.start_time, ms(1_000));
}

#[test]
fn switch_reports_time_on_previous_page() {
    let mut t = ActivityTracker::new(0);
    t.observe_window(1_000, title("Planilha"));
    let r = t.observe_window(61_000_000_123, title("Email")).unwrap();
    assert_eq!(r.page, "Planilha");
    assert_eq!(r.elapsed_ns, 61_000_000_123 - 1_000);
    assert_eq!(t.last_window.as_deref(), Some("Email"));
    assert_eq!(t.start_time, 61_000_000_123);
}

#[test]
fn untitled_window_changes_nothing() {
    let mut t = ActivityTracker::new(0);
    t.observe_window(ms(1_000), title("Planilha"));
    assert!(t.observe_window(ms(2_000), None).is_none());
    assert_eq!(t.last_window.as_deref(), Some("Planilha"));
}

#[test]
fn active_ticks_report_page_time() {
    let mut t = ActivityTracker::new(0);
    assert!(t.tick(ms(1_000), 0, title("A")).is_empty());
    let reports = t.tick(ms(4_000), 500, title("B"));
    assert_eq!(reports.len(), 1);
    assert_eq!(reports[0].page, "A");
    assert_eq!(reports[0].elapsed_ns, ms(3_000));
    assert_eq!(t.last_active_time, ms(4_000));
}

#[test]
fn idle_tick_reports_time_away_while_recent() {
    let mut t = ActivityTracker::new(0);
    t.tick(ms(1_000), 0, title("A"));
    let reports = t.tick(ms(500_000), 700_000, title("A"));
    assert_eq!(reports.len(), 1);
    assert_eq!(reports[0].page, "Inativo");
    assert_eq!(reports[0].elapsed_ns, ms(499_000));
    assert_eq!(t.last_active_time, ms(1_000));
}

#[test]
fn idle_limit_is_strict() {
    let mut t = ActivityTracker::new(0);
    t.tick(ms(1_000), 0, title("A"));
    assert!(t.tick(ms(2_000), 600_000, title("A")).is_empty());
    assert_eq!(t.last_active_time, ms(2_000));
    assert_eq!(t.tick(ms(3_000), 600_001, title("A")).len(), 1);
}

#[test]
fn idle_tick_after_threshold_reports_nothing() {
    let mut t = ActivityTracker::new(0);
    t.tick(ms(1_000), 0, title("A"));
    assert!(t.tick(ms(700_000), 700_000, title("A")).is_empty());
    assert_eq!(t.last_active_time, ms(1_000));
}

#[test]
fn idle_tick_without_page_reports_nothing() {
    let mut t = ActivityTracker::new(0);
    assert!(t.tick(ms(1_000), 700_000, None).is_empty());
}

#[test]
fn return_after_absence_restarts_page_time() {
    let mut t = ActivityTracker::new(0);
    t.tick(ms(1_000), 0, title("A"));
    t.tick(ms(900_000), 800_000, title("A"));
    assert!(t.tick(ms(1_000_000), 0, title("A")).is_empty());
    assert_eq!(t.start_time, ms(1_000_000));
    let reports = t.tick(ms(1_010_000), 0, title("B"));
    assert_eq!(reports[0].page, "A");
    assert_eq!(reports[0].elapsed_ns, ms(10_000));
}

#[test]
fn away_and_switch_in_one_tick() {
    let mut t = ActivityTracker::new(0);
    t.tick(ms(1_000), 0, title("A"));
    let reports = t.tick(ms(200_000), 650_000, title("B"));
    assert_eq!(reports.len(), 2);
    assert_eq!(reports[0].page, "Inativo");
    assert_eq!(reports[0].elapsed_ns, ms(199_000));
    assert_eq!(reports[1].page, "A");
    assert_eq!(reports[1].elapsed_ns, ms(199_000));
}

/// Twenty minutes, in nanoseconds.
const TWENTY_MINUTES: u128 = 1_200_000_000_000;

#[test]
fn period_away_reported_once_with_threshold_added() {
    let mut m = InactivityMonitor::new(0);
    assert_eq!(m.tick(ms(10_000), 1_300_000, TWENTY_MINUTES), None);
    assert!(m.was_inactive);
    assert_eq!(m.inactive_start, ms(10_000));
    assert_eq!(m.tick(ms(70_000), 1_360_000, TWENTY_MINUTES), None);
    assert_eq!(m.inactive_start, ms(10_000));
    assert_eq!(m.tick(ms(100_000) + 7, 0, TWENTY_MINUTES), Some(TWENTY_MINUTES + ms(90_000) as u128 + 7));
    assert_eq!(m.pending, Some(TWENTY_MINUTES + ms(90_000) as u128 + 7));
    assert_eq!(m.tick(ms(101_000), 0, TWENTY_MINUTES), None);
}

#[test]
fn idle_equal_to_threshold_is_not_away() {
    let mut m = InactivityMonitor::new(0);
    assert_eq!(m.tick(ms(10_000), 1_200_000, TWENTY_MINUTES), None);
    assert!(!m.was_inactive);
}

#[test]
fn short_period_away_is_not_reported() {
    let mut m = InactivityMonitor::new(0);
    m.tick(ms(10_000), 5_000, ms(1_000) as u128);
    assert_eq!(m.tick(ms(10_000) + 999_999_999, 0, ms(1_000) as u128), None);
    assert!(!m.was_inactive);
    assert_eq!(m.pending, None);
}

#[test]
fn reason_taken_once() {
    let mut m = InactivityMonitor::new(0);
    m.tick(0, 10, 5);
    m.tick(ms(5_000), 0, 5);
    m.prompt_shown(ms(5_000));
    let r = m.take_reason("Reunião".to_string(), true).unwrap();
    assert_eq!(r.reason, "Reunião");
    assert_eq!(r.length_ns, ms(5_000) as u128 + 5);
    assert_eq!(m.prompt_shown_at, None);
    assert!(m.take_reason("Almoço".to_string(), true).is_none());
}

#[test]
fn reason_without_window_keeps_prompt_time() {
    let mut m = InactivityMonitor::new(0);
    m.tick(0, 10, 5);
    m.tick(ms(5_000), 0, 5);
    m.prompt_shown(ms(5_000));
    assert_eq!(m.take_reason("Almoço".to_string(), false).unwrap().length_ns, ms(5_000) as u128 + 5);
    assert_eq!(m.prompt_shown_at, Some(ms(5_000)));
}

#[test]
fn prompt_expires_once_after_five_minutes() {
    let mut m = InactivityMonitor::new(0);
    m.prompt_shown(ms(1_000));
    assert!(m.prompt_expired(ms(301_000) - 1).is_none());
    let r = m.prompt_expired(ms(301_000)).unwrap();
    assert_eq!(r.reason, "O usuario se recusou a fornecer o motivo.");
    assert_eq!(r.length_ns, 300_000_000_000);
    assert_eq!(m.prompt_shown_at, None);
    assert!(m.prompt_expired(ms(900_000)).is_none());
}

#[test]
fn prompt_closed() {
    let mut m = InactivityMonitor::new(0);
    m.prompt_shown(ms(1_000));
    m.prompt_closed(false);
    assert_eq!(m.prompt_shown_at, Some(ms(1_000)));
    m.prompt_closed(true);
    assert_eq!(m.prompt_shown_at, None);
}

#[test]
fn threshold_cache_refreshes_every_half_hour() {
    let mut c = ThresholdCache::new(0);
    assert_eq!(c.threshold_ns(), TWENTY_MINUTES);
    assert!(!c.needs_refresh(ms(1_800_000) - 1));
    assert!(c.needs_refresh(ms(1_800_000)));
    c.update(ms(1_800_000), 600);
    assert_eq!(c.threshold_ns(), 600_000_000_000);
    assert!(!c.needs_refresh(ms(1_800_000) + 1));
    c.update(0, u64::MAX);
    assert_eq!(c.threshold_ns(), u64::MAX as u128 * 1_000_000_000);
}

#[test]
fn intervals() {
    assert!(interval_elapsed(0, ms(60_000), ms(60_000)));
    assert!(!interval_elapsed(0, ms(60_000) - 1, ms(60_000)));
    assert!(!interval_elapsed(10, 5, 1));
}

#[test]
fn idle_time_wraps_with_tick_count() {
    assert_eq!(idle_time_ms(true, 5_000, 1_000), 4_000);
    assert_eq!(idle_time_ms(true, 100, u32::MAX - 99), 200);
    assert_eq!(idle_time_ms(false, 5_000, 1_000), 0);
    assert_eq!(idle_time_ms(true, 7, 7), 0);
}

#[test]
fn page_time_over_many_polls() {
    let mut t = ActivityTracker::new(0);
    t.tick(ms(500), 0, title("Outra"));
    assert_eq!(t.tick(ms(1_000), 0, title("A")).len(), 1);
    let mut now = ms(1_000);
    for _ in 0..50 {
        now += ms(1_000) + 17;
        assert!(t.tick(now, 200, title("A")).is_empty());
    }
    let reports = t.tick(now + ms(1_000), 0, title("B"));
    assert_eq!(reports.len(), 1);
    assert_eq!(reports[0].page, "A");
    assert_eq!(reports[0].elapsed_ns, now + ms(1_000) - ms(1_000));
}

#[test]
fn long_absence_length_is_exact() {
    let mut m = InactivityMonitor::new(0);
    let threshold = u64::MAX as u128 * 1_000_000_000;
    m.tick(0, 10, 5);
    assert_eq!(m.tick(u64::MAX, 0, threshold), Some(threshold + u64::MAX as u128));
}
