use sema::checkers::Alert;
use sema::config::Severity;
use sema::sink::{PendingAlert, Sink};

const SEC: u64 = 1_000_000;
const T0: u64 = 1_000 * SEC;

fn alert(sev: Severity, summary: &str, body: &str) -> Alert {
    Alert { severity: sev, summary: summary.to_string(), body: body.to_string() }
}

#[test]
fn can_notify_returns_true_when_no_previous_notification() {
    let sink = Sink::new(true, false, 60);
    assert!(sink.can_notify("test", 60, T0));
}

#[test]
fn can_notify_returns_false_within_cooldown() {
    let mut sink = Sink::new(true, false, 60);
    sink.mark_notified("test", false, T0);
    assert!(!sink.can_notify("test", 60, T0));
}

#[test]
fn can_notify_returns_true_after_cooldown() {
    let mut sink = Sink::new(true, false, 60);
    let past = T0 - 120 * SEC;
    sink.mark_notified("test", false, past);
    assert!(sink.can_notify("test", 60, T0));
}

#[test]
fn can_notify_zero_cooldown_always_true() {
    let mut sink = Sink::new(true, false, 60);
    sink.mark_notified("test", false, T0);
    // can_notify is only called when cooldown > 0 in production
    assert!(sink.can_notify("test", 0, T0));
}

#[test]
fn note_active_tracks_transition() {
    let mut sink = Sink::new(true, false, 60);
    assert!(!sink.note_active("cpu", true, T0));
    assert!(sink.is_active("cpu"));
    assert!(sink.condition_start("cpu").is_some());

    assert!(!sink.note_active("cpu", true, T0 + SEC));

    assert!(sink.note_active("cpu", false, T0 + 2 * SEC));
    assert!(!sink.is_active("cpu"));
    assert!(sink.condition_start("cpu").is_none());

    assert!(!sink.note_active("cpu", false, T0 + 3 * SEC));
}

#[test]
fn duration_text_returns_empty_when_never_started() {
    let sink = Sink::new(true, false, 60);
    assert_eq!(sink.duration_text("cpu", T0), "");
}

#[test]
fn duration_text_returns_seconds_for_short_duration() {
    let mut sink = Sink::new(true, false, 60);
    sink.note_active("cpu", true, T0);
    let text = sink.duration_text("cpu", T0);
    assert!(text.starts_with("for "));
    assert!(text.ends_with('s'));
}

#[test]
fn duration_text_empty_after_deactivation() {
    let mut sink = Sink::new(true, false, 60);
    sink.note_active("cpu", true, T0);
    sink.note_active("cpu", false, T0 + 5_000);
    assert_eq!(sink.duration_text("cpu", T0 + 5_000), "");
}

#[test]
fn notify_recovery_dry_run_prints_but_does_not_track() {
    let mut sink = Sink::new(true, false, 60);
    let a = alert(Severity::Warning, "✅ test back to normal", "");
    let e = sink.notify_recovery("test_metric", &a, T0).expect("a first recovery notice goes out");
    assert!(e.print_only);
    let (l1, l2) = e.printed_lines();
    assert_eq!(l1, "    └─ ✅ test back to normal");
    assert_eq!(l2, "       ");
    sink.record_delivery(&e, true, T0);
    // Dry-run prints output but doesn't update cooldown tracking
    assert!(sink.recovery_notified_at("test_metric").is_none());
}

#[test]
fn notify_recovery_cooldown_suppresses_duplicates() {
    let mut sink = Sink::new(false, false, 60);
    let a = alert(Severity::Warning, "test back to normal", "");

    // Pre-populate cooldown to simulate a recent notification
    sink.mark_notified("test_metric", true, T0);

    // Cooldown check holds the notice back
    assert!(sink.notify_recovery("test_metric", &a, T0).is_none());

    // The pre-populated entry must persist after the suppressed call
    assert!(sink.recovery_notified_at("test_metric").is_some());
}

#[test]
fn log_path_is_under_xdg_data_home() {
    let path = sema::log::log_path(Some("/home/u/.local/share"), Some("/home/u"));
    let p = std::path::Path::new(&path);
    // Should be an absolute path
    assert!(p.is_absolute());
    // Should end with sema.log
    assert_eq!(p.file_name().unwrap(), "sema.log");
}

#[test]
fn log_paths_from_home() {
    assert_eq!(sema::log::log_path(None, Some("/home/u")), "/home/u/.local/share/sema/sema.log");
    assert_eq!(sema::log::log_path(Some("/data/"), None), "/data/sema/sema.log");
    assert_eq!(sema::log::log_path(None, None), "./.local/share/sema/sema.log");
    assert_eq!(
        sema::log::trace_log_path(None, Some("/home/u")),
        "/home/u/.local/share/sema/sema-trace.log"
    );
    assert_eq!(sema::log::log_path_display(Some("/x"), None), "/x/sema/sema.log");
}

#[test]
fn duration_text_minutes_and_seconds() {
    let mut sink = Sink::new(false, false, 60);
    sink.note_active("cpu", true, T0);
    assert_eq!(sink.duration_text("cpu", T0 + 42 * SEC + 999_999), "for 42s");
    assert_eq!(sink.duration_text("cpu", T0 + 330 * SEC), "for 5m30s");
    // The start is kept while the condition goes on.
    sink.note_active("cpu", true, T0 + 100 * SEC);
    assert_eq!(sink.condition_start("cpu"), Some(T0));
}

#[test]
fn notify_appends_duration_and_respects_cooldown() {
    let mut sink = Sink::new(false, true, 60);
    let a = alert(Severity::Critical, "🔴 CPU overloaded", "CPU: 99.0%");
    sink.note_active("cpu", true, T0);
    let e = sink.notify("cpu", 60, &a, T0 + 65 * SEC).unwrap();
    assert_eq!(e.key, "cpu");
    assert_eq!(e.body, "CPU: 99.0% (for 1m5s)");
    assert_eq!(e.summary, "🔴 CPU overloaded");
    assert_eq!(e.severity, Severity::Critical);
    assert!(!e.print_only);
    assert!(e.log);
    assert!(!e.recovery);
    sink.record_delivery(&e, true, T0 + 65 * SEC);
    assert_eq!(sink.last_notified_at("cpu"), Some(T0 + 65 * SEC));
    // Within the cooldown nothing goes out; after it, the alert does.
    assert!(sink.notify("cpu", 60, &a, T0 + 100 * SEC).is_none());
    assert!(sink.notify("cpu", 60, &a, T0 + 125 * SEC).is_some());
    // A zero cooldown is never held back.
    assert!(sink.notify("cpu", 0, &a, T0 + 66 * SEC).is_some());
}

#[test]
fn failed_delivery_starts_no_cooldown() {
    let mut sink = Sink::new(false, false, 60);
    let a = alert(Severity::Warning, "s", "b");
    let e = sink.notify("swap", 60, &a, T0).unwrap();
    sink.record_delivery(&e, false, T0);
    assert!(sink.last_notified_at("swap").is_none());
    assert!(sink.notify("swap", 60, &a, T0 + SEC).is_some());
}

#[test]
fn recovery_and_alert_cooldowns_are_separate() {
    let mut sink = Sink::new(false, false, 60);
    let a = alert(Severity::Warning, "s", "b");
    sink.mark_notified("cpu", true, T0);
    assert!(sink.notify("cpu", 60, &a, T0).is_some());
    sink.mark_notified("mem", false, T0);
    assert!(sink.notify_recovery("mem", &a, T0).is_some());
}

#[test]
fn pending_single_and_empty() {
    let sink = Sink::new(false, false, 60);
    assert!(sink.notify_pending(Vec::new(), T0).is_none());
    let p = PendingAlert {
        key: "swap".to_string(),
        cooldown: 60,
        recovery: false,
        alert: alert(Severity::Warning, "⚠️ Swap usage high", "Swap: 1MB"),
    };
    let e = sink.notify_pending(vec![p], T0).unwrap();
    assert_eq!(e.key, "swap");
    assert_eq!(e.body, "Swap: 1MB");
}

#[test]
fn pending_group_into_one_notification() {
    let mut sink = Sink::new(false, false, 60);
    let ps = vec![
        PendingAlert {
            key: "cpu".to_string(),
            cooldown: 30,
            recovery: false,
            alert: alert(Severity::Warning, "⚠️ CPU overloaded", "CPU: 60.0%"),
        },
        PendingAlert {
            key: "disk".to_string(),
            cooldown: 90,
            recovery: false,
            alert: alert(Severity::Critical, "🔴 Disk usage high", "/: 97.0%"),
        },
        PendingAlert {
            key: "cpu".to_string(),
            cooldown: 0,
            recovery: true,
            alert: alert(Severity::Warning, "✅ memory back to normal", ""),
        },
    ];
    let e = sink.notify_pending(ps, T0).unwrap();
    assert_eq!(e.key, "group");
    assert_eq!(e.severity, Severity::Critical);
    assert_eq!(e.summary, "🔴 3 alerts");
    assert_eq!(
        e.body,
        "⚠️ CPU overloaded: CPU: 60.0% | 🔴 Disk usage high: /: 97.0% | ✅ memory back to normal: "
    );
    sink.record_delivery(&e, true, T0);
    // The group's cooldown is the largest of its members (90 s).
    let again = vec![
        PendingAlert { key: "a".to_string(), cooldown: 90, recovery: false, alert: alert(Severity::Warning, "x", "y") },
        PendingAlert { key: "b".to_string(), cooldown: 1, recovery: false, alert: alert(Severity::Warning, "x", "y") },
    ];
    assert!(sink.notify_pending(again, T0 + 60 * SEC).is_none());
}

#[test]
fn settings_can_change() {
    let mut sink = Sink::new(false, true, 60);
    sink.set_log_enabled(false);
    sink.set_recovery_cooldown_secs(5);
    assert!(!sink.log_enabled());
    assert_eq!(sink.recovery_cooldown_secs(), 5);
    assert!(!sink.dry_run());
    sink.mark_notified("k", true, T0);
    let a = alert(Severity::Warning, "s", "");
    assert!(sink.notify_recovery("k", &a, T0 + 4 * SEC).is_none());
    assert!(sink.notify_recovery("k", &a, T0 + 5 * SEC).is_some());
}
