use ocpop::{
    cache_is_fresh, label_column, needs_fetch, remaining_str, remaining_until, seconds_left,
    unavailable_row, usage_body, usage_status,
};

#[test]
fn cache_fresh_for_a_minute() {
    assert!(cache_is_fresh(100, 100));
    assert!(cache_is_fresh(159, 100));
    assert!(!cache_is_fresh(160, 100));
    assert!(cache_is_fresh(50, 100));
}

#[test]
fn fetch_only_when_stale() {
    assert!(needs_fetch(0, &None));
    assert!(!needs_fetch(130, &Some((100, "b".into()))));
    assert!(needs_fetch(200, &Some((100, "b".into()))));
}

#[test]
fn body_choice() {
    let cached = Some((100u64, "old".to_string()));
    assert_eq!(usage_body(110, cached.clone(), Some("new".into())), Some("old".to_string()));
    assert_eq!(usage_body(500, cached.clone(), Some("new".into())), Some("new".to_string()));
    assert_eq!(usage_body(500, cached, None), Some("old".to_string()));
    assert_eq!(usage_body(500, None, None), None);
    assert_eq!(usage_body(500, None, Some("new".into())), Some("new".to_string()));
}

#[test]
fn status_from_rendering() {
    let s = usage_status(Some("rendered".into()));
    assert_eq!(s.tooltip.as_deref(), Some("rendered"));
    assert_eq!(s.error, None);
    let s = usage_status(None);
    assert_eq!(s.tooltip, None);
    assert_eq!(s.error.as_deref(), Some("usage unavailable"));
}

#[test]
fn remaining_text() {
    assert_eq!(remaining_str(0), "now");
    assert_eq!(remaining_str(59), "0m");
    assert_eq!(remaining_str(3599), "59m");
    assert_eq!(remaining_str(3600), "1h 0m");
    assert_eq!(remaining_str(3 * 3600 + 25 * 60 + 7), "3h 25m");
    assert_eq!(remaining_str(86_400), "1d 0h");
    assert_eq!(remaining_str(2 * 86_400 + 5 * 3600 + 59), "2d 5h");
}

#[test]
fn seconds_left_never_negative() {
    assert_eq!(seconds_left(Some(100), 40), 60);
    assert_eq!(seconds_left(Some(100), 400), 0);
    assert_eq!(seconds_left(None, 400), 0);
}

#[test]
fn remaining_until_reads_rfc3339() {
    let now = 1_700_000_000;
    assert_eq!(remaining_until(None, now), 0);
    assert_eq!(remaining_until(Some("not a date"), now), 0);
    assert_eq!(remaining_until(Some("2001-01-01T00:00:00Z"), now), 0);
    assert_eq!(remaining_until(Some("2023-11-14T22:13:20Z"), now), 0);
    assert_eq!(remaining_until(Some("2023-11-14T23:13:20Z"), now), 3600);
    assert_eq!(remaining_until(Some("2023-11-14T23:13:20+01:00"), now), 0);
    assert_eq!(remaining_until(Some("9999-12-31T23:59:59+00:00"), now), 253_402_300_799 - now as u64);
}

#[test]
fn label_and_na_rows() {
    assert_eq!(label_column("5h"), "5h ");
    assert_eq!(label_column("30d"), "30d");
    assert_eq!(label_column("long"), "long");
    assert_eq!(
        unavailable_row("7d"),
        "<span color=\"#ff5555\"><b>7d</b></span> <i>n/a</i>"
    );
}
