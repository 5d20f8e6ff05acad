use ocpop::{
    bar_class, bar_output, count_in_state, decimal_string, dir_width, html_escape, icon,
    join_lines, list_line, list_lines, tooltip_line, title_width, usage_block, Session,
    State, UsageStatus,
};

fn session(title: &str, dir: &str, updated: i64, state: State) -> Session {
    Session {
        id: "ses_1".into(),
        title: title.into(),
        directory: dir.into(),
        updated,
        permission: None,
        role: None,
        completed: None,
        finish: None,
        state,
    }
}

fn now_ms() -> i64 {
    chrono::Utc::now().timestamp_millis()
}

#[test]
fn html_escape_replaces_markup() {
    assert_eq!(html_escape("a & b <c> d"), "a &amp; b &lt;c&gt; d");
    assert_eq!(html_escape("&lt;"), "&amp;lt;");
    assert_eq!(html_escape("plain"), "plain");
    assert_eq!(html_escape(""), "");
}

#[test]
fn escaped_text_has_no_brackets() {
    let out = html_escape("<<>>&<x>");
    assert!(!out.contains('<') && !out.contains('>'));
}

#[test]
fn icon_shows_bell_when_waiting() {
    let idle = vec![session("a", "/a", 0, State::Idle), session("b", "/b", 0, State::Running)];
    assert_eq!(icon(&idle), "󱙺");
    let waiting = vec![session("a", "/a", 0, State::Idle), session("b", "/b", 0, State::Waiting)];
    assert_eq!(icon(&waiting), "󰚌");
    assert_eq!(icon(&vec![]), "󱙺");
}

#[test]
fn class_prefers_waiting_over_running() {
    assert_eq!(bar_class(1, 3), "oc-waiting");
    assert_eq!(bar_class(0, 3), "oc-running");
    assert_eq!(bar_class(0, 0), "normal");
}

#[test]
fn icon_and_class_agree() {
    let ss = vec![session("a", "/a", 0, State::Running), session("b", "/b", 0, State::Waiting)];
    let w = count_in_state(&ss, State::Waiting);
    let r = count_in_state(&ss, State::Running);
    assert_eq!((w, r), (1, 1));
    assert_eq!(bar_class(w, r), "oc-waiting");
    assert_eq!(icon(&ss), "󰚌");
}

#[test]
fn column_widths() {
    let ss = vec![
        session("short", "/x/yy", 0, State::Idle),
        session("a much longer title", "/x/zzz/", 0, State::Idle),
    ];
    assert_eq!(title_width(&ss, 70), 19);
    assert_eq!(title_width(&ss, 10), 10);
    assert_eq!(dir_width(&ss), 3);
    assert_eq!(title_width(&vec![], 70), 0);
}

#[test]
fn join_lines_puts_newlines_between() {
    assert_eq!(join_lines(&vec![]), "");
    assert_eq!(join_lines(&vec!["a".to_string()]), "a");
    assert_eq!(join_lines(&vec!["a".to_string(), "b".to_string(), "c".to_string()]), "a\nb\nc");
}

#[test]
fn decimal_string_writes_numbers() {
    assert_eq!(decimal_string(0), "0");
    assert_eq!(decimal_string(7), "7");
    assert_eq!(decimal_string(10), "10");
    assert_eq!(decimal_string(u64::MAX), u64::MAX.to_string());
}

#[test]
fn list_line_format() {
    let s = session("title", "/home/me/proj", 0, State::Running);
    assert_eq!(
        list_line(&s, 7, 120_000),
        "● title\u{a0}\u{a0} proj · 2m"
    );
}

#[test]
fn list_lines_pad_to_longest_title() {
    let now = now_ms();
    let ss = vec![session("ab", "/p/q", now, State::Idle), session("abcd", "/r", now, State::Idle)];
    let lines = list_lines(&ss, now);
    assert_eq!(lines, vec!["● ab\u{a0}\u{a0} q · now".to_string(), "● abcd r · now".to_string()]);
}

#[test]
fn tooltip_line_format() {
    let s = session("a<b", "/x/d&d", 0, State::Waiting);
    assert_eq!(
        tooltip_line(&s, 7, 5, 7_200_000),
        "<span color=\"#ff79c6\">●</span> <b>a&lt;b\u{a0}</b> <i>d&amp…</i> · <b><i>2h</i></b>"
    );
}

#[test]
fn usage_block_variants() {
    let ok = UsageStatus { tooltip: Some("USAGE".into()), error: None };
    assert_eq!(usage_block(&ok), "USAGE\n");
    let err = UsageStatus { tooltip: None, error: Some("boom".into()) };
    assert_eq!(usage_block(&err), "<span color=\"#ff5555\">󱙺 boom</span>\n");
    let none = UsageStatus { tooltip: None, error: None };
    assert_eq!(usage_block(&none), "");
}

#[test]
fn bar_without_sessions_shows_usage() {
    let out = bar_output(&vec![], UsageStatus { tooltip: Some("U".into()), error: None }, 0);
    assert_eq!((out.text.as_str(), out.tooltip.as_str(), out.class.as_str()), ("󱙺", "U", "normal"));
    let out = bar_output(&vec![], UsageStatus { tooltip: Some("U".into()), error: Some("e".into()) }, 0);
    assert_eq!(out.class, "error");
    let out = bar_output(&vec![], UsageStatus { tooltip: None, error: Some("usage unavailable".into()) }, 0);
    assert_eq!((out.text.as_str(), out.tooltip.as_str(), out.class.as_str()), ("󱙺?", "usage unavailable", "error"));
    let out = bar_output(&vec![], UsageStatus { tooltip: None, error: None }, 0);
    assert_eq!(out.tooltip, "usage unavailable");
}

#[test]
fn bar_with_sessions() {
    let now = now_ms();
    let ss = vec![session("one", "/a/b", now, State::Running), session("two!", "/c", now, State::Idle)];
    let out = bar_output(&ss, UsageStatus { tooltip: None, error: Some("usage unavailable".into()) }, now);
    assert_eq!(out.text, "󱙺 2");
    assert_eq!(out.class, "oc-running");
    assert_eq!(
        out.tooltip,
        "<tt><span color=\"#ff5555\">󱙺 usage unavailable</span>\n\
<span color=\"#50fa7b\">●</span> <b>one\u{a0}</b> <i>b</i> · <b><i>now</i></b>\n\
<span color=\"#ffffff\">●</span> <b>two!</b> <i>c</i> · <b><i>now</i></b></tt>"
    );
}

#[test]
fn html_escape_agrees_with_replace_chain() {
    for s in ["", "&", "<>", "a&b<c>d", "&amp;", "<<&>>", "plain text", "ü<ö>&"] {
        let expected = s.replace('&', "&amp;").replace('<', "&lt;").replace('>', "&gt;");
        assert_eq!(html_escape(s), expected);
    }
}
