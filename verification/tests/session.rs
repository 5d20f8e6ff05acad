use ocpop::{
    boot_time_ms, btime_seconds, derive_state, is_recent_at, list, pad, relative_time_at,
    short_dir, truncate, Session, State,
};

fn session(
    updated: i64,
    role: Option<&str>,
    completed: Option<i64>,
    finish: Option<&str>,
) -> Session {
    Session {
        id: "id".into(),
        title: "t".into(),
        directory: "/tmp".into(),
        updated,
        permission: None,
        role: role.map(String::from),
        completed,
        finish: finish.map(String::from),
        state: State::Idle,
    }
}

fn now_ms() -> i64 {
    chrono::Utc::now().timestamp_millis()
}

#[test]
fn permission_means_waiting() {
    let mut s = session(now_ms(), None, None, None);
    let mut allow = serde_json::Map::new();
    allow.insert("allow".to_string(), serde_json::Value::Bool(true));
    s.permission = Some(serde_json::Value::Object(allow).to_string());
    assert_eq!(derive_state(&s, now_ms()), State::Waiting);
}

#[test]
fn user_turn_is_running() {
    assert_eq!(
        derive_state(&session(now_ms(), Some("user"), None, None), now_ms()),
        State::Running
    );
}

#[test]
fn unfinished_assistant_is_running() {
    assert_eq!(
        derive_state(&session(now_ms(), Some("assistant"), None, None), now_ms()),
        State::Running
    );
}

#[test]
fn recent_finished_assistant_is_waiting() {
    assert_eq!(
        derive_state(&session(now_ms(), Some("assistant"), Some(1), Some("stop")), now_ms()),
        State::Waiting
    );
}

#[test]
fn stale_finished_assistant_is_idle() {
    assert_eq!(
        derive_state(
            &session(
                now_ms() - 30 * 60_000,
                Some("assistant"),
                Some(1),
                Some("stop")
            ),
            now_ms()
        ),
        State::Idle
    );
}

#[test]
fn assistant_with_other_finish_is_idle() {
    assert_eq!(
        derive_state(
            &session(now_ms(), Some("assistant"), Some(1), Some("error")),
            now_ms()
        ),
        State::Idle
    );
}

#[test]
fn empty_session_is_idle() {
    assert_eq!(
        derive_state(&session(now_ms(), None, None, None), now_ms()),
        State::Idle
    );
}

#[test]
fn relative_time_at_matches_window() {
    let now = 1_000_000_000_000;
    assert_eq!(relative_time_at(now, now), "now");
    assert_eq!(relative_time_at(now - 120_000, now), "2m");
    assert_eq!(relative_time_at(now - 7_200_000, now), "2h");
    assert_eq!(relative_time_at(now - 172_800_000, now), "2d");
    assert_eq!(relative_time_at(now + 60_000, now), "now");
}

#[test]
fn short_dir_takes_basename() {
    assert_eq!(short_dir("/home/koen/projects/ocpop"), "ocpop");
    assert_eq!(short_dir("/home/koen/"), "koen");
    assert_eq!(short_dir(""), "");
}

#[test]
fn truncate_leaves_short_strings() {
    assert_eq!(truncate("hello", 10), "hello");
}

#[test]
fn truncate_ellipsizes_long_strings() {
    assert_eq!(truncate("hello world", 5), "hell…");
    assert_eq!(truncate("hello world", 1), "…");
    assert_eq!(truncate("hello world", 0), "");
}

#[test]
fn pad_pads_with_nbsp() {
    assert_eq!(pad("ab", 4), "ab\u{a0}\u{a0}");
    assert_eq!(pad("ab", 2), "ab");
}

#[test]
fn pad_truncates_when_over() {
    assert_eq!(pad("hello world", 3), "hel…");
}

#[test]
fn state_glyph_is_constant() {
    for s in [State::Idle, State::Running, State::Waiting] {
        assert_eq!(s.glyph(), "●");
    }
}

#[test]
fn state_colors_match_docs() {
    assert_eq!(State::Idle.color(), "#ffffff");
    assert_eq!(State::Running.color(), "#50fa7b");
    assert_eq!(State::Waiting.color(), "#ff79c6");
}

#[test]
fn state_default_is_idle() {
    assert_eq!(State::default(), State::Idle);
}

#[test]
fn relative_time_bucket_edges() {
    let now = 1_700_000_000_000;
    assert_eq!(relative_time_at(now - 59_999, now), "now");
    assert_eq!(relative_time_at(now - 60_000, now), "1m");
    assert_eq!(relative_time_at(now - 3_599_999, now), "59m");
    assert_eq!(relative_time_at(now - 3_600_000, now), "1h");
    assert_eq!(relative_time_at(now - 86_399_999, now), "23h");
    assert_eq!(relative_time_at(now - 86_400_000, now), "1d");
    assert_eq!(relative_time_at(now - 1_000 * 86_400 * 1234, now), "1234d");
}

#[test]
fn relative_time_of_future_moment_is_now() {
    let now = now_ms();
    assert_eq!(relative_time_at(now + 3_600_000, now), "now");
}

#[test]
fn short_dir_edge_cases() {
    assert_eq!(short_dir("/"), "/");
    assert_eq!(short_dir("."), ".");
    assert_eq!(short_dir("foo.txt/."), "foo.txt");
    assert_eq!(short_dir("foo.txt/.//"), "foo.txt");
    assert_eq!(short_dir("a/.."), "a/..");
    assert_eq!(short_dir("./a"), "a");
    assert_eq!(short_dir("plain"), "plain");
    assert_eq!(short_dir("/home/ünïcode/dïr"), "dïr");
}

#[test]
fn truncate_counts_characters_not_bytes() {
    assert_eq!(truncate("ééééé", 5), "ééééé");
    assert_eq!(truncate("éééééé", 5), "éééé…");
    assert_eq!(truncate("", 0), "");
}

#[test]
fn pad_zero_width() {
    assert_eq!(pad("", 0), "");
    assert_eq!(pad("a", 0), "…");
    assert_eq!(pad("", 2), "\u{a0}\u{a0}");
    assert_eq!(pad("abc", 3), "abc");
    assert_eq!(pad("abcd", 3), "abc…");
}

#[test]
fn derive_state_at_uses_the_given_clock() {
    let s = session(1_000_000, Some("assistant"), Some(1), Some("stop"));
    assert_eq!(derive_state(&s, 1_000_000 + 899_999), State::Waiting);
    assert_eq!(derive_state(&s, 1_000_000 + 900_000), State::Idle);
    let mut p = session(0, Some("assistant"), Some(1), Some("stop"));
    p.permission = Some("{}".to_string());
    assert_eq!(derive_state(&p, i64::MAX), State::Waiting);
}

#[test]
fn derive_state_user_outranks_finish() {
    let s = session(0, Some("user"), Some(1), Some("stop"));
    assert_eq!(derive_state(&s, 0), State::Running);
    let s = session(0, Some("system"), None, None);
    assert_eq!(derive_state(&s, 0), State::Idle);
}

#[test]
fn is_recent_at_window() {
    assert!(is_recent_at(100, 50, 149));
    assert!(!is_recent_at(100, 50, 150));
}

#[test]
fn list_sets_states_and_drops_old_sessions() {
    let now = now_ms();
    let mut old = session(now - 10_000, Some("user"), None, None);
    old.id = "old".into();
    let mut a = session(now, Some("user"), None, None);
    a.id = "a".into();
    let mut b = session(now, None, None, None);
    b.id = "b".into();
    let rows = vec![a, old, b];
    let out = list(rows, now - 5_000, now);
    assert_eq!(out.len(), 2);
    assert_eq!(out[0].id, "a");
    assert_eq!(out[0].state, State::Running);
    assert_eq!(out[1].id, "b");
    assert_eq!(out[1].state, State::Idle);
}

#[test]
fn btime_is_read_from_proc_stat() {
    let stat = "cpu  1 2 3\ncpu0 1 2 3\nintr 5\nbtime 1700000000\nprocesses 10\n";
    assert_eq!(btime_seconds(stat), Some(1_700_000_000));
    assert_eq!(boot_time_ms(btime_seconds(stat)), 1_700_000_000_000);
}

#[test]
fn btime_missing_or_malformed() {
    assert_eq!(btime_seconds(""), None);
    assert_eq!(btime_seconds("cpu 1\nintr 2\n"), None);
    assert_eq!(btime_seconds("btime\n"), None);
    assert_eq!(btime_seconds("btime x\nbtime 5\n"), None);
    assert_eq!(btime_seconds("btime 99999999999999999999"), None);
    assert_eq!(boot_time_ms(None), 0);
}

#[test]
fn btime_parsing_follows_str_parse() {
    assert_eq!(btime_seconds("btime\t+42 7"), Some(42));
    assert_eq!(btime_seconds("btime  -9223372036854775808"), Some(i64::MIN));
    assert_eq!(btime_seconds("btime 9223372036854775807"), Some(i64::MAX));
    assert_eq!(btime_seconds("btime 9223372036854775808"), None);
    assert_eq!(btime_seconds("btime -"), None);
    assert_eq!(btime_seconds("btime 12a"), None);
    assert_eq!(btime_seconds("btimex 12\r\n"), Some(12));
    assert_eq!(btime_seconds("x\u{3000}btime 1\nbtime 3"), Some(3));
    for text in ["btime 7", "btime +0", "btime -15", "btime 0012"] {
        let word = text.split_whitespace().nth(1).unwrap();
        assert_eq!(btime_seconds(text), word.parse::<i64>().ok());
    }
}

#[test]
fn short_dir_agrees_with_path_file_name() {
    let cases = [
        "", "/", "//", ".", "..", "./", "../", "a", "a/", "a//", "a/.", "a/./", "a/..", "a/../",
        "/a/b", "/a/b/", "/a/b/.", "./a", "././a/.", "a/b/c.txt", "/home/koen/", "x/ü/",
        "a/.../", "a/.b", "/..", "/.", "a//b//",
    ];
    for d in cases {
        let expected = std::path::Path::new(d)
            .file_name()
            .map(|n| n.to_string_lossy().into_owned())
            .unwrap_or_else(|| d.to_string());
        assert_eq!(short_dir(d), expected, "path {d:?}");
    }
}

#[test]
fn btime_agrees_with_str_parse_on_words() {
    let words = [
        "0", "+0", "-0", "00", "+", "-", "", "1a", "a1", "+-1", "--1", "٣", "１",
        "9223372036854775807", "9223372036854775808", "-9223372036854775808",
        "-9223372036854775809", "18446744073709551616", "000000000000000000000042",
    ];
    for w in words {
        let text = format!("cpu 1\nbtime {w} x\n");
        let expected = if w.is_empty() {
            "x".parse::<i64>().ok()
        } else {
            w.parse::<i64>().ok()
        };
        assert_eq!(btime_seconds(&text), expected, "word {w:?}");
    }
}
