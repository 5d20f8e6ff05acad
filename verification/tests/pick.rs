use ocpop::{
    find_entry, find_window, launch_command, menu_line, pick, PickAction, PickError,
    PickEvent, PickState, Session, State, Window,
};

fn session(id: &str, title: &str, dir: &str, updated: i64) -> Session {
    Session {
        id: id.into(),
        title: title.into(),
        directory: dir.into(),
        updated,
        permission: None,
        role: None,
        completed: None,
        finish: None,
        state: State::Idle,
    }
}

fn now_ms() -> i64 {
    chrono::Utc::now().timestamp_millis()
}

#[test]
fn no_sessions_fails() {
    let (next, action) = pick(PickState::Start, PickEvent::Sessions { sessions: vec![], now_ms: now_ms() });
    assert!(matches!(next, PickState::Done));
    assert!(matches!(action, PickAction::Fail(PickError::NoSessions)));
    assert_eq!(PickError::NoSessions.message(), "no opencode sessions");
}

#[test]
fn dismissed_menu_is_canceled() {
    let now = now_ms();
    let (state, _) = pick(PickState::Start, PickEvent::Sessions { sessions: vec![session("s1", "a", "/x", now)], now_ms: now });
    let (next, action) = pick(state, PickEvent::Selected(String::new()));
    assert!(matches!(next, PickState::Done));
    assert!(matches!(action, PickAction::Fail(PickError::SelectionCanceled)));
    assert_eq!(PickError::SelectionCanceled.message(), "selection canceled");
}

#[test]
fn menu_then_focus_existing_window() {
    let now = now_ms();
    let ss = vec![session("s1", "first", "/p/one", now), session("s2", "second", "/p/two", now)];
    let (state, action) = pick(PickState::Start, PickEvent::Sessions { sessions: ss, now_ms: now });
    let menu = match action {
        PickAction::ShowMenu(m) => m,
        _ => panic!("expected a menu"),
    };
    assert_eq!(menu, "● first\u{a0} · one · now\n● second · two · now");
    let (state, action) = pick(state, PickEvent::Selected("● second · two · now".into()));
    assert!(matches!(action, PickAction::ListWindows));
    let windows = vec![
        Window { id: 3, title: "OC | first".into() },
        Window { id: 9, title: "OC | second".into() },
    ];
    let (next, action) = pick(state, PickEvent::Windows(windows));
    assert!(matches!(next, PickState::Done));
    assert!(matches!(action, PickAction::Focus(9)));
}

#[test]
fn picked_session_without_window_is_launched() {
    let now = now_ms();
    let ss = vec![session("ses_42", "job", "/work/dir", now)];
    let (state, _) = pick(PickState::Start, PickEvent::Sessions { sessions: ss, now_ms: now });
    let (state, _) = pick(state, PickEvent::Selected("● job · dir · now".into()));
    let (_, action) = pick(state, PickEvent::Windows(vec![Window { id: 1, title: "OC job".into() }]));
    match action {
        PickAction::Launch { title, script } => {
            assert_eq!(title, "OC ses_42");
            assert_eq!(script, "cd '/work/dir' && exec opencode -s ses_42");
        }
        _ => panic!("expected a launch"),
    }
}

#[test]
fn unknown_selection_finishes() {
    let now = now_ms();
    let (state, _) = pick(PickState::Start, PickEvent::Sessions { sessions: vec![session("s", "t", "/d", now)], now_ms: now });
    let (next, action) = pick(state, PickEvent::Selected("something else".into()));
    assert!(matches!(next, PickState::Done));
    assert!(matches!(action, PickAction::Finish));
}

#[test]
fn helpers_pick_first_match() {
    let lines = vec!["a".to_string(), "b".to_string(), "b".to_string()];
    assert_eq!(find_entry(&lines, &"b".to_string()), Some(1));
    assert_eq!(find_entry(&lines, &"c".to_string()), None);
    let ws = vec![
        Window { id: 1, title: "OC | x".into() },
        Window { id: 2, title: "OC | x".into() },
    ];
    assert_eq!(find_window(&ws, "x"), Some(1));
    assert_eq!(find_window(&ws, "y"), None);
    let (t, s) = launch_command(&session("i", "t", "/d d", 0));
    assert_eq!(t, "OC i");
    assert_eq!(s, "cd '/d d' && exec opencode -s i");
}

#[test]
fn menu_line_format() {
    assert_eq!(
        menu_line(&session("i", "long title", "/a/b/", 0), 4, 3 * 86_400_000),
        "● long… · b · 3d"
    );
}
