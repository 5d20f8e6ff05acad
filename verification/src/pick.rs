//! The session picker's decisions: which menu to show, which session was picked,
//! and whether to focus its terminal window or launch a new one.
use vstd::prelude::*;

use crate::columns::{join_lines, joined, max_len, title_width, titles};
use crate::session::{
    ages_fit, dir_label, pad, padded, relative_text, relative_time_at, short_dir, Session,
};
use crate::text::{push_char, push_str};

verus! {

/// Titles are cut to at most this many characters in the menu.
pub const MENU_TITLE_CAP: usize = 70;

/// A terminal window as the compositor lists it.
pub struct Window {
    pub id: u64,
    pub title: String,
}

/// Why picking stopped without opening a session.
#[derive(Clone, Copy, PartialEq, Eq, Debug, Structural)]
pub enum PickError {
    NoSessions,
    SelectionCanceled,
}

impl PickError {
    /// The message shown for the error.
    pub fn message(&self) -> (r: &'static str)
        ensures
            r@ == match *self {
                PickError::NoSessions => "no opencode sessions"@,
                PickError::SelectionCanceled => "selection canceled"@,
            },
    {
        match self {
            PickError::NoSessions => "no opencode sessions",
            PickError::SelectionCanceled => "selection canceled",
        }
    }
}

/// Where the picker stands.
pub enum PickState {
    /// Waiting for the session list.
    Start,
    /// The menu is shown; `lines[i]` is the entry of `sessions[i]`.
    Choosing { sessions: Vec<Session>, lines: Vec<String> },
    /// A session was picked; waiting for the window list.
    Opening { session: Session },
    /// Nothing is left to do.
    Done,
}

/// What the outside world reports back to the picker.
pub enum PickEvent {
    /// The session list and the current time in epoch milliseconds.
    Sessions { sessions: Vec<Session>, now_ms: i64 },
    /// The menu entry the user picked, trimmed; empty when the menu was dismissed.
    Selected(String),
    /// The open terminal windows.
    Windows(Vec<Window>),
}

/// What the picker asks the outside world to do next.
pub enum PickAction {
    /// Show the menu, one entry per line.
    ShowMenu(String),
    /// List the open terminal windows.
    ListWindows,
    /// Focus the window with this id.
    Focus(u64),
    /// Open a terminal with this title that runs this shell script.
    Launch { title: String, script: String },
    /// Stop: the picked text matched no entry.
    Finish,
    /// Stop with an error.
    Fail(PickError),
}

/// A menu entry for `s` with a title column of `width`, its age seen at `now_ms`:
/// glyph, title, "·", directory label, "·", age.
pub open spec fn menu_line_text(s: Session, width: nat, now_ms: int) -> Seq<char> {
    "●"@ + seq![' '] + padded(s.title@, width) + seq![' ', '·', ' '] + dir_label(s.directory@)
        + seq![' ', '·', ' '] + relative_text(s.updated as int, now_ms)
}

/// The width of the menu's title column.
pub open spec fn menu_width(ss: Seq<Session>) -> nat {
    if max_len(titles(ss)) < MENU_TITLE_CAP {
        max_len(titles(ss))
    } else {
        MENU_TITLE_CAP as nat
    }
}

/// The views of a list of strings.
pub open spec fn texts(v: Seq<String>) -> Seq<Seq<char>> {
    v.map_values(|l: String| l@)
}

/// The title of the terminal window that runs session `title`.
pub open spec fn window_title_for(title: Seq<char>) -> Seq<char> {
    "OC | "@ + title
}

/// The title given to a new terminal for session `id`.
pub open spec fn terminal_title(id: Seq<char>) -> Seq<char> {
    "OC "@ + id
}

/// The script a new terminal runs: resume session `id` in its directory.
pub open spec fn resume_script(dir: Seq<char>, id: Seq<char>) -> Seq<char> {
    "cd '"@ + dir + "' && exec opencode -s "@ + id
}

/// Whether `i` is the first position in `ls` that holds `x`.
pub open spec fn first_at(ls: Seq<Seq<char>>, x: Seq<char>, i: int) -> bool {
    &&& 0 <= i < ls.len()
    &&& ls[i] == x
    &&& forall|j: int| 0 <= j < i ==> ls[j] != x
}

/// Whether `i` is the first window titled `t`.
pub open spec fn first_window(ws: Seq<Window>, t: Seq<char>, i: int) -> bool {
    &&& 0 <= i < ws.len()
    &&& ws[i].title@ == t
    &&& forall|j: int| 0 <= j < i ==> ws[j].title@ != t
}

/// Whether a picker state is consistent: a shown menu has one entry per session.
pub open spec fn well_formed(state: PickState) -> bool {
    state matches PickState::Choosing { sessions, lines } ==> lines.len() == sessions.len()
}

/// Whether an event is the one the state waits for.
pub open spec fn expects(state: PickState, event: PickEvent) -> bool {
    match state {
        PickState::Start => event is Sessions,
        PickState::Choosing { .. } => event is Selected,
        PickState::Opening { .. } => event is Windows,
        PickState::Done => false,
    }
}

/// One step of the picker, from `state` on `event` to `next` with `action`.
pub open spec fn pick_step(state: PickState, event: PickEvent, next: PickState, action: PickAction) -> bool {
    match (state, event) {
        (PickState::Start, PickEvent::Sessions { sessions: ss, now_ms }) => if ss.len() == 0 {
            next is Done && action == PickAction::Fail(PickError::NoSessions)
        } else {
            &&& next matches PickState::Choosing { sessions, lines } && {
                &&& sessions@ == ss@
                &&& lines.len() == ss.len()
                &&& forall|i: int|
                    0 <= i < lines.len() ==> #[trigger] lines@[i]@ == menu_line_text(
                        ss@[i],
                        menu_width(ss@),
                        now_ms as int,
                    )
                &&& action matches PickAction::ShowMenu(menu) && menu@ == joined(
                    texts(lines@),
                    seq!['\n'],
                )
            }
        },
        (PickState::Choosing { sessions, lines }, PickEvent::Selected(sel)) => if sel@.len() == 0 {
            next is Done && action == PickAction::Fail(PickError::SelectionCanceled)
        } else if exists|i: int| first_at(texts(lines@), sel@, i) {
            &&& forall|i: int|
                first_at(texts(lines@), sel@, i) ==> (next matches PickState::Opening { session }
                    && session == #[trigger] sessions@[i])
            &&& action is ListWindows
        } else {
            next is Done && action is Finish
        },
        (PickState::Opening { session }, PickEvent::Windows(ws)) => {
            &&& next is Done
            &&& if exists|i: int| first_window(ws@, window_title_for(session.title@), i) {
                forall|i: int|
                    first_window(ws@, window_title_for(session.title@), i) ==> action
                        == PickAction::Focus(#[trigger] ws@[i].id)
            } else {
                action matches PickAction::Launch { title, script } && title@ == terminal_title(
                    session.id@,
                ) && script@ == resume_script(session.directory@, session.id@)
            }
        },
        _ => false,
    }
}

fn menu_line_head(s: &Session, width: usize) -> (r: String)
    ensures
        r@ == "●"@ + seq![' '] + padded(s.title@, width as nat) + seq![' ', '·', ' '] + dir_label(
            s.directory@,
        ) + seq![' ', '·', ' '],
{
    let mut r = String::new();
    push_str(&mut r, s.state.glyph());
    push_char(&mut r, ' ');
    let title = pad(s.title.as_str(), width);
    push_str(&mut r, title.as_str());
    push_char(&mut r, ' ');
    push_char(&mut r, '·');
    push_char(&mut r, ' ');
    let dir = short_dir(s.directory.as_str());
    push_str(&mut r, dir.as_str());
    push_char(&mut r, ' ');
    push_char(&mut r, '·');
    push_char(&mut r, ' ');
    assert(r@ =~= "●"@ + seq![' '] + padded(s.title@, width as nat) + seq![' ', '·', ' ']
        + dir_label(s.directory@) + seq![' ', '·', ' ']);
    r
}

/// The menu entry of a session, its age seen at `now_ms`.
pub fn menu_line(s: &Session, width: usize, now_ms: i64) -> (r: String)
    requires
        i64::MIN <= now_ms - s.updated <= i64::MAX,
    ensures
        r@ == menu_line_text(*s, width as nat, now_ms as int),
{
    let mut r = menu_line_head(s, width);
    let age = relative_time_at(s.updated, now_ms);
    push_str(&mut r, age.as_str());
    assert(r@ =~= menu_line_text(*s, width as nat, now_ms as int));
    r
}

/// The menu entries of a session list at `now_ms`, titles padded to the longest
/// title (at most 70 characters).
pub fn menu_lines(sessions: &Vec<Session>, now_ms: i64) -> (r: Vec<String>)
    requires
        ages_fit(sessions@, now_ms as int),
    ensures
        r.len() == sessions.len(),
        forall|i: int|
            0 <= i < r.len() ==> #[trigger] r@[i]@ == menu_line_text(
                sessions@[i],
                menu_width(sessions@),
                now_ms as int,
            ),
{
    let width = title_width(sessions, MENU_TITLE_CAP);
    let mut r: Vec<String> = Vec::new();
    let mut i: usize = 0;
    while i < sessions.len()
        invariant
            i <= sessions.len(),
            r.len() == i,
            width == menu_width(sessions@),
            ages_fit(sessions@, now_ms as int),
            forall|j: int|
                0 <= j < i ==> #[trigger] r@[j]@ == menu_line_text(
                    sessions@[j],
                    width as nat,
                    now_ms as int,
                ),
        decreases sessions.len() - i,
    {
        let line = menu_line(&sessions[i], width, now_ms);
        r.push(line);
        i = i + 1;
    }
    r
}

/// The position of the first entry equal to `sel`.
pub fn find_entry(lines: &Vec<String>, sel: &String) -> (r: Option<usize>)
    ensures
        match r {
            Some(i) => first_at(texts(lines@), sel@, i as int),
            None => !exists|i: int| first_at(texts(lines@), sel@, i),
        },
{
    let mut i: usize = 0;
    while i < lines.len()
        invariant
            i <= lines.len(),
            forall|j: int| 0 <= j < i ==> texts(lines@)[j] != sel@,
        decreases lines.len() - i,
    {
        if lines[i] == *sel {
            return Some(i);
        }
        i = i + 1;
    }
    proof {
        assert forall|k: int| !first_at(texts(lines@), sel@, k) by {
            if 0 <= k < lines.len() {
                assert(texts(lines@)[k] != sel@);
            }
        }
    }
    None
}

/// The id of the first window titled "OC | " followed by the session title.
pub fn find_window(windows: &Vec<Window>, title: &str) -> (r: Option<u64>)
    ensures
        match r {
            Some(id) => exists|i: int|
                first_window(windows@, window_title_for(title@), i) && windows@[i].id == id,
            None => !exists|i: int| first_window(windows@, window_title_for(title@), i),
        },
{
    let mut wanted = String::from_str("OC | ");
    push_str(&mut wanted, title);
    let mut i: usize = 0;
    while i < windows.len()
        invariant
            i <= windows.len(),
            wanted@ == window_title_for(title@),
            forall|j: int| 0 <= j < i ==> windows@[j].title@ != wanted@,
        decreases windows.len() - i,
    {
        if windows[i].title == wanted {
            assert(first_window(windows@, window_title_for(title@), i as int));
            return Some(windows[i].id);
        }
        i = i + 1;
    }
    proof {
        assert forall|k: int| !first_window(windows@, window_title_for(title@), k) by {
            if 0 <= k < windows.len() {
                assert(windows@[k].title@ != wanted@);
            }
        }
    }
    None
}

/// The title and script of a new terminal resumed into a session.
pub fn launch_command(session: &Session) -> (r: (String, String))
    ensures
        r.0@ == terminal_title(session.id@),
        r.1@ == resume_script(session.directory@, session.id@),
{
    let mut title = String::from_str("OC ");
    push_str(&mut title, session.id.as_str());
    let mut script = String::from_str("cd '");
    push_str(&mut script, session.directory.as_str());
    push_str(&mut script, "' && exec opencode -s ");
    push_str(&mut script, session.id.as_str());
    (title, script)
}

/// The session picker, one step at a time: it starts in `PickState::Start` and is
/// handed the session list with the current time, then the picked menu entry, then the open windows.
/// With no session it fails; a dismissed menu fails; an entry that matches no line
/// ends it; a picked session is focused in its terminal window when one is titled
/// "OC | <title>", and otherwise resumed in a new terminal in its directory.
pub fn pick(state: PickState, event: PickEvent) -> (r: (PickState, PickAction))
    requires
        well_formed(state),
        expects(state, event),
        event matches PickEvent::Sessions { sessions, now_ms } ==> ages_fit(
            sessions@,
            now_ms as int,
        ),
    ensures
        pick_step(state, event, r.0, r.1),
        well_formed(r.0),
{
    match (state, event) {
        (PickState::Start, PickEvent::Sessions { sessions: ss, now_ms }) => {
            if ss.len() == 0 {
                return (PickState::Done, PickAction::Fail(PickError::NoSessions));
            }
            let lines = menu_lines(&ss, now_ms);
            let menu = join_lines(&lines);
            (PickState::Choosing { sessions: ss, lines }, PickAction::ShowMenu(menu))
        },
        (PickState::Choosing { sessions, lines }, PickEvent::Selected(sel)) => {
            if sel.as_str().unicode_len() == 0 {
                return (PickState::Done, PickAction::Fail(PickError::SelectionCanceled));
            }
            match find_entry(&lines, &sel) {
                Some(i) => {
                    let mut sessions = sessions;
                    let session = sessions.remove(i);
                    (PickState::Opening { session }, PickAction::ListWindows)
                },
                None => (PickState::Done, PickAction::Finish),
            }
        },
        (PickState::Opening { session }, PickEvent::Windows(ws)) => {
            match find_window(&ws, session.title.as_str()) {
                Some(id) => (PickState::Done, PickAction::Focus(id)),
                None => {
                    let (title, script) = launch_command(&session);
                    (PickState::Done, PickAction::Launch { title, script })
                },
            }
        },
        _ => (PickState::Done, PickAction::Finish),
    }
}

} // verus!
