//! Sessions as the widget sees them: their state, age and display columns.
use vstd::prelude::*;

use crate::text::{
    chars_of, decimal, push_char, push_chars, push_decimal, repeat_char, same_text,
};

verus! {

/// What an agent session is doing, as shown by the colored dot.
#[derive(Clone, Copy, PartialEq, Eq, Debug, Structural)]
pub enum State {
    Idle,
    Running,
    Waiting,
}

impl Default for State {
    fn default() -> (r: State)
        ensures
            r == State::Idle,
    {
        State::Idle
    }
}

/// The color a state is drawn in.
pub open spec fn state_color(s: State) -> Seq<char> {
    match s {
        State::Running => "#50fa7b"@,
        State::Waiting => "#ff79c6"@,
        State::Idle => "#ffffff"@,
    }
}

impl State {
    /// Same glyph for every state, so that columns stay aligned; the color carries
    /// the meaning.
    pub fn glyph(self) -> (r: &'static str)
        ensures
            r@ == "●"@,
    {
        "●"
    }

    /// The color of the state's dot: green running, pink waiting, white idle.
    pub fn color(self) -> (r: &'static str)
        ensures
            r@ == state_color(self),
    {
        match self {
            State::Running => "#50fa7b",
            State::Waiting => "#ff79c6",
            State::Idle => "#ffffff",
        }
    }
}

/// One top-level session row, with the facts about its latest message.
pub struct Session {
    pub id: String,
    pub title: String,
    pub directory: String,
    /// Last update, in epoch milliseconds.
    pub updated: i64,
    /// The pending permission request (its JSON text), if any.
    pub permission: Option<String>,
    /// Role of the latest message.
    pub role: Option<String>,
    /// Completion time of the latest message, if it completed.
    pub completed: Option<i64>,
    /// Finish reason of the latest message.
    pub finish: Option<String>,
    pub state: State,
}

/// Whole seconds elapsed from `epoch_ms` to `now_ms`, never negative.
pub open spec fn elapsed_secs(epoch_ms: int, now_ms: int) -> int {
    if now_ms - epoch_ms > 0 {
        (now_ms - epoch_ms) / 1000
    } else {
        0
    }
}

/// How long ago `epoch_ms` was, seen at `now_ms`: "now" under a minute, then whole
/// minutes ("2m"), hours ("2h") or days ("2d").
pub open spec fn relative_text(epoch_ms: int, now_ms: int) -> Seq<char> {
    let secs = elapsed_secs(epoch_ms, now_ms);
    if secs <= 59 {
        "now"@
    } else if secs <= 3599 {
        decimal((secs / 60) as nat).push('m')
    } else if secs <= 86399 {
        decimal((secs / 3600) as nat).push('h')
    } else {
        decimal((secs / 86400) as nat).push('d')
    }
}

/// The age of a timestamp relative to a given "now".
pub fn relative_time_at(epoch_ms: i64, now_ms: i64) -> (r: String)
    requires
        i64::MIN <= now_ms - epoch_ms <= i64::MAX,
    ensures
        r@ == relative_text(epoch_ms as int, now_ms as int),
{
    let diff = now_ms - epoch_ms;
    let secs: u64 = if diff > 0 {
        (diff / 1000) as u64
    } else {
        0
    };
    if secs <= 59 {
        String::from_str("now")
    } else {
        let mut r = String::new();
        if secs <= 3599 {
            push_decimal(&mut r, secs / 60);
            push_char(&mut r, 'm');
        } else if secs <= 86399 {
            push_decimal(&mut r, secs / 3600);
            push_char(&mut r, 'h');
        } else {
            push_decimal(&mut r, secs / 86400);
            push_char(&mut r, 'd');
        }
        assert(r@ =~= relative_text(epoch_ms as int, now_ms as int));
        r
    }
}

/// Whether the age of every session can be taken at `now_ms` without overflow.
pub open spec fn ages_fit(ss: Seq<Session>, now_ms: int) -> bool {
    forall|i: int| 0 <= i < ss.len() ==> i64::MIN <= now_ms - #[trigger] ss[i].updated <= i64::MAX
}

/// A string cut to `width` characters: unchanged when it fits, otherwise its first
/// `width - 1` characters and an ellipsis; nothing at all for width zero.
pub open spec fn truncated(s: Seq<char>, width: nat) -> Seq<char> {
    if s.len() <= width {
        s
    } else if width == 0 {
        Seq::empty()
    } else {
        s.take(width - 1).push('…')
    }
}

/// A string brought to a column of `width` characters: right-padded with
/// non-breaking spaces when it fits, otherwise its first `width` characters and an
/// ellipsis.
pub open spec fn padded(s: Seq<char>, width: nat) -> Seq<char> {
    if s.len() > width {
        s.take(width as int).push('…')
    } else {
        s + repeat_char('\u{a0}', (width - s.len()) as nat)
    }
}

/// Appends the first `n` characters of `cs`.
fn push_prefix(out: &mut String, cs: &Vec<char>, n: usize)
    requires
        n <= cs.len(),
    ensures
        final(out)@ == old(out)@ + cs@.take(n as int),
{
    let ghost start = out@;
    let mut i: usize = 0;
    while i < n
        invariant
            i <= n <= cs.len(),
            out@ == start + cs@.take(i as int),
        decreases n - i,
    {
        push_char(out, cs[i]);
        i = i + 1;
        assert(cs@.take(i as int) =~= cs@.take(i - 1).push(cs@[i - 1]));
    }
}

/// Ellipsizes `s` to `width` display characters.
pub fn truncate(s: &str, width: usize) -> (r: String)
    ensures
        r@ == truncated(s@, width as nat),
{
    let cs = chars_of(s);
    if cs.len() <= width {
        String::from_str(s)
    } else if width == 0 {
        String::new()
    } else {
        let mut r = String::new();
        push_prefix(&mut r, &cs, width - 1);
        push_char(&mut r, '…');
        assert(r@ =~= truncated(s@, width as nat));
        r
    }
}

/// Pads `s` on the right with non-breaking spaces (GTK collapses regular spaces)
/// to `width` characters, ellipsizing it when it is longer.
pub fn pad(s: &str, width: usize) -> (r: String)
    ensures
        r@ == padded(s@, width as nat),
{
    let cs = chars_of(s);
    let mut r = String::new();
    if cs.len() > width {
        push_prefix(&mut r, &cs, width);
        push_char(&mut r, '…');
        assert(r@ =~= padded(s@, width as nat));
    } else {
        push_chars(&mut r, &cs);
        let fill = width - cs.len();
        let mut i: usize = 0;
        while i < fill
            invariant
                i <= fill,
                fill == width - s@.len(),
                r@ == s@ + repeat_char('\u{a0}', i as nat),
            decreases fill - i,
        {
            push_char(&mut r, '\u{a0}');
            i = i + 1;
            assert(r@ =~= s@ + repeat_char('\u{a0}', i as nat));
        }
        assert(r@ =~= padded(s@, width as nat));
    }
    r
}

/// Where the last path component of `p` starts: just after its last '/', or 0.
pub open spec fn component_start(p: Seq<char>) -> nat
    decreases p.len(),
{
    if p.len() == 0 {
        0
    } else if p.last() == '/' {
        p.len()
    } else {
        component_start(p.drop_last())
    }
}

/// The file name of a '/'-separated path: its last component, where empty and "."
/// components do not count; none when the path has no component or ends in "..".
pub open spec fn file_name(p: Seq<char>) -> Option<Seq<char>>
    decreases p.len(),
{
    if p.len() == 0 {
        None
    } else if p.last() == '/' {
        file_name(p.drop_last())
    } else {
        let k = component_start(p);
        let name = p.subrange(k as int, p.len() as int);
        if k < p.len() && name == seq!['.'] {
            file_name(p.take(k as int))
        } else if name == seq!['.', '.'] {
            None
        } else {
            Some(name)
        }
    }
}

pub(crate) proof fn lemma_component_has_no_slash(p: Seq<char>)
    ensures
        forall|i: int| component_start(p) <= i < p.len() ==> p[i] != '/',
    decreases p.len(),
{
    if p.len() > 0 && p.last() != '/' {
        lemma_component_has_no_slash(p.drop_last());
        lemma_component_start_bound(p.drop_last());
        assert forall|i: int| component_start(p) <= i < p.len() implies p[i] != '/' by {
            if i < p.len() - 1 {
                assert(p[i] == p.drop_last()[i]);
            }
        }
    }
}

pub(crate) proof fn lemma_component_start_bound(p: Seq<char>)
    ensures
        component_start(p) <= p.len(),
        p.len() > 0 && p.last() != '/' ==> component_start(p) < p.len(),
    decreases p.len(),
{
    if p.len() > 0 && p.last() != '/' {
        lemma_component_start_bound(p.drop_last());
    }
}

/// Locates the file name of the path `cs`, as a range of positions.
fn file_name_range(cs: &Vec<char>) -> (r: Option<(usize, usize)>)
    ensures
        match r {
            Some((a, b)) => a <= b <= cs.len() && file_name(cs@) == Some(
                cs@.subrange(a as int, b as int),
            ),
            None => file_name(cs@) is None,
        },
{
    let mut end: usize = cs.len();
    assert(cs@.take(end as int) =~= cs@);
    loop
        invariant
            end <= cs.len(),
            file_name(cs@) == file_name(cs@.take(end as int)),
        decreases end,
    {
        if end == 0 {
            return None;
        }
        if cs[end - 1] == '/' {
            assert(cs@.take(end as int).drop_last() =~= cs@.take(end - 1));
            end = end - 1;
        } else {
            let ghost p = cs@.take(end as int);
            let mut start: usize = end - 1;
            assert(p.drop_last() =~= cs@.take(start as int));
            while start > 0 && cs[start - 1] != '/'
                invariant
                    start < end <= cs.len(),
                    p == cs@.take(end as int),
                    component_start(p) == component_start(cs@.take(start as int)),
                decreases start,
            {
                assert(cs@.take(start as int).drop_last() =~= cs@.take(start - 1));
                start = start - 1;
            }
            assert(component_start(p) == start) by {
                if start > 0 {
                    assert(cs@.take(start as int).last() == '/');
                }
            }
            proof {
                lemma_component_start_bound(p);
            }
            let ghost name = p.subrange(start as int, end as int);
            assert(name =~= cs@.subrange(start as int, end as int));
            let len = end - start;
            if len == 1 && cs[start] == '.' {
                assert(name =~= seq!['.']);
                assert(p.take(start as int) =~= cs@.take(start as int));
                end = start;
            } else if len == 2 && cs[start] == '.' && cs[start + 1] == '.' {
                assert(name =~= seq!['.', '.']);
                return None;
            } else {
                assert(name.len() == len && (len >= 1 ==> name[0] == cs@[start as int]));
                assert(len >= 2 ==> name[1] == cs@[start + 1]);
                assert(seq!['.'].len() == 1 && seq!['.'][0] == '.');
                assert(seq!['.', '.'].len() == 2 && seq!['.', '.'][0] == '.' && seq!['.', '.'][1] == '.');
                assert(name != seq!['.']);
                assert(name != seq!['.', '.']);
                return Some((start, end));
            }
        }
    }
}

/// How a directory is labelled: its file name, or the whole path when it has none.
pub open spec fn dir_label(dir: Seq<char>) -> Seq<char> {
    match file_name(dir) {
        Some(name) => name,
        None => dir,
    }
}

/// The base name of a directory, or the directory itself when it has none.
pub fn short_dir(dir: &str) -> (r: String)
    ensures
        r@ == dir_label(dir@),
{
    let cs = chars_of(dir);
    match file_name_range(&cs) {
        Some((a, b)) => {
            let mut r = String::new();
            let mut i: usize = a;
            while i < b
                invariant
                    a <= i <= b <= cs.len(),
                    r@ == cs@.subrange(a as int, i as int),
                decreases b - i,
            {
                push_char(&mut r, cs[i]);
                i = i + 1;
                assert(r@ =~= cs@.subrange(a as int, i as int));
            }
            r
        },
        None => String::from_str(dir),
    }
}

/// Whether an optional text holds exactly `lit`.
pub open spec fn text_is(t: Option<String>, lit: Seq<char>) -> bool {
    t matches Some(x) && x@ == lit
}

/// How long a finished turn keeps a session waiting on its user: 15 minutes.
pub const RECENT_WINDOW_MS: i64 = 900_000;

/// Whether the state of `s` depends on the clock: no pending permission, and the
/// latest message is an assistant turn that completed with finish reason "stop".
pub open spec fn turn_just_ended(s: Session) -> bool {
    &&& s.permission is None
    &&& text_is(s.role, "assistant"@)
    &&& s.completed is Some
    &&& text_is(s.finish, "stop"@)
}

/// The state of a session seen at `now_ms`: waiting on a pending permission;
/// running while the user's turn is pending or the assistant's message is
/// unfinished; waiting on the user for 15 minutes after a turn ended with "stop";
/// idle otherwise.
pub open spec fn state_at(s: Session, now_ms: int) -> State {
    if s.permission is Some {
        State::Waiting
    } else if text_is(s.role, "user"@) {
        State::Running
    } else if text_is(s.role, "assistant"@) && s.completed is None {
        State::Running
    } else if turn_just_ended(s) && recent(s.updated as int, RECENT_WINDOW_MS as int, now_ms) {
        State::Waiting
    } else {
        State::Idle
    }
}

/// Whether a moment lies less than `window_ms` before `now_ms`.
pub open spec fn recent(epoch_ms: int, window_ms: int, now_ms: int) -> bool {
    epoch_ms + window_ms > now_ms
}

/// Whether `epoch_ms + window_ms` lies after `now_ms`.
pub fn is_recent_at(epoch_ms: i64, window_ms: i64, now_ms: i64) -> (r: bool)
    requires
        i64::MIN <= epoch_ms + window_ms <= i64::MAX,
    ensures
        r == recent(epoch_ms as int, window_ms as int, now_ms as int),
{
    epoch_ms + window_ms > now_ms
}

fn text_eq(t: &Option<String>, lit: &str) -> (r: bool)
    ensures
        r == text_is(*t, lit@),
{
    match t {
        Some(x) => same_text(x.as_str(), lit),
        None => false,
    }
}

/// The state of a session seen at `now_ms`, the current time in epoch
/// milliseconds.
pub fn derive_state(s: &Session, now_ms: i64) -> (r: State)
    requires
        turn_just_ended(*s) ==> s.updated + RECENT_WINDOW_MS <= i64::MAX,
    ensures
        r == state_at(*s, now_ms as int),
{
    if s.permission.is_some() {
        return State::Waiting;
    }
    if text_eq(&s.role, "user") {
        State::Running
    } else if text_eq(&s.role, "assistant") && s.completed.is_none() {
        State::Running
    } else if text_eq(&s.role, "assistant") && s.completed.is_some() && text_eq(&s.finish, "stop")
        && is_recent_at(s.updated, RECENT_WINDOW_MS, now_ms) {
        State::Waiting
    } else {
        State::Idle
    }
}

/// The session `s` with its state replaced by `st`.
pub open spec fn with_state(s: Session, st: State) -> Session {
    Session { state: st, ..s }
}

/// The rows updated at or after `boot_ms`, in their order.
pub open spec fn since_boot(rows: Seq<Session>, boot_ms: int) -> Seq<Session> {
    rows.filter(|s: Session| s.updated >= boot_ms)
}

/// A row whose state can be derived without arithmetic overflow.
pub open spec fn window_fits(s: Session) -> bool {
    turn_just_ended(s) ==> s.updated + RECENT_WINDOW_MS <= i64::MAX
}

/// The session list as the widget shows it: each row gets its state at `now_ms`,
/// and only sessions touched since `boot_ms` (the last boot) remain, in their
/// order.
pub fn list(rows: Vec<Session>, boot_ms: i64, now_ms: i64) -> (r: Vec<Session>)
    requires
        forall|i: int| 0 <= i < rows.len() ==> window_fits(#[trigger] rows@[i]),
    ensures
        r.len() == since_boot(rows@, boot_ms as int).len(),
        forall|i: int|
            0 <= i < r.len() ==> {
                let row = since_boot(rows@, boot_ms as int)[i];
                #[trigger] r@[i] == with_state(row, state_at(row, now_ms as int))
            },
{
    let ghost orig = rows@;
    let mut rest = rows;
    let mut out: Vec<Session> = Vec::new();
    let ghost mut k: int = 0;
    assert(orig.take(0) =~= Seq::<Session>::empty());
    proof {
        reveal_with_fuel(Seq::filter, 1);
    }
    assert(orig.skip(0) =~= orig);
    while rest.len() > 0
        invariant
            0 <= k <= orig.len(),
            rest@ == orig.skip(k),
            forall|i: int| 0 <= i < orig.len() ==> window_fits(#[trigger] orig[i]),
            out.len() == since_boot(orig.take(k), boot_ms as int).len(),
            forall|i: int|
                0 <= i < out.len() ==> {
                    let row = since_boot(orig.take(k), boot_ms as int)[i];
                    #[trigger] out@[i] == with_state(row, state_at(row, now_ms as int))
                },
        decreases rest.len(),
    {
        let mut s = rest.remove(0);
        assert(s == orig[k]);
        let st = derive_state(&s, now_ms);
        let ghost row = s;
        s.state = st;
        let ghost before = out@;
        if s.updated >= boot_ms {
            out.push(s);
        }
        proof {
            reveal_with_fuel(Seq::filter, 1);
            let t1 = orig.take(k + 1);
            assert(t1.drop_last() =~= orig.take(k));
            assert(t1.last() == row);
            assert(s == with_state(row, st));
            let f0 = since_boot(orig.take(k), boot_ms as int);
            let f1 = since_boot(t1, boot_ms as int);
            if row.updated >= boot_ms {
                assert(f1 == f0.push(row));
                assert(out@ == before.push(s));
                assert forall|i: int| 0 <= i < out.len() implies {
                    let r = f1[i];
                    #[trigger] out@[i] == with_state(r, state_at(r, now_ms as int))
                } by {
                    if i < before.len() {
                        assert(out@[i] == before[i]);
                        assert(f1[i] == f0[i]);
                    }
                }
            } else {
                assert(f1 == f0);
            }
            k = k + 1;
            assert(rest@ =~= orig.skip(k));
        }
    }
    assert(orig.take(k) =~= orig);
    out
}

} // verus!
