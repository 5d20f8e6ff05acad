//! Properties of the library that hold across its functions and inputs.
use vstd::prelude::*;

use crate::session::{
    component_start, dir_label, lemma_component_has_no_slash, lemma_component_start_bound,
    file_name, padded, relative_text, since_boot, state_at, truncated, turn_just_ended, Session,
    State, RECENT_WINDOW_MS,
};
use crate::pick::{
    first_at, first_window, pick_step, resume_script, terminal_title, texts, window_title_for, PickAction,
    PickError, PickEvent, PickState, Window,
};
use crate::usage::{chosen_body, fresh, remaining_text, REFRESH_SECS};
use crate::columns::{max_len, titles};
use crate::listing::{list_width, LIST_TITLE_CAP};
use crate::usage::UsageStatus;
use crate::waybar::{
    any_waiting, class_text, count_state, escaped, icon_text, sessions_bar_ok, BarOutput,
};

verus! {

/// Truncation never exceeds the width: the result is as long as the string or
/// the width, whichever is less, and it keeps the string's beginning.
pub proof fn truncate_fits_width(s: Seq<char>, width: nat)
    ensures
        truncated(s, width).len() == if s.len() <= width {
            s.len()
        } else {
            width
        },
        s.len() > width && width > 0 ==> truncated(s, width).take(width - 1) == s.take(width - 1),
{
    if s.len() > width && width > 0 {
        assert(truncated(s, width).take(width - 1) =~= s.take(width - 1));
    }
}

/// Padding aligns columns: a string that fits is padded to exactly the width and
/// keeps its text; a longer one is cut to the width and marked with an ellipsis.
pub proof fn pad_fills_column(s: Seq<char>, width: nat)
    ensures
        s.len() <= width ==> padded(s, width).len() == width && padded(s, width).take(
            s.len() as int,
        ) == s,
        s.len() > width ==> padded(s, width).len() == width + 1 && padded(s, width).last() == '…'
            && padded(s, width).take(width as int) == s.take(width as int),
{
    if s.len() <= width {
        assert(padded(s, width).take(s.len() as int) =~= s);
    } else {
        assert(padded(s, width).take(width as int) =~= s.take(width as int));
    }
}

/// A moment that is not in the past reads "now".
pub proof fn future_reads_now(epoch_ms: int, now_ms: int)
    requires
        epoch_ms >= now_ms,
    ensures
        relative_text(epoch_ms, now_ms) == "now"@,
{
}

/// A pending permission request always means the session waits on its user,
/// whatever its messages say and whenever it is looked at.
pub proof fn permission_always_waits(s: Session, now_ms: int)
    requires
        s.permission is Some,
    ensures
        state_at(s, now_ms) == State::Waiting,
{
}

/// Only a turn that just ended depends on the clock; every other session has the
/// same state at every moment.
pub proof fn state_ignores_clock(s: Session, now1: int, now2: int)
    requires
        !turn_just_ended(s),
    ensures
        state_at(s, now1) == state_at(s, now2),
{
}

/// As time passes a session only goes from waiting to idle: once idle it stays
/// idle, and a waiting session becomes idle 15 minutes after its last update
/// unless a permission request is pending.
pub proof fn idle_stays_idle(s: Session, now1: int, now2: int)
    requires
        now1 <= now2,
    ensures
        state_at(s, now1) == State::Idle ==> state_at(s, now2) == State::Idle,
        state_at(s, now1) != State::Idle ==> state_at(s, now2) == state_at(s, now1) || (
        state_at(s, now2) == State::Idle && s.permission is None && now2 >= s.updated
            + RECENT_WINDOW_MS),
{
}

/// The session list only holds sessions touched since the boot, and holds all of
/// them.
pub proof fn list_is_since_boot(rows: Seq<Session>, boot_ms: int)
    ensures
        forall|i: int|
            0 <= i < since_boot(rows, boot_ms).len() ==> #[trigger] since_boot(
                rows,
                boot_ms,
            )[i].updated >= boot_ms,
        forall|i: int|
            0 <= i < rows.len() && rows[i].updated >= boot_ms ==> since_boot(
                rows,
                boot_ms,
            ).contains(#[trigger] rows[i]),
{
    broadcast use vstd::seq_lib::group_filter_ensures;

    let p = |s: Session| s.updated >= boot_ms;
    assert forall|i: int|
        0 <= i < since_boot(rows, boot_ms).len() implies #[trigger] since_boot(
        rows,
        boot_ms,
    )[i].updated >= boot_ms by {
        rows.lemma_filter_pred(p, i);
    }
    assert forall|i: int| 0 <= i < rows.len() && rows[i].updated >= boot_ms implies since_boot(
        rows,
        boot_ms,
    ).contains(#[trigger] rows[i]) by {
        rows.lemma_filter_contains(p, i);
    }
}

/// Escaped text holds no '<' and no '>', so a title cannot open or close markup.
pub proof fn escaped_has_no_brackets(s: Seq<char>)
    ensures
        forall|i: int|
            0 <= i < escaped(s).len() ==> #[trigger] escaped(s)[i] != '<' && escaped(s)[i] != '>',
    decreases s.len(),
{
    if s.len() > 0 {
        escaped_has_no_brackets(s.drop_last());
        let c = s.last();
        let head = escaped(s.drop_last());
        let tail = if c == '&' {
            "&amp;"@
        } else if c == '<' {
            "&lt;"@
        } else if c == '>' {
            "&gt;"@
        } else {
            seq![c]
        };
        reveal_strlit("&amp;");
        reveal_strlit("&lt;");
        reveal_strlit("&gt;");
        assert forall|i: int| 0 <= i < escaped(s).len() implies #[trigger] escaped(s)[i] != '<'
            && escaped(s)[i] != '>' by {
            if i >= head.len() {
                assert(escaped(s)[i] == tail[i - head.len()]);
            } else {
                assert(escaped(s)[i] == head[i]);
            }
        }
    }
}

proof fn count_positive(ss: Seq<Session>, st: State)
    ensures
        count_state(ss, st) > 0 <==> exists|i: int| 0 <= i < ss.len() && (#[trigger] ss[i]).state == st,
    decreases ss.len(),
{
    if ss.len() > 0 {
        count_positive(ss.drop_last(), st);
        if exists|i: int| 0 <= i < ss.len() && (#[trigger] ss[i]).state == st {
            let i = choose|i: int| 0 <= i < ss.len() && (#[trigger] ss[i]).state == st;
            if i < ss.len() - 1 {
                assert(ss.drop_last()[i] == ss[i]);
            }
        }
        if exists|i: int| 0 <= i < ss.drop_last().len() && (#[trigger] ss.drop_last()[i]).state == st {
            let i = choose|i: int| 0 <= i < ss.drop_last().len() && (#[trigger] ss.drop_last()[i]).state == st;
            assert(ss[i] == ss.drop_last()[i]);
        }
        if ss.last().state == st {
            assert(ss[ss.len() - 1].state == st);
        }
    }
}

proof fn count_waiting_positive(ss: Seq<Session>)
    ensures
        count_state(ss, State::Waiting) > 0 <==> any_waiting(ss),
    decreases ss.len(),
{
    if ss.len() > 0 {
        count_waiting_positive(ss.drop_last());
        if any_waiting(ss) {
            let i = choose|i: int| 0 <= i < ss.len() && (#[trigger] ss[i]).state == State::Waiting;
            if i < ss.len() - 1 {
                assert(ss.drop_last()[i] == ss[i]);
            }
        }
        if any_waiting(ss.drop_last()) {
            let i = choose|i: int|
                0 <= i < ss.drop_last().len() && (#[trigger] ss.drop_last()[i]).state
                    == State::Waiting;
            assert(ss[i] == ss.drop_last()[i]);
        }
        if ss.last().state == State::Waiting {
            assert(ss[ss.len() - 1].state == State::Waiting);
        }
    }
}

/// The bar icon is the bell exactly when the bar's class is "oc-waiting": both
/// say that some session waits on its user, which outranks running ones.
pub proof fn icon_agrees_with_class(ss: Seq<Session>)
    ensures
        icon_text(ss) == "󰚌"@ <==> class_text(
            count_state(ss, State::Waiting),
            count_state(ss, State::Running),
        ) == "oc-waiting"@,
{
    count_waiting_positive(ss);
    reveal_strlit("󰚌");
    reveal_strlit("󱙺");
    reveal_strlit("oc-waiting");
    reveal_strlit("oc-running");
    reveal_strlit("normal");
    assert("󰚌"@[0] != "󱙺"@[0]);
    assert("oc-waiting"@[3] != "oc-running"@[3]);
    assert("oc-waiting"@.len() != "normal"@.len());
}

/// The usage is fetched at most once a minute: a cache younger than a minute is
/// fresh, an older one is not, and one stamped in the future is fresh.
pub proof fn cache_fresh_for_a_minute(now_secs: int, fetched_at: int)
    ensures
        now_secs >= fetched_at ==> (fresh(now_secs, fetched_at) <==> now_secs - fetched_at
            < REFRESH_SECS),
        now_secs < fetched_at ==> fresh(now_secs, fetched_at),
{
}

/// A file name is a proper component: not empty, without '/', and neither "."
/// nor "..".
pub proof fn file_name_is_component(p: Seq<char>)
    ensures
        file_name(p) matches Some(n) ==> n.len() > 0 && !n.contains('/') && n != seq!['.'] && n
            != seq!['.', '.'],
    decreases p.len(),
{
    if p.len() > 0 {
        if p.last() == '/' {
            file_name_is_component(p.drop_last());
        } else {
            let k = component_start(p);
            lemma_component_start_bound(p);
            lemma_component_has_no_slash(p);
            let name = p.subrange(k as int, p.len() as int);
            if k < p.len() && name == seq!['.'] {
                file_name_is_component(p.take(k as int));
            } else if name != seq!['.', '.'] {
                assert forall|i: int| 0 <= i < name.len() implies name[i] != '/' by {
                    assert(name[i] == p[k + i]);
                }
            }
        }
    }
}

/// How many steps the picker can still take from a state.
pub open spec fn steps_left(state: PickState) -> nat {
    match state {
        PickState::Start => 3,
        PickState::Choosing { .. } => 2,
        PickState::Opening { .. } => 1,
        PickState::Done => 0,
    }
}

/// Every step of the picker moves it closer to the end: a run takes at most three
/// steps, and a state that is not done always leads somewhere.
pub proof fn pick_always_ends(state: PickState, event: PickEvent, next: PickState, action: PickAction)
    requires
        pick_step(state, event, next, action),
    ensures
        steps_left(next) < steps_left(state),
{
    if let (PickState::Choosing { sessions, lines }, PickEvent::Selected(sel)) = (state, event) {
        if sel@.len() > 0 && exists|i: int| first_at(texts(lines@), sel@, i) {
            let i = choose|i: int| first_at(texts(lines@), sel@, i);
            assert(state->sessions == sessions && state->lines == lines);
            assert(event->Selected_0 == sel);
            assert(first_at(texts(lines@), sel@, i));
            assert(next is Opening && next->session == sessions@[i]);
        }
    }
}

/// Picking a menu entry opens the session it was shown for (the first one, when
/// two entries read the same); dismissing the menu cancels.
pub proof fn picked_entry_opens_its_session(
    sessions: Vec<Session>,
    lines: Vec<String>,
    sel: String,
    i: int,
    next: PickState,
    action: PickAction,
)
    requires
        pick_step(PickState::Choosing { sessions, lines }, PickEvent::Selected(sel), next, action),
        0 <= i < lines.len(),
        lines@[i]@ == sel@,
        forall|j: int| 0 <= j < i ==> lines@[j]@ != sel@,
    ensures
        sel@.len() == 0 ==> action == PickAction::Fail(PickError::SelectionCanceled),
        sel@.len() > 0 ==> (next matches PickState::Opening { session } && session == sessions@[i]),
        sel@.len() > 0 ==> action is ListWindows,
{
    let ls = texts(lines@);
    assert(ls[i] == sel@);
    assert(forall|j: int| 0 <= j < i ==> ls[j] == lines@[j]@);
    if sel@.len() > 0 {
        assert(crate::pick::first_at(ls, sel@, i));
        if let PickState::Opening { session } = next {
            let k = choose|k: int| crate::pick::first_at(ls, sel@, k) && session == sessions@[k];
            if k < i {
                assert(ls[k] == lines@[k]@);
            }
            if i < k {
                assert(ls[i] != sel@);
            }
        }
    }
}

/// Opening a picked session focuses the first window titled "OC | <title>" when
/// there is one, and otherwise launches a terminal titled "OC <id>" that resumes the
/// session in its directory; either way the picker is then done.
pub proof fn picked_session_is_focused_or_launched(
    session: Session,
    windows: Vec<Window>,
    next: PickState,
    action: PickAction,
)
    requires
        pick_step(PickState::Opening { session }, PickEvent::Windows(windows), next, action),
    ensures
        next is Done,
        forall|i: int|
            first_window(windows@, window_title_for(session.title@), i) ==> action
                == PickAction::Focus(#[trigger] windows@[i].id),
        (forall|i: int|
            0 <= i < windows.len() ==> (#[trigger] windows@[i]).title@ != window_title_for(
                session.title@,
            )) ==> (action matches PickAction::Launch { title, script } && title@
            == terminal_title(session.id@) && script@ == resume_script(
            session.directory@,
            session.id@,
        )),
{
    let t = window_title_for(session.title@);
    let st = PickState::Opening { session };
    let ev = PickEvent::Windows(windows);
    assert(st->session == session);
    assert(ev->Windows_0 == windows);
    if forall|i: int| 0 <= i < windows.len() ==> (#[trigger] windows@[i]).title@ != t {
        assert(!exists|i: int| first_window(windows@, t, i));
    }
}

/// A session whose latest message is an assistant message that has not completed
/// is running, whatever its finish reason and whenever it is looked at, unless a
/// permission request is pending.
pub proof fn unfinished_assistant_is_running(s: Session, now_ms: int)
    requires
        s.permission is None,
        s.role matches Some(r) && r@ == "assistant"@,
        s.completed is None,
    ensures
        state_at(s, now_ms) == State::Running,
{
    reveal_strlit("assistant");
    reveal_strlit("user");
    assert("assistant"@[0] != "user"@[0]);
}

/// A user message awaiting its answer keeps a session running, unless a permission
/// request is pending.
pub proof fn pending_user_turn_is_running(s: Session, now_ms: int)
    requires
        s.permission is None,
        s.role matches Some(r) && r@ == "user"@,
    ensures
        state_at(s, now_ms) == State::Running,
{
}

/// The width of a column is the length of its longest entry: no entry is longer,
/// and some entry (if there is one) is exactly that long.
pub proof fn column_width_is_longest(ls: Seq<Seq<char>>)
    ensures
        forall|i: int| 0 <= i < ls.len() ==> (#[trigger] ls[i]).len() <= max_len(ls),
        ls.len() > 0 ==> exists|i: int| 0 <= i < ls.len() && (#[trigger] ls[i]).len() == max_len(ls),
        ls.len() == 0 ==> max_len(ls) == 0,
    decreases ls.len(),
{
    if ls.len() > 0 {
        let init = ls.drop_last();
        column_width_is_longest(init);
        assert forall|i: int| 0 <= i < ls.len() implies (#[trigger] ls[i]).len() <= max_len(ls) by {
            if i < ls.len() - 1 {
                assert(ls[i] == init[i]);
            }
        }
        if ls.last().len() > max_len(init) || init.len() == 0 {
            assert(ls[ls.len() - 1].len() == max_len(ls));
        } else {
            let k = choose|k: int| 0 <= k < init.len() && (#[trigger] init[k]).len() == max_len(init);
            assert(ls[k] == init[k]);
        }
    }
}

/// In the debug view a title no longer than the 70-character cap fits its column
/// and is shown whole, followed only by non-breaking spaces; no title is given a
/// column shorter than itself unless it is over the cap.
pub proof fn short_titles_are_shown_whole(ss: Seq<Session>, i: int)
    requires
        0 <= i < ss.len(),
        ss[i].title@.len() <= LIST_TITLE_CAP,
    ensures
        ss[i].title@.len() <= list_width(ss),
        padded(ss[i].title@, list_width(ss)).take(ss[i].title@.len() as int) == ss[i].title@,
        padded(ss[i].title@, list_width(ss)).len() == list_width(ss),
{
    column_width_is_longest(titles(ss));
    assert(titles(ss)[i] == ss[i].title@);
    pad_fills_column(ss[i].title@, list_width(ss));
}

/// Padding appends only non-breaking spaces (GTK collapses ordinary ones): a
/// string that fits is kept whole and every position after it, up to the width,
/// holds U+00A0.
pub proof fn pad_uses_nbsp(s: Seq<char>, width: nat)
    requires
        s.len() <= width,
    ensures
        forall|i: int| 0 <= i < s.len() ==> #[trigger] padded(s, width)[i] == s[i],
        forall|i: int| s.len() <= i < width ==> #[trigger] padded(s, width)[i] == '\u{a0}',
        padded(s, width).len() == width,
{
}

/// The picker focuses a window whose title is exactly "OC | " followed by the
/// session's own title, as stored (no escaping): the first such window wins.
pub proof fn window_with_raw_title_is_focused(
    session: Session,
    windows: Vec<Window>,
    next: PickState,
    action: PickAction,
    i: int,
)
    requires
        pick_step(PickState::Opening { session }, PickEvent::Windows(windows), next, action),
        0 <= i < windows.len(),
        windows@[i].title@ == "OC | "@ + session.title@,
        forall|j: int| 0 <= j < i ==> windows@[j].title@ != "OC | "@ + session.title@,
    ensures
        action == PickAction::Focus(windows@[i].id),
{
    picked_session_is_focused_or_launched(session, windows, next, action);
    assert(first_window(windows@, window_title_for(session.title@), i));
}

/// The bar's class follows the states: "oc-waiting" when some session waits;
/// otherwise "oc-running" exactly when some session runs, and "normal" when every
/// session is idle.
pub proof fn bar_class_follows_states(ss: Seq<Session>, u: UsageStatus, now_ms: int, r: BarOutput)
    requires
        sessions_bar_ok(ss, u, now_ms, r),
    ensures
        (exists|i: int| 0 <= i < ss.len() && (#[trigger] ss[i]).state == State::Waiting) ==> r.class@
            == "oc-waiting"@,
        !(exists|i: int| 0 <= i < ss.len() && (#[trigger] ss[i]).state == State::Waiting) ==> (
        r.class@ == "oc-running"@ <==> exists|i: int|
            0 <= i < ss.len() && (#[trigger] ss[i]).state == State::Running),
        (forall|i: int| 0 <= i < ss.len() ==> (#[trigger] ss[i]).state == State::Idle) ==> r.class@
            == "normal"@,
{
    count_positive(ss, State::Waiting);
    count_positive(ss, State::Running);
    reveal_strlit("oc-waiting");
    reveal_strlit("oc-running");
    reveal_strlit("normal");
    assert("oc-waiting"@[3] != "oc-running"@[3]);
    assert("oc-running"@.len() != "normal"@.len());
    if forall|i: int| 0 <= i < ss.len() ==> (#[trigger] ss[i]).state == State::Idle {
        assert(!exists|i: int| 0 <= i < ss.len() && (#[trigger] ss[i]).state == State::Waiting);
        assert(!exists|i: int| 0 <= i < ss.len() && (#[trigger] ss[i]).state == State::Running);
    }
}

/// A timestamp reads "now" exactly when less than a minute separates it from the
/// present; an older one reads as a number of minutes, hours or days.
pub proof fn age_reads_now_under_a_minute(epoch_ms: int, now_ms: int)
    ensures
        now_ms - epoch_ms < 60_000 ==> relative_text(epoch_ms, now_ms) == "now"@,
        now_ms - epoch_ms >= 60_000 ==> {
            let t = relative_text(epoch_ms, now_ms);
            &&& t.len() >= 2
            &&& t.last() == 'm' || t.last() == 'h' || t.last() == 'd'
            &&& now_ms - epoch_ms < 3_600_000 ==> t.last() == 'm'
            &&& 3_600_000 <= now_ms - epoch_ms < 86_400_000 ==> t.last() == 'h'
            &&& now_ms - epoch_ms >= 86_400_000 ==> t.last() == 'd'
        },
{
    if now_ms - epoch_ms >= 60_000 {
        let secs = (now_ms - epoch_ms) / 1000;
        assert(secs >= 60);
        let n: nat = if secs <= 3599 {
            (secs / 60) as nat
        } else if secs <= 86399 {
            (secs / 3600) as nat
        } else {
            (secs / 86400) as nat
        };
        decimal_not_empty(n);
    }
}

proof fn decimal_not_empty(n: nat)
    ensures
        crate::text::decimal(n).len() >= 1,
    decreases n,
{
    if n >= 10 {
        decimal_not_empty(n / 10);
    }
}

/// Truncation leaves text that fits untouched, and marks cut text with a final
/// ellipsis.
pub proof fn truncate_keeps_or_marks(s: Seq<char>, width: nat)
    ensures
        s.len() <= width ==> truncated(s, width) == s,
        s.len() > width && width > 0 ==> truncated(s, width).last() == '…',
        s.len() > width && width == 0 ==> truncated(s, width).len() == 0,
{
}

/// Escaping leaves text without '&', '<' and '>' unchanged.
pub proof fn escape_keeps_plain_text(s: Seq<char>)
    requires
        forall|i: int| 0 <= i < s.len() ==> #[trigger] s[i] != '&' && s[i] != '<' && s[i] != '>',
    ensures
        escaped(s) == s,
    decreases s.len(),
{
    if s.len() > 0 {
        escape_keeps_plain_text(s.drop_last());
        assert(s.drop_last().push(s.last()) =~= s);
    }
}

/// A directory name without '/' that is neither "." nor ".." is its own label.
pub proof fn plain_name_is_own_label(p: Seq<char>)
    requires
        p.len() > 0,
        forall|i: int| 0 <= i < p.len() ==> #[trigger] p[i] != '/',
        p != seq!['.'],
        p != seq!['.', '.'],
    ensures
        file_name(p) == Some(p),
        dir_label(p) == p,
{
    lemma_component_start_zero(p);
    assert(p.subrange(0, p.len() as int) =~= p);
}

proof fn lemma_component_start_zero(p: Seq<char>)
    requires
        forall|i: int| 0 <= i < p.len() ==> #[trigger] p[i] != '/',
    ensures
        component_start(p) == 0,
    decreases p.len(),
{
    if p.len() > 0 {
        assert(p.last() == p[p.len() - 1]);
        lemma_component_start_zero(p.drop_last());
    }
}

/// A fresh cache is used whatever a fetch returned; a stale one gives way to a
/// successful fetch and stands in for a failed one.
pub proof fn fresh_cache_ignores_fetch(
    now_secs: int,
    c: (u64, String),
    f1: Option<String>,
    f2: Option<String>,
)
    ensures
        fresh(now_secs, c.0 as int) ==> chosen_body(now_secs, Some(c), f1) == Some(c.1)
            && chosen_body(now_secs, Some(c), f1) == chosen_body(now_secs, Some(c), f2),
        !fresh(now_secs, c.0 as int) && f1 is Some ==> chosen_body(now_secs, Some(c), f1) == f1,
        !fresh(now_secs, c.0 as int) && f1 is None ==> chosen_body(now_secs, Some(c), f1) == Some(
            c.1,
        ),
        chosen_body(now_secs, None, f1) == f1,
{
}

/// The time left reads "now" exactly when no second is left.
pub proof fn remaining_reads_now_at_zero(secs: nat)
    ensures
        secs == 0 ==> remaining_text(secs) == "now"@,
        secs > 0 ==> remaining_text(secs).last() == 'm' || remaining_text(secs).last() == 'h',
{
}

} // verus!
