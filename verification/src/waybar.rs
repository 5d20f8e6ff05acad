//! The waybar module's output: the bar text, its tooltip and its CSS class.
use vstd::prelude::*;

use crate::columns::{dir_labels, dir_width, join_lines, joined, max_len, title_width, titles};
use crate::session::{
    ages_fit, dir_label, pad, padded, relative_text, relative_time_at, short_dir,
    state_color, Session, State,
};
use crate::text::{chars_of, decimal, push_char, push_decimal, push_str};
use crate::usage::UsageStatus;

verus! {

/// Titles are cut to at most this many characters in the tooltip.
pub const TOOLTIP_TITLE_CAP: usize = 50;

/// Whether some session waits on its user.
pub open spec fn any_waiting(ss: Seq<Session>) -> bool {
    exists|i: int| 0 <= i < ss.len() && (#[trigger] ss[i]).state == State::Waiting
}

/// The bar icon: a bell when some session waits on its user, the plain mark
/// otherwise.
pub open spec fn icon_text(ss: Seq<Session>) -> Seq<char> {
    if any_waiting(ss) {
        "󰚌"@
    } else {
        "󱙺"@
    }
}

/// The bar icon for a session list.
pub fn icon(sessions: &Vec<Session>) -> (r: &'static str)
    ensures
        r@ == icon_text(sessions@),
{
    let mut i: usize = 0;
    while i < sessions.len()
        invariant
            i <= sessions.len(),
            forall|j: int| 0 <= j < i ==> (#[trigger] sessions@[j]).state != State::Waiting,
        decreases sessions.len() - i,
    {
        if sessions[i].state == State::Waiting {
            return "󰚌";
        }
        i = i + 1;
    }
    "󱙺"
}

/// The markup escape of one character: '&', '<' and '>' become entities.
pub open spec fn escape_char(c: char) -> Seq<char> {
    if c == '&' {
        "&amp;"@
    } else if c == '<' {
        "&lt;"@
    } else if c == '>' {
        "&gt;"@
    } else {
        seq![c]
    }
}

/// `s` with '&', '<' and '>' replaced by their entities, the rest unchanged.
pub open spec fn escaped(s: Seq<char>) -> Seq<char>
    decreases s.len(),
{
    if s.len() == 0 {
        Seq::empty()
    } else {
        escaped(s.drop_last()) + escape_char(s.last())
    }
}

/// Escapes text for Pango markup: "&" first, then "<" and ">".
pub fn html_escape(s: &str) -> (r: String)
    ensures
        r@ == escaped(s@),
{
    let cs = chars_of(s);
    let mut r = String::new();
    let mut i: usize = 0;
    while i < cs.len()
        invariant
            i <= cs.len(),
            cs@ == s@,
            r@ == escaped(cs@.take(i as int)),
        decreases cs.len() - i,
    {
        let c = cs[i];
        if c == '&' {
            push_str(&mut r, "&amp;");
        } else if c == '<' {
            push_str(&mut r, "&lt;");
        } else if c == '>' {
            push_str(&mut r, "&gt;");
        } else {
            push_char(&mut r, c);
        }
        assert(cs@.take(i + 1).drop_last() =~= cs@.take(i as int));
        assert(r@ =~= escaped(cs@.take(i + 1)));
        i = i + 1;
    }
    assert(cs@.take(i as int) =~= s@);
    r
}

/// The tooltip line of a session seen at `now_ms`, with title and directory
/// columns of `tw` and `dw` characters: a colored dot, the bold escaped title, the
/// italic escaped directory label, "·", and the bold italic age.
pub open spec fn tooltip_line_text(s: Session, tw: nat, dw: nat, now_ms: int) -> Seq<char> {
    "<span color=\""@ + state_color(s.state) + "\">"@ + "●"@ + "</span> <b>"@ + padded(
        escaped(s.title@),
        tw,
    ) + "</b> <i>"@ + padded(escaped(dir_label(s.directory@)), dw) + "</i> "@ + "·"@
        + " <b><i>"@ + relative_text(s.updated as int, now_ms) + "</i></b>"@
}

fn tooltip_line_head(s: &Session, tw: usize, dw: usize) -> (r: String)
    ensures
        r@ == "<span color=\""@ + state_color(s.state) + "\">"@ + "●"@ + "</span> <b>"@ + padded(
            escaped(s.title@),
            tw as nat,
        ) + "</b> <i>"@ + padded(escaped(dir_label(s.directory@)), dw as nat) + "</i> "@
            + "·"@ + " <b><i>"@,
{
    let mut r = String::from_str("<span color=\"");
    push_str(&mut r, s.state.color());
    push_str(&mut r, "\">");
    push_str(&mut r, s.state.glyph());
    push_str(&mut r, "</span> <b>");
    let title = pad(html_escape(s.title.as_str()).as_str(), tw);
    push_str(&mut r, title.as_str());
    push_str(&mut r, "</b> <i>");
    let dir = pad(html_escape(short_dir(s.directory.as_str()).as_str()).as_str(), dw);
    push_str(&mut r, dir.as_str());
    push_str(&mut r, "</i> ");
    push_str(&mut r, "·");
    push_str(&mut r, " <b><i>");
    r
}

/// The tooltip line of a session, its age seen at `now_ms`.
pub fn tooltip_line(s: &Session, tw: usize, dw: usize, now_ms: i64) -> (r: String)
    requires
        i64::MIN <= now_ms - s.updated <= i64::MAX,
    ensures
        r@ == tooltip_line_text(*s, tw as nat, dw as nat, now_ms as int),
{
    let mut r = tooltip_line_head(s, tw, dw);
    let age = relative_time_at(s.updated, now_ms);
    push_str(&mut r, age.as_str());
    push_str(&mut r, "</i></b>");
    r
}

/// How many sessions are in state `st`.
pub open spec fn count_state(ss: Seq<Session>, st: State) -> nat
    decreases ss.len(),
{
    if ss.len() == 0 {
        0
    } else {
        count_state(ss.drop_last(), st) + if ss.last().state == st {
            1nat
        } else {
            0nat
        }
    }
}

/// Counts the sessions in state `st`.
pub fn count_in_state(sessions: &Vec<Session>, st: State) -> (r: usize)
    ensures
        r == count_state(sessions@, st),
{
    let mut n: usize = 0;
    let mut i: usize = 0;
    while i < sessions.len()
        invariant
            i <= sessions.len(),
            n == count_state(sessions@.take(i as int), st),
            n <= i,
        decreases sessions.len() - i,
    {
        assert(sessions@.take(i + 1).drop_last() =~= sessions@.take(i as int));
        if sessions[i].state == st {
            n = n + 1;
        }
        i = i + 1;
    }
    assert(sessions@.take(i as int) =~= sessions@);
    n
}

/// The CSS class of the bar: "oc-waiting" when a session waits on its user, else
/// "oc-running" when one runs, else "normal".
pub open spec fn class_text(waiting: nat, running: nat) -> Seq<char> {
    if waiting > 0 {
        "oc-waiting"@
    } else if running > 0 {
        "oc-running"@
    } else {
        "normal"@
    }
}

/// The CSS class of the bar for the given numbers of waiting and running sessions.
pub fn bar_class(waiting: usize, running: usize) -> (r: &'static str)
    ensures
        r@ == class_text(waiting as nat, running as nat),
{
    if waiting > 0 {
        "oc-waiting"
    } else if running > 0 {
        "oc-running"
    } else {
        "normal"
    }
}

/// The usage part of the tooltip: the usage text and a newline; otherwise the error
/// in red after the mark, and a newline; otherwise nothing.
pub open spec fn usage_block_text(u: UsageStatus) -> Seq<char> {
    match u.tooltip {
        Some(html) => html@.push('\n'),
        None => match u.error {
            Some(err) => "<span color=\"#ff5555\">󱙺 "@ + err@ + "</span>\n"@,
            None => Seq::empty(),
        },
    }
}

/// The usage part of the tooltip.
pub fn usage_block(u: &UsageStatus) -> (r: String)
    ensures
        r@ == usage_block_text(*u),
{
    match &u.tooltip {
        Some(html) => {
            let mut r = String::from_str(html.as_str());
            push_char(&mut r, '\n');
            r
        },
        None => match &u.error {
            Some(err) => {
                let mut r = String::from_str("<span color=\"#ff5555\">󱙺 ");
                push_str(&mut r, err.as_str());
                push_str(&mut r, "</span>\n");
                r
            },
            None => String::new(),
        },
    }
}

/// What the bar module prints: its text, tooltip and CSS class.
pub struct BarOutput {
    pub text: String,
    pub tooltip: String,
    pub class: String,
}

/// The bar with no session: the usage alone, or a question mark and the error.
pub open spec fn usage_only_ok(u: UsageStatus, r: BarOutput) -> bool {
    match u.tooltip {
        Some(t) => {
            &&& r.text@ == "󱙺"@
            &&& r.tooltip@ == t@
            &&& r.class@ == (if u.error is Some {
                "error"@
            } else {
                "normal"@
            })
        },
        None => {
            &&& r.text@ == "󱙺?"@
            &&& r.tooltip@ == match u.error {
                Some(e) => e@,
                None => "usage unavailable"@,
            }
            &&& r.class@ == "error"@
        },
    }
}

/// The width of the tooltip's title column.
pub open spec fn tooltip_title_width(ss: Seq<Session>) -> nat {
    if max_len(titles(ss)) < TOOLTIP_TITLE_CAP {
        max_len(titles(ss))
    } else {
        TOOLTIP_TITLE_CAP as nat
    }
}

/// The tooltip lines of the sessions at `now_ms`, one per session in order, with
/// the title column at most 50 wide and the directory column as wide as the longest
/// label.
pub open spec fn tooltip_lines(ss: Seq<Session>, now_ms: int) -> Seq<Seq<char>> {
    Seq::new(
        ss.len(),
        |i: int|
            tooltip_line_text(ss[i], tooltip_title_width(ss), max_len(dir_labels(ss)), now_ms),
    )
}

/// The bar with sessions at `now_ms`: icon and count; the usage block and the
/// session lines, newline-separated, in a monospace block; the class from the
/// states.
pub open spec fn sessions_bar_ok(ss: Seq<Session>, u: UsageStatus, now_ms: int, r: BarOutput) -> bool {
    &&& r.text@ == icon_text(ss) + seq![' '] + decimal(ss.len())
    &&& r.tooltip@ == "<tt>"@ + usage_block_text(u) + joined(tooltip_lines(ss, now_ms), seq!['\n'])
        + "</tt>"@
    &&& r.class@ == class_text(count_state(ss, State::Waiting), count_state(ss, State::Running))
}

fn usage_only(u: UsageStatus) -> (r: BarOutput)
    ensures
        usage_only_ok(u, r),
{
    let has_error = u.error.is_some();
    match u.tooltip {
        Some(t) => BarOutput {
            text: String::from_str("󱙺"),
            tooltip: t,
            class: String::from_str(
                if has_error {
                    "error"
                } else {
                    "normal"
                },
            ),
        },
        None => BarOutput {
            text: String::from_str("󱙺?"),
            tooltip: match u.error {
                Some(e) => e,
                None => String::from_str("usage unavailable"),
            },
            class: String::from_str("error"),
        },
    }
}

/// The bar module's output for a session list and the usage status at `now_ms`:
/// with no session the usage alone; otherwise the icon and session count, a tooltip
/// with the usage block and one line per session (titles padded to the longest, at
/// most 50 characters; directories to the longest label), and the class.
pub fn bar_output(sessions: &Vec<Session>, usage: UsageStatus, now_ms: i64) -> (r: BarOutput)
    requires
        ages_fit(sessions@, now_ms as int),
    ensures
        sessions.len() == 0 ==> usage_only_ok(usage, r),
        sessions.len() > 0 ==> sessions_bar_ok(sessions@, usage, now_ms as int, r),
{
    if sessions.len() == 0 {
        return usage_only(usage);
    }
    let waiting = count_in_state(sessions, State::Waiting);
    let running = count_in_state(sessions, State::Running);
    let class = String::from_str(bar_class(waiting, running));
    let block = usage_block(&usage);
    let tw = title_width(sessions, TOOLTIP_TITLE_CAP);
    let dw = dir_width(sessions);
    let mut lines: Vec<String> = Vec::new();
    let mut i: usize = 0;
    while i < sessions.len()
        invariant
            i <= sessions.len(),
            lines.len() == i,
            tw == tooltip_title_width(sessions@),
            dw == max_len(dir_labels(sessions@)),
            ages_fit(sessions@, now_ms as int),
            forall|j: int|
                0 <= j < i ==> #[trigger] lines@[j]@ == tooltip_line_text(
                    sessions@[j],
                    tw as nat,
                    dw as nat,
                    now_ms as int,
                ),
        decreases sessions.len() - i,
    {
        let line = tooltip_line(&sessions[i], tw, dw, now_ms);
        lines.push(line);
        i = i + 1;
    }
    let list = join_lines(&lines);
    let mut tooltip = String::from_str("<tt>");
    push_str(&mut tooltip, block.as_str());
    push_str(&mut tooltip, list.as_str());
    push_str(&mut tooltip, "</tt>");
    let mut text = String::from_str(icon(sessions));
    push_char(&mut text, ' ');
    push_decimal(&mut text, sessions.len() as u64);
    let r = BarOutput { text, tooltip, class };
    let ghost ls = lines@.map_values(|l: String| l@);
    assert(ls =~= tooltip_lines(sessions@, now_ms as int));
    assert(r.text@ =~= icon_text(sessions@) + seq![' '] + decimal(sessions@.len()));
    assert(r.tooltip@ =~= "<tt>"@ + usage_block_text(usage) + joined(ls, seq!['\n']) + "</tt>"@);
    r
}

} // verus!
