//! The debug view: one line per session, as the widget sees it.
use vstd::prelude::*;

use crate::columns::{max_len, title_width, titles};
use crate::session::{
    ages_fit, dir_label, pad, padded, relative_text, relative_time_at, short_dir, Session,
};
use crate::text::{push_char, push_str};

verus! {

/// Titles are cut to at most this many characters in the debug view.
pub const LIST_TITLE_CAP: usize = 70;

/// A debug line for `s`, with a title column of `width` and the age seen at
/// `now_ms`: glyph, title, directory label, "·", age.
pub open spec fn list_line_text(s: Session, width: nat, now_ms: int) -> Seq<char> {
    "●"@ + seq![' '] + padded(s.title@, width) + seq![' '] + dir_label(s.directory@) + seq![
        ' ',
        '·',
        ' ',
    ] + relative_text(s.updated as int, now_ms)
}

/// The width of the title column of the debug view.
pub open spec fn list_width(ss: Seq<Session>) -> nat {
    if max_len(titles(ss)) < LIST_TITLE_CAP {
        max_len(titles(ss))
    } else {
        LIST_TITLE_CAP as nat
    }
}

fn list_line_head(s: &Session, width: usize) -> (r: String)
    ensures
        r@ == "●"@ + seq![' '] + padded(s.title@, width as nat) + seq![' '] + dir_label(
            s.directory@,
        ) + seq![' ', '·', ' '],
{
    let mut r = String::new();
    push_str(&mut r, s.state.glyph());
    push_char(&mut r, ' ');
    let title = pad(s.title.as_str(), width);
    push_str(&mut r, title.as_str());
    push_char(&mut r, ' ');
    let dir = short_dir(s.directory.as_str());
    push_str(&mut r, dir.as_str());
    push_char(&mut r, ' ');
    push_char(&mut r, '·');
    push_char(&mut r, ' ');
    assert(r@ =~= "●"@ + seq![' '] + padded(s.title@, width as nat) + seq![' '] + dir_label(
        s.directory@,
    ) + seq![' ', '·', ' ']);
    r
}

/// The debug line of a session, its age seen at `now_ms`.
pub fn list_line(s: &Session, width: usize, now_ms: i64) -> (r: String)
    requires
        i64::MIN <= now_ms - s.updated <= i64::MAX,
    ensures
        r@ == list_line_text(*s, width as nat, now_ms as int),
{
    let mut r = list_line_head(s, width);
    let age = relative_time_at(s.updated, now_ms);
    push_str(&mut r, age.as_str());
    assert(r@ =~= list_line_text(*s, width as nat, now_ms as int));
    r
}

/// The debug view of the session list at `now_ms`: one line per session, titles
/// padded to the longest title (at most 70 characters).
pub fn list_lines(sessions: &Vec<Session>, now_ms: i64) -> (r: Vec<String>)
    requires
        ages_fit(sessions@, now_ms as int),
    ensures
        r.len() == sessions.len(),
        forall|i: int|
            0 <= i < r.len() ==> #[trigger] r@[i]@ == list_line_text(
                sessions@[i],
                list_width(sessions@),
                now_ms as int,
            ),
{
    let width = title_width(sessions, LIST_TITLE_CAP);
    let mut r: Vec<String> = Vec::new();
    let mut i: usize = 0;
    while i < sessions.len()
        invariant
            i <= sessions.len(),
            r.len() == i,
            width == list_width(sessions@),
            ages_fit(sessions@, now_ms as int),
            forall|j: int|
                0 <= j < i ==> #[trigger] r@[j]@ == list_line_text(
                    sessions@[j],
                    width as nat,
                    now_ms as int,
                ),
        decreases sessions.len() - i,
    {
        let line = list_line(&sessions[i], width, now_ms);
        r.push(line);
        i = i + 1;
    }
    r
}

} // verus!
