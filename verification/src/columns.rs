//! Column widths and line joining for the session lists.
use vstd::prelude::*;

use crate::session::{dir_label, short_dir, Session};
use crate::text::{push_char, push_str};

verus! {

/// The largest length among `ls`, 0 when there is none.
pub open spec fn max_len(ls: Seq<Seq<char>>) -> nat
    decreases ls.len(),
{
    if ls.len() == 0 {
        0
    } else {
        let m = max_len(ls.drop_last());
        if ls.last().len() > m {
            ls.last().len()
        } else {
            m
        }
    }
}

/// The titles of the sessions.
pub open spec fn titles(ss: Seq<Session>) -> Seq<Seq<char>> {
    ss.map_values(|s: Session| s.title@)
}

/// The directory labels of the sessions.
pub open spec fn dir_labels(ss: Seq<Session>) -> Seq<Seq<char>> {
    ss.map_values(|s: Session| dir_label(s.directory@))
}

/// `ls` joined into one sequence, with `sep` between neighbours.
pub open spec fn joined(ls: Seq<Seq<char>>, sep: Seq<char>) -> Seq<char>
    decreases ls.len(),
{
    if ls.len() == 0 {
        Seq::empty()
    } else if ls.len() == 1 {
        ls[0]
    } else {
        joined(ls.drop_last(), sep) + sep + ls.last()
    }
}

/// The width of the title column: the longest title in characters, at most `cap`.
pub fn title_width(sessions: &Vec<Session>, cap: usize) -> (r: usize)
    ensures
        r == if max_len(titles(sessions@)) < cap {
            max_len(titles(sessions@))
        } else {
            cap as nat
        },
{
    let mut m: usize = 0;
    let mut i: usize = 0;
    while i < sessions.len()
        invariant
            i <= sessions.len(),
            m == max_len(titles(sessions@).take(i as int)),
        decreases sessions.len() - i,
    {
        let n = sessions[i].title.as_str().unicode_len();
        proof {
            let ts = titles(sessions@);
            assert(ts.take(i + 1).drop_last() =~= ts.take(i as int));
            assert(ts.take(i + 1).last() == sessions@[i as int].title@);
        }
        if n > m {
            m = n;
        }
        i = i + 1;
    }
    assert(titles(sessions@).take(i as int) =~= titles(sessions@));
    if m < cap {
        m
    } else {
        cap
    }
}

/// Joins lines with '\n' between them.
pub fn join_lines(lines: &Vec<String>) -> (r: String)
    ensures
        r@ == joined(lines@.map_values(|l: String| l@), seq!['\n']),
{
    let ghost ls = lines@.map_values(|l: String| l@);
    let mut r = String::new();
    let mut i: usize = 0;
    while i < lines.len()
        invariant
            i <= lines.len(),
            ls == lines@.map_values(|l: String| l@),
            r@ == joined(ls.take(i as int), seq!['\n']),
        decreases lines.len() - i,
    {
        proof {
            assert(ls.take(i + 1).drop_last() =~= ls.take(i as int));
            assert(ls.take(i + 1).last() == lines@[i as int]@);
            if i == 0 {
                assert(ls.take(1) =~= seq![lines@[0]@]);
            }
        }
        if i > 0 {
            push_char(&mut r, '\n');
        }
        push_str(&mut r, lines[i].as_str());
        i = i + 1;
    }
    assert(ls.take(i as int) =~= ls);
    r
}

/// The width of the directory column: the longest directory label in characters.
pub fn dir_width(sessions: &Vec<Session>) -> (r: usize)
    ensures
        r == max_len(dir_labels(sessions@)),
{
    let mut m: usize = 0;
    let mut i: usize = 0;
    while i < sessions.len()
        invariant
            i <= sessions.len(),
            m == max_len(dir_labels(sessions@).take(i as int)),
        decreases sessions.len() - i,
    {
        let label = short_dir(sessions[i].directory.as_str());
        let n = label.as_str().unicode_len();
        proof {
            let ds = dir_labels(sessions@);
            assert(ds.take(i + 1).drop_last() =~= ds.take(i as int));
            assert(ds.take(i + 1).last() == dir_label(sessions@[i as int].directory@));
        }
        if n > m {
            m = n;
        }
        i = i + 1;
    }
    assert(dir_labels(sessions@).take(i as int) =~= dir_labels(sessions@));
    m
}

} // verus!
