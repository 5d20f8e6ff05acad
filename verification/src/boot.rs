//! The time of the last boot, read from the text of `/proc/stat`.
use vstd::prelude::*;

use crate::text::chars_of;

verus! {

/// Unicode white space, as `char::is_whitespace` defines it.
pub open spec fn is_space(c: char) -> bool {
    ||| '\u{9}' <= c <= '\u{d}'
    ||| c == ' '
    ||| c == '\u{85}'
    ||| c == '\u{a0}'
    ||| c == '\u{1680}'
    ||| '\u{2000}' <= c <= '\u{200a}'
    ||| c == '\u{2028}'
    ||| c == '\u{2029}'
    ||| c == '\u{202f}'
    ||| c == '\u{205f}'
    ||| c == '\u{3000}'
}

fn space(c: char) -> (r: bool)
    ensures
        r == is_space(c),
{
    ('\u{9}' <= c && c <= '\u{d}') || c == ' ' || c == '\u{85}' || c == '\u{a0}' || c == '\u{1680}'
        || ('\u{2000}' <= c && c <= '\u{200a}') || c == '\u{2028}' || c == '\u{2029}' || c
        == '\u{202f}' || c == '\u{205f}' || c == '\u{3000}'
}

/// The length of the first line of `t`: the characters before its first '\n'.
pub open spec fn line_len(t: Seq<char>) -> nat
    decreases t.len(),
{
    if t.len() == 0 || t[0] == '\n' {
        0
    } else {
        1 + line_len(t.drop_first())
    }
}

/// `t` without its leading white space.
pub open spec fn skip_space(t: Seq<char>) -> Seq<char>
    decreases t.len(),
{
    if t.len() > 0 && is_space(t[0]) {
        skip_space(t.drop_first())
    } else {
        t
    }
}

/// The length of the run of non-space characters that starts `t`.
pub open spec fn word_len(t: Seq<char>) -> nat
    decreases t.len(),
{
    if t.len() == 0 || is_space(t[0]) {
        0
    } else {
        1 + word_len(t.drop_first())
    }
}

/// The second white-space separated word of `line`, if it has one.
pub open spec fn second_word(line: Seq<char>) -> Option<Seq<char>> {
    let u = skip_space(line);
    let v = skip_space(u.skip(word_len(u) as int));
    if u.len() == 0 || v.len() == 0 {
        None
    } else {
        Some(v.take(word_len(v) as int))
    }
}

/// The first line of `t` that starts with "btime".
pub open spec fn btime_line(t: Seq<char>) -> Option<Seq<char>>
    decreases t.len(),
{
    if t.len() == 0 {
        None
    } else {
        let n = line_len(t);
        let line = t.take(n as int);
        if n >= 5 && line.take(5) == seq!['b', 't', 'i', 'm', 'e'] {
            Some(line)
        } else if n < t.len() {
            btime_line(t.skip(n + 1 as int))
        } else {
            None
        }
    }
}

/// The value of a run of decimal digits.
pub open spec fn digits_value(d: Seq<char>) -> int
    decreases d.len(),
{
    if d.len() == 0 {
        0
    } else {
        digits_value(d.drop_last()) * 10 + (d.last() as int - 48)
    }
}

/// Whether `d` consists of ASCII digits only.
pub open spec fn all_digits(d: Seq<char>) -> bool {
    forall|i: int| 0 <= i < d.len() ==> '0' <= #[trigger] d[i] <= '9'
}

/// Whether `w` opens with a sign character.
pub open spec fn has_sign(w: Seq<char>) -> bool {
    w.len() > 0 && (w[0] == '-' || w[0] == '+')
}

/// The digits of `w`, after its sign if it has one.
pub open spec fn unsigned_part(w: Seq<char>) -> Seq<char> {
    if has_sign(w) {
        w.drop_first()
    } else {
        w
    }
}

/// `i64` parsing as `str::parse` does it: an optional '+' or '-', then at least
/// one ASCII digit and nothing else, with a value that fits.
pub open spec fn parse_i64(w: Seq<char>) -> Option<i64> {
    let d = unsigned_part(w);
    let v = if has_sign(w) && w[0] == '-' {
        -digits_value(d)
    } else {
        digits_value(d)
    };
    if d.len() > 0 && all_digits(d) && i64::MIN <= v <= i64::MAX {
        Some(v as i64)
    } else {
        None
    }
}

/// The boot time in seconds that `/proc/stat` states on its "btime" line.
pub open spec fn stat_btime(t: Seq<char>) -> Option<i64> {
    match btime_line(t) {
        Some(line) => match second_word(line) {
            Some(w) => parse_i64(w),
            None => None,
        },
        None => None,
    }
}

proof fn lemma_line_len(t: Seq<char>)
    ensures
        line_len(t) <= t.len(),
        line_len(t) < t.len() ==> t[line_len(t) as int] == '\n',
        forall|i: int| 0 <= i < line_len(t) ==> t[i] != '\n',
    decreases t.len(),
{
    if t.len() > 0 && t[0] != '\n' {
        lemma_line_len(t.drop_first());
        assert forall|i: int| 0 <= i < line_len(t) implies t[i] != '\n' by {
            if i > 0 {
                assert(t[i] == t.drop_first()[i - 1]);
            }
        }
    }
}

proof fn lemma_word_len(t: Seq<char>)
    ensures
        word_len(t) <= t.len(),
        word_len(t) < t.len() ==> is_space(t[word_len(t) as int]),
        forall|i: int| 0 <= i < word_len(t) ==> !is_space(#[trigger] t[i]),
    decreases t.len(),
{
    if t.len() > 0 && !is_space(t[0]) {
        lemma_word_len(t.drop_first());
        assert forall|i: int| 0 <= i < word_len(t) implies !is_space(#[trigger] t[i]) by {
            if i > 0 {
                assert(t[i] == t.drop_first()[i - 1]);
            }
        }
    }
}

proof fn lemma_skip_space(t: Seq<char>)
    ensures
        skip_space(t).len() <= t.len(),
        skip_space(t) == t.skip(t.len() - skip_space(t).len()),
        skip_space(t).len() > 0 ==> !is_space(skip_space(t)[0]),
    decreases t.len(),
{
    if t.len() > 0 && is_space(t[0]) {
        lemma_skip_space(t.drop_first());
        assert(t.drop_first().skip(t.drop_first().len() - skip_space(t).len()) =~= t.skip(
            t.len() - skip_space(t).len(),
        ));
    } else {
        assert(t.skip(0) =~= t);
    }
}

/// Skips white space in `cs[lo..hi]`.
fn skip_space_at(cs: &Vec<char>, lo: usize, hi: usize) -> (r: usize)
    requires
        lo <= hi <= cs.len(),
    ensures
        lo <= r <= hi,
        skip_space(cs@.subrange(lo as int, hi as int)) == cs@.subrange(r as int, hi as int),
{
    let mut a = lo;
    while a < hi && space(cs[a])
        invariant
            lo <= a <= hi <= cs.len(),
            skip_space(cs@.subrange(lo as int, hi as int)) == skip_space(
                cs@.subrange(a as int, hi as int),
            ),
        decreases hi - a,
    {
        assert(cs@.subrange(a as int, hi as int).drop_first() =~= cs@.subrange(a + 1, hi as int));
        a = a + 1;
    }
    a
}

/// Skips the word that starts `cs[lo..hi]`.
fn skip_word_at(cs: &Vec<char>, lo: usize, hi: usize) -> (r: usize)
    requires
        lo <= hi <= cs.len(),
    ensures
        lo <= r <= hi,
        r - lo == word_len(cs@.subrange(lo as int, hi as int)),
{
    let mut a = lo;
    while a < hi && !space(cs[a])
        invariant
            lo <= a <= hi <= cs.len(),
            word_len(cs@.subrange(lo as int, hi as int)) == (a - lo) + word_len(
                cs@.subrange(a as int, hi as int),
            ),
        decreases hi - a,
    {
        assert(cs@.subrange(a as int, hi as int).drop_first() =~= cs@.subrange(a + 1, hi as int));
        a = a + 1;
    }
    a
}

proof fn lemma_digits_prefix(d: Seq<char>, j: int)
    requires
        0 <= j <= d.len(),
        all_digits(d),
    ensures
        0 <= digits_value(d.take(j)) <= digits_value(d),
    decreases d.len() - j,
{
    if j < d.len() {
        lemma_digits_prefix(d, j + 1);
        assert(d.take(j + 1).drop_last() =~= d.take(j));
        assert('0' <= d[j] <= '9');
    } else {
        assert(d.take(j) =~= d);
    }
    lemma_digits_nonneg(d.take(j));
}

proof fn lemma_digits_nonneg(d: Seq<char>)
    requires
        all_digits(d),
    ensures
        digits_value(d) >= 0,
    decreases d.len(),
{
    if d.len() > 0 {
        assert(all_digits(d.drop_last()));
        lemma_digits_nonneg(d.drop_last());
        assert('0' <= d[d.len() - 1] <= '9');
    }
}

proof fn lemma_digits_step(d: Seq<char>, j: int)
    requires
        0 <= j < d.len(),
        all_digits(d.take(j)),
        '0' <= d[j] <= '9',
    ensures
        all_digits(d.take(j + 1)),
        digits_value(d.take(j + 1)) == digits_value(d.take(j)) * 10 + (d[j] as int - 48),
{
    assert(d.take(j + 1).drop_last() =~= d.take(j));
    assert forall|k: int| 0 <= k < j + 1 implies '0' <= #[trigger] d.take(j + 1)[k] <= '9' by {
        if k < j {
            assert(d.take(j + 1)[k] == d.take(j)[k]);
        }
    }
}

/// Parses `cs[lo..hi]` as `str::parse::<i64>` does.
fn parse_i64_at(cs: &Vec<char>, lo: usize, hi: usize) -> (r: Option<i64>)
    requires
        lo <= hi <= cs.len(),
    ensures
        r == parse_i64(cs@.subrange(lo as int, hi as int)),
{
    let ghost w = cs@.subrange(lo as int, hi as int);
    assert(lo < hi ==> w[0] == cs@[lo as int]);
    let signed = lo < hi && (cs[lo] == '-' || cs[lo] == '+');
    let negative = signed && cs[lo] == '-';
    let start = if signed {
        lo + 1
    } else {
        lo
    };
    let ghost d = unsigned_part(w);
    assert(d =~= cs@.subrange(start as int, hi as int));
    if start == hi {
        return None;
    }
    match digits_at(cs, start, hi) {
        None => None,
        Some(mag) => {
            proof {
                lemma_digits_nonneg(d);
            }
            if negative {
                if mag <= 9_223_372_036_854_775_808u64 {
                    if mag == 9_223_372_036_854_775_808u64 {
                        Some(i64::MIN)
                    } else {
                        Some(-(mag as i64))
                    }
                } else {
                    None
                }
            } else {
                if mag <= 9_223_372_036_854_775_807u64 {
                    Some(mag as i64)
                } else {
                    None
                }
            }
        },
    }
}

/// The value of the digits `cs[lo..hi]`; `None` when one is not a digit or the
/// value does not fit in a `u64`.
fn digits_at(cs: &Vec<char>, lo: usize, hi: usize) -> (r: Option<u64>)
    requires
        lo <= hi <= cs.len(),
    ensures
        match r {
            Some(v) => all_digits(cs@.subrange(lo as int, hi as int)) && v == digits_value(
                cs@.subrange(lo as int, hi as int),
            ),
            None => !all_digits(cs@.subrange(lo as int, hi as int)) || digits_value(
                cs@.subrange(lo as int, hi as int),
            ) > u64::MAX,
        },
{
    let ghost d = cs@.subrange(lo as int, hi as int);
    let mut mag: u64 = 0;
    let mut i = lo;
    assert(d.take(0) =~= Seq::<char>::empty());
    while i < hi
        invariant
            lo <= i <= hi <= cs.len(),
            d == cs@.subrange(lo as int, hi as int),
            all_digits(d.take(i - lo)),
            mag == digits_value(d.take(i - lo)),
        decreases hi - i,
    {
        let c = cs[i];
        assert(d[i - lo] == c);
        if !('0' <= c && c <= '9') {
            return None;
        }
        let x: u64 = (c as u32 - 48) as u64;
        proof {
            lemma_digits_step(d, i - lo);
        }
        let next = match mag.checked_mul(10) {
            Some(m10) => m10.checked_add(x),
            None => None,
        };
        match next {
            Some(v) => {
                mag = v;
            },
            None => {
                proof {
                    if all_digits(d) {
                        lemma_digits_prefix(d, i + 1 - lo);
                    }
                }
                return None;
            },
        }
        i = i + 1;
    }
    assert(d.take(i - lo) =~= d);
    Some(mag)
}

/// The boot time in seconds stated by the "btime" line of `/proc/stat`: the second
/// word of its first line that starts with "btime", parsed as an `i64`.
pub fn btime_seconds(proc_stat: &str) -> (r: Option<i64>)
    ensures
        r == stat_btime(proc_stat@),
{
    let cs = chars_of(proc_stat);
    let len = cs.len();
    let mut pos: usize = 0;
    assert(cs@.skip(0) =~= cs@);
    loop
        invariant
            pos <= len == cs.len(),
            cs@ == proc_stat@,
            btime_line(cs@) == btime_line(cs@.skip(pos as int)),
        decreases len - pos,
    {
        let ghost t = cs@.skip(pos as int);
        if pos == len {
            assert(t.len() == 0);
            return None;
        }
        let mut end = pos;
        while end < len && cs[end] != '\n'
            invariant
                pos <= end <= len == cs.len(),
                line_len(t) == (end - pos) + line_len(cs@.skip(end as int)),
            decreases len - end,
        {
            assert(cs@.skip(end as int).drop_first() =~= cs@.skip(end + 1));
            end = end + 1;
        }
        let ghost n = line_len(t);
        assert(cs@.skip(end as int).len() == 0 || cs@.skip(end as int)[0] == '\n');
        assert(n == end - pos);
        let ghost line = t.take(n as int);
        assert(line =~= cs@.subrange(pos as int, end as int));
        let starts = end - pos >= 5 && cs[pos] == 'b' && cs[pos + 1] == 't' && cs[pos + 2] == 'i'
            && cs[pos + 3] == 'm' && cs[pos + 4] == 'e';
        assert(starts == (n >= 5 && line.take(5) == seq!['b', 't', 'i', 'm', 'e'])) by {
            if n >= 5 {
                assert(line.take(5) =~= seq![line[0], line[1], line[2], line[3], line[4]]);
            }
        }
        if starts {
            let a = skip_space_at(&cs, pos, end);
            let b = skip_word_at(&cs, a, end);
            let c = skip_space_at(&cs, b, end);
            proof {
                let u = skip_space(line);
                assert(u =~= cs@.subrange(a as int, end as int));
                assert(u.skip(word_len(u) as int) =~= cs@.subrange(b as int, end as int));
            }
            let ghost u = skip_space(line);
            let ghost v = skip_space(u.skip(word_len(u) as int));
            assert(btime_line(t) == Some(line));
            assert(v == cs@.subrange(c as int, end as int));
            if a == end || c == end {
                return None;
            }
            let e = skip_word_at(&cs, c, end);
            assert(cs@.subrange(c as int, end as int).take(e - c) =~= cs@.subrange(
                c as int,
                e as int,
            ));
            return parse_i64_at(&cs, c, e);
        }
        if end == len {
            return None;
        }
        assert(t.skip(n + 1 as int) =~= cs@.skip(end + 1));
        pos = end + 1;
    }
}

/// The boot time in epoch milliseconds, 0 when it is not known.
pub fn boot_time_ms(btime_secs: Option<i64>) -> (r: i64)
    requires
        btime_secs matches Some(s) ==> i64::MIN <= s * 1000 <= i64::MAX,
    ensures
        r == match btime_secs {
            Some(s) => s * 1000,
            None => 0,
        },
{
    match btime_secs {
        Some(s) => s * 1000,
        None => 0,
    }
}

} // verus!
