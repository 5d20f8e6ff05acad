//! OpenCode Go usage: when to refetch it, and the parts of its tooltip that carry
//! no percentage.
use vstd::prelude::*;

use crate::dates::{parse_rfc3339, rfc3339_timestamp};
use crate::text::{decimal, push_char, push_decimal, push_str};

verus! {

/// The usage section of the tooltip, or why there is none.
pub struct UsageStatus {
    pub tooltip: Option<String>,
    pub error: Option<String>,
}

/// A cached usage response is refetched once it is this many seconds old.
pub const REFRESH_SECS: u64 = 60;

/// Whether a response fetched at `fetched_at` is still fresh at `now_secs`.
pub open spec fn fresh(now_secs: int, fetched_at: int) -> bool {
    (if now_secs >= fetched_at {
        now_secs - fetched_at
    } else {
        0
    }) < REFRESH_SECS
}

/// Whether a response fetched at `fetched_at` is still fresh at `now_secs`
/// (a cache stamped in the future counts as just fetched).
pub fn cache_is_fresh(now_secs: u64, fetched_at: u64) -> (r: bool)
    ensures
        r == fresh(now_secs as int, fetched_at as int),
{
    now_secs.saturating_sub(fetched_at) < REFRESH_SECS
}

/// Whether the usage must be fetched anew: there is no cache, or it is stale.
pub fn needs_fetch(now_secs: u64, cached: &Option<(u64, String)>) -> (r: bool)
    ensures
        r == !(cached matches Some(c) && fresh(now_secs as int, c.0 as int)),
{
    match cached {
        Some(c) => !cache_is_fresh(now_secs, c.0),
        None => true,
    }
}

/// The body to show at `now_secs`: the cached one while it is fresh; otherwise
/// the fetched one, falling back to the stale cache when fetching failed.
pub open spec fn chosen_body(now_secs: int, cached: Option<(u64, String)>, fetched: Option<String>) -> Option<String> {
    match cached {
        Some(c) => if fresh(now_secs, c.0 as int) {
            Some(c.1)
        } else if fetched is Some {
            fetched
        } else {
            Some(c.1)
        },
        None => fetched,
    }
}

/// The response body to show: the cached one while it is fresh; otherwise a
/// freshly fetched one, falling back to the stale cache when fetching failed.
pub fn usage_body(now_secs: u64, cached: Option<(u64, String)>, fetched: Option<String>) -> (r:
    Option<String>)
    ensures
        r == chosen_body(now_secs as int, cached, fetched),
{
    let fresh_cache = match &cached {
        Some(c) => cache_is_fresh(now_secs, c.0),
        None => false,
    };
    if fresh_cache {
        match cached {
            Some(c) => Some(c.1),
            None => None,
        }
    } else {
        match fetched {
            Some(b) => Some(b),
            None => match cached {
                Some(c) => Some(c.1),
                None => None,
            },
        }
    }
}

/// The usage status from the rendered usage text: the text when there is one,
/// otherwise the error "usage unavailable".
pub fn usage_status(rendered: Option<String>) -> (r: UsageStatus)
    ensures
        r.tooltip == rendered,
        rendered is Some ==> r.error is None,
        rendered is None ==> (r.error matches Some(e) && e@ == "usage unavailable"@),
{
    match rendered {
        Some(t) => UsageStatus { tooltip: Some(t), error: None },
        None => UsageStatus { tooltip: None, error: Some(String::from_str("usage unavailable")) },
    }
}

/// Seconds from `now_secs` until a reset, never negative; 0 when the reset time
/// is unknown.
pub open spec fn left_until(reset_at: Option<i64>, now_secs: int) -> nat {
    match reset_at {
        Some(t) => if t - now_secs > 0 {
            (t - now_secs) as nat
        } else {
            0
        },
        None => 0,
    }
}

/// Seconds from `now_secs` until the reset at `reset_at`.
pub fn seconds_left(reset_at: Option<i64>, now_secs: i64) -> (r: u64)
    requires
        reset_at matches Some(t) ==> i64::MIN <= t - now_secs <= i64::MAX,
    ensures
        r == left_until(reset_at, now_secs as int),
{
    match reset_at {
        Some(t) => {
            let d = t - now_secs;
            if d > 0 {
                d as u64
            } else {
                0
            }
        },
        None => 0,
    }
}

/// The reset moment that an optional RFC 3339 text gives, as chrono reads it.
pub open spec fn reset_time(resets_at: Option<&str>) -> Option<i64> {
    match resets_at {
        Some(s) => rfc3339_timestamp(s@),
        None => None,
    }
}

/// Seconds from `now_secs` until the RFC 3339 reset time `resets_at`; 0 when it
/// is missing or unreadable, or already past.
pub fn remaining_until(resets_at: Option<&str>, now_secs: i64) -> (r: u64)
    requires
        -(i64::MAX - 300_000_000_000) <= now_secs <= i64::MAX - 300_000_000_000,
    ensures
        r == left_until(reset_time(resets_at), now_secs as int),
{
    let reset_at = match resets_at {
        Some(s) => parse_rfc3339(s),
        None => None,
    };
    assert(reset_at matches Some(t) ==> -300_000_000_000 <= t <= 300_000_000_000);
    seconds_left(reset_at, now_secs)
}

/// Time left before a reset, in its largest units: "now" at zero, "Xd Yh" from a
/// day, "Xh Ym" from an hour, otherwise whole minutes "Xm".
pub open spec fn remaining_text(s: nat) -> Seq<char> {
    if s == 0 {
        "now"@
    } else if s >= 86_400 {
        decimal(s / 86_400) + seq!['d', ' '] + decimal((s % 86_400) / 3600).push('h')
    } else if s >= 3600 {
        decimal(s / 3600) + seq!['h', ' '] + decimal((s % 3600) / 60).push('m')
    } else {
        decimal(s / 60).push('m')
    }
}

/// Time left before a reset, written out.
pub fn remaining_str(secs: u64) -> (r: String)
    ensures
        r@ == remaining_text(secs as nat),
{
    if secs == 0 {
        return String::from_str("now");
    }
    let mut r = String::new();
    if secs >= 86_400 {
        push_decimal(&mut r, secs / 86_400);
        push_char(&mut r, 'd');
        push_char(&mut r, ' ');
        push_decimal(&mut r, (secs % 86_400) / 3600);
        push_char(&mut r, 'h');
    } else if secs >= 3600 {
        push_decimal(&mut r, secs / 3600);
        push_char(&mut r, 'h');
        push_char(&mut r, ' ');
        push_decimal(&mut r, (secs % 3600) / 60);
        push_char(&mut r, 'm');
    } else {
        push_decimal(&mut r, secs / 60);
        push_char(&mut r, 'm');
    }
    assert(r@ =~= remaining_text(secs as nat));
    r
}

/// A window label left-aligned in a column of three characters.
pub open spec fn label_column_text(label: Seq<char>) -> Seq<char> {
    if label.len() >= 3 {
        label
    } else {
        label + Seq::new((3 - label.len()) as nat, |i: int| ' ')
    }
}

/// A window label left-aligned in a column of three characters (`{:<3}`).
pub fn label_column(label: &str) -> (r: String)
    ensures
        r@ == label_column_text(label@),
{
    let mut r = String::from_str(label);
    let n = label.unicode_len();
    let mut i = n;
    while i < 3
        invariant
            n == label@.len(),
            n < 3 ==> n <= i <= 3,
            n >= 3 ==> i == n,
            r@ == label@ + Seq::new((i - n) as nat, |k: int| ' '),
        decreases 3 - i,
    {
        push_char(&mut r, ' ');
        i = i + 1;
        assert(r@ =~= label@ + Seq::new((i - n) as nat, |k: int| ' '));
    }
    assert(r@ =~= label_column_text(label@));
    r
}

/// The tooltip row of a usage window whose percentage is unknown.
pub open spec fn unavailable_row_text(label: Seq<char>) -> Seq<char> {
    "<span color=\"#ff5555\"><b>"@ + label + "</b></span> <i>n/a</i>"@
}

/// The tooltip row of a usage window whose percentage is unknown: its label in
/// red and "n/a".
pub fn unavailable_row(label: &str) -> (r: String)
    ensures
        r@ == unavailable_row_text(label@),
{
    let mut r = String::from_str("<span color=\"#ff5555\"><b>");
    push_str(&mut r, label);
    push_str(&mut r, "</b></span> <i>n/a</i>");
    r
}

} // verus!
