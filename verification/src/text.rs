//! Small text helpers: appending and removing single characters (the two
//! std operations vstd gives no specification to), decimal and
//! relative-time rendering, and display truncation with an ellipsis.

use vstd::prelude::*;
use vstd::string::*;

verus! {

/// Relies on String::push: appends the given char to the end of the string.
#[verifier::external_body]
pub fn push_char(s: &mut String, c: char)
    ensures
        final(s)@ == old(s)@.push(c),
{
    s.push(c);
}

/// Relies on String::pop: removes the last character of the string and
/// returns it, or returns None when the string is empty.
#[verifier::external_body]
pub fn pop_char(s: &mut String) -> (r: Option<char>)
    ensures
        old(s)@.len() == 0 ==> final(s)@ == old(s)@ && r is None,
        old(s)@.len() > 0 ==> final(s)@ == old(s)@.drop_last() && r == Some(
            old(s)@[old(s)@.len() - 1],
        ),
{
    s.pop()
}

/// The decimal digit characters.
pub open spec fn digit_char(d: nat) -> char
    recommends
        d < 10,
{
    if d == 0 {
        '0'
    } else if d == 1 {
        '1'
    } else if d == 2 {
        '2'
    } else if d == 3 {
        '3'
    } else if d == 4 {
        '4'
    } else if d == 5 {
        '5'
    } else if d == 6 {
        '6'
    } else if d == 7 {
        '7'
    } else if d == 8 {
        '8'
    } else {
        '9'
    }
}

/// The decimal digits of a number, most significant first.
pub open spec fn dec_digits(n: nat) -> Seq<char>
    decreases n,
{
    if n < 10 {
        seq![digit_char(n)]
    } else {
        dec_digits(n / 10).push(digit_char(n % 10))
    }
}

fn digit_char_exec(d: u64) -> (c: char)
    requires
        d < 10,
    ensures
        c == digit_char(d as nat),
{
    match d {
        0 => '0',
        1 => '1',
        2 => '2',
        3 => '3',
        4 => '4',
        5 => '5',
        6 => '6',
        7 => '7',
        8 => '8',
        _ => '9',
    }
}

/// Render a number in decimal.
pub fn u64_to_dec(n: u64) -> (r: String)
    ensures
        r@ == dec_digits(n as nat),
    decreases n,
{
    if n < 10 {
        let mut s = String::new();
        push_char(&mut s, digit_char_exec(n));
        s
    } else {
        let mut s = u64_to_dec(n / 10);
        push_char(&mut s, digit_char_exec(n % 10));
        s
    }
}

/// How a timestamp reads relative to now: minutes, then hours, then days,
/// then weeks, with anything under a minute (or in the future) "just now".
pub open spec fn relative_label(now_ms: int, ts_ms: int) -> Seq<char> {
    let diff = now_ms - ts_ms;
    let minutes = diff / 60000;
    let hours = minutes / 60;
    let days = hours / 24;
    let weeks = days / 7;
    if diff < 0 || minutes < 1 {
        "just now"@
    } else if minutes < 60 {
        dec_digits(minutes as nat) + " min ago"@
    } else if hours < 24 {
        dec_digits(hours as nat) + " hours ago"@
    } else if days < 7 {
        dec_digits(days as nat) + " days ago"@
    } else {
        dec_digits(weeks as nat) + " weeks ago"@
    }
}

/// Render a timestamp relative to the given current time.
pub fn relative_time_label(now_ms: i64, ts_ms: i64) -> (r: String)
    ensures
        r@ == relative_label(now_ms as int, ts_ms as int),
{
    let diff: i128 = now_ms as i128 - ts_ms as i128;
    if diff < 0 {
        return "just now".to_owned();
    }
    let minutes = diff / 60000;
    let hours = minutes / 60;
    let days = hours / 24;
    let weeks = days / 7;
    if minutes < 1 {
        "just now".to_owned()
    } else if minutes < 60 {
        let mut s = u64_to_dec(minutes as u64);
        s.append(" min ago");
        s
    } else if hours < 24 {
        let mut s = u64_to_dec(hours as u64);
        s.append(" hours ago");
        s
    } else if days < 7 {
        let mut s = u64_to_dec(days as u64);
        s.append(" days ago");
        s
    } else {
        proof {
            assert(weeks <= diff / 604800000) by (nonlinear_arith)
                requires
                    diff >= 0,
                    minutes == diff / 60000,
                    hours == minutes / 60,
                    days == hours / 24,
                    weeks == days / 7,
            ;
        }
        let mut s = u64_to_dec(weeks as u64);
        s.append(" weeks ago");
        s
    }
}

/// A display title cut to at most `max` characters: strings that fit are
/// kept whole, longer ones keep their first `max - 3` characters and end
/// in an ellipsis marker.
pub open spec fn truncated(s: Seq<char>, max: int) -> Seq<char>
    recommends
        max >= 3,
{
    if s.len() <= max {
        s
    } else {
        s.subrange(0, max - 3) + "..."@
    }
}

/// Cut a title for display, appending an ellipsis when it does not fit.
pub fn truncate(s: &str, max_len: usize) -> (r: String)
    requires
        max_len >= 3,
    ensures
        r@ == truncated(s@, max_len as int),
{
    let n = s.unicode_len();
    if n <= max_len {
        s.to_owned()
    } else {
        let head = s.substring_char(0, max_len - 3);
        let mut out = head.to_owned();
        out.append("...");
        out
    }
}

} // verus!
