use chrono::{Datelike, Timelike};
use vstd::prelude::*;

verus! {

/// A wall-clock date and time together with its offset from UTC.
#[derive(Clone, Copy, Debug, PartialEq, Eq, Structural)]
pub struct Timestamp {
    pub year: i32,
    pub month: u32,
    pub day: u32,
    pub hour: u32,
    pub minute: u32,
    pub second: u32,
    /// Local time minus UTC, in seconds.
    pub offset_seconds: i32,
}

impl Timestamp {
    /// The ranges that every parsed timestamp keeps.
    pub open spec fn in_range(self) -> bool {
        &&& 1 <= self.month <= 12
        &&& 1 <= self.day <= 31
        &&& self.hour <= 23
        &&& self.minute <= 59
        &&& self.second <= 59
        &&& -86400 < self.offset_seconds < 86400
    }
}

/// The timestamp that chrono reads from `s` in the layout `layout`, if any.
pub uninterp spec fn parsed_timestamp(s: Seq<char>, layout: Seq<char>) -> Option<Timestamp>;

/// Relies on chrono::DateTime::parse_from_str: the result depends on the two
/// strings alone; on success its date, time and offset come back through
/// chrono's accessors, whose documented ranges are month 1-12, day 1-31,
/// hour 0-23, minute and second 0-59, and an offset under one day.
#[verifier::external_body]
fn parse_with_layout(s: &str, layout: &str) -> (r: Option<Timestamp>)
    ensures
        r == parsed_timestamp(s@, layout@),
        r matches Some(t) ==> t.in_range(),
{
    match chrono::DateTime::parse_from_str(s, layout) {
        Ok(d) => Some(Timestamp {
            year: d.year(),
            month: d.month(),
            day: d.day(),
            hour: d.hour(),
            minute: d.minute(),
            second: d.second(),
            offset_seconds: d.offset().local_minus_utc(),
        }),
        Err(_) => None,
    }
}

/// The layout of a timestamp attribute: `YYYY-MM-DD HH:MM:SS +HHMM`.
pub open spec fn attr_layout() -> Seq<char> {
    "%Y-%m-%d %H:%M:%S %z"@
}

/// Reads a timestamp attribute; `None` when it does not follow the layout.
pub fn parse_timestamp(s: &str) -> (r: Option<Timestamp>)
    ensures
        r == parsed_timestamp(s@, attr_layout()),
        r matches Some(t) ==> t.in_range(),
{
    parse_with_layout(s, "%Y-%m-%d %H:%M:%S %z")
}

pub open spec fn digit_char(d: nat) -> char {
    if d == 0 { '0' }
    else if d == 1 { '1' }
    else if d == 2 { '2' }
    else if d == 3 { '3' }
    else if d == 4 { '4' }
    else if d == 5 { '5' }
    else if d == 6 { '6' }
    else if d == 7 { '7' }
    else if d == 8 { '8' }
    else { '9' }
}

/// The decimal digits of `n`, without leading zeros.
pub open spec fn decimal(n: nat) -> Seq<char>
    decreases n,
{
    if n < 10 {
        seq![digit_char(n)]
    } else {
        decimal(n / 10).push(digit_char(n % 10))
    }
}

/// The decimal digits of `n`, with zeros in front up to `width` characters.
pub open spec fn padded(n: nat, width: nat) -> Seq<char> {
    if decimal(n).len() < width {
        Seq::new((width - decimal(n).len()) as nat, |k: int| '0') + decimal(n)
    } else {
        decimal(n)
    }
}

/// A year as chrono writes `%Y`: four digits within 0-9999, else a sign and
/// at least four digits.
pub open spec fn year_text(y: int) -> Seq<char> {
    if 0 <= y <= 9999 {
        padded(y as nat, 4)
    } else if y > 9999 {
        seq!['+'] + padded(y as nat, 4)
    } else {
        seq!['-'] + padded((-y) as nat, 4)
    }
}

/// `YYYY/MM/DD HH:MM` of the wall-clock time.
pub open spec fn minute_text(t: Timestamp) -> Seq<char> {
    year_text(t.year as int) + seq!['/'] + padded(t.month as nat, 2) + seq!['/'] + padded(
        t.day as nat,
        2,
    ) + seq![' '] + padded(t.hour as nat, 2) + seq![':'] + padded(t.minute as nat, 2)
}

pub open spec fn is_text_char(c: char) -> bool {
    ('0' <= c && c <= '9') || c == '/' || c == ' ' || c == ':' || c == '+' || c == '-'
}

/// Appends one digit or separator.
fn push_char(s: &mut String, c: char)
    requires
        is_text_char(c),
    ensures
        final(s)@ == old(s)@.push(c),
{
    proof {
        reveal_strlit("0");
        reveal_strlit("1");
        reveal_strlit("2");
        reveal_strlit("3");
        reveal_strlit("4");
        reveal_strlit("5");
        reveal_strlit("6");
        reveal_strlit("7");
        reveal_strlit("8");
        reveal_strlit("9");
        reveal_strlit("/");
        reveal_strlit(" ");
        reveal_strlit(":");
        reveal_strlit("+");
        reveal_strlit("-");
    }
    match c {
        '0' => s.append("0"),
        '1' => s.append("1"),
        '2' => s.append("2"),
        '3' => s.append("3"),
        '4' => s.append("4"),
        '5' => s.append("5"),
        '6' => s.append("6"),
        '7' => s.append("7"),
        '8' => s.append("8"),
        '9' => s.append("9"),
        '/' => s.append("/"),
        ' ' => s.append(" "),
        ':' => s.append(":"),
        '+' => s.append("+"),
        _ => s.append("-"),
    }
}

fn digit_of(d: u32) -> (c: char)
    requires
        d < 10,
    ensures
        c == digit_char(d as nat),
        is_text_char(c),
{
    if d == 0 { '0' }
    else if d == 1 { '1' }
    else if d == 2 { '2' }
    else if d == 3 { '3' }
    else if d == 4 { '4' }
    else if d == 5 { '5' }
    else if d == 6 { '6' }
    else if d == 7 { '7' }
    else if d == 8 { '8' }
    else { '9' }
}

/// Appends the decimal digits of `n`.
fn push_decimal(s: &mut String, n: u32)
    ensures
        final(s)@ == old(s)@ + decimal(n as nat),
    decreases n,
{
    if n >= 10 {
        push_decimal(s, n / 10);
    }
    let c = digit_of(n % 10);
    push_char(s, c);
    assert(n >= 10 ==> decimal(n as nat) == decimal((n / 10) as nat).push(digit_char((n % 10) as nat)));
}

/// The number of decimal digits of `n`.
fn decimal_len(n: u32) -> (r: usize)
    ensures
        r == decimal(n as nat).len(),
        r <= n + 1,
    decreases n,
{
    if n < 10 {
        1
    } else {
        decimal_len(n / 10) + 1
    }
}

/// Appends `n` with zeros in front up to `width` characters.
fn push_padded(s: &mut String, n: u32, width: usize)
    ensures
        final(s)@ == old(s)@ + padded(n as nat, width as nat),
{
    let len = decimal_len(n);
    let ghost start = s@;
    if len < width {
        let mut k: usize = len;
        while k < width
            invariant
                len <= k <= width,
                s@ == start + Seq::new((k - len) as nat, |j: int| '0'),
            decreases width - k,
        {
            push_char(s, '0');
            proof {
                assert(s@ =~= start + Seq::new((k + 1 - len) as nat, |j: int| '0'));
            }
            k = k + 1;
        }
    }
    push_decimal(s, n);
    assert(s@ =~= start + padded(n as nat, width as nat));
}

/// Appends `YYYY/MM/DD HH:MM` of the wall-clock time.
fn push_minute_text(s: &mut String, t: &Timestamp)
    ensures
        final(s)@ == old(s)@ + minute_text(*t),
{
    let ghost start = s@;
    if 0 <= t.year && t.year <= 9999 {
        push_padded(s, t.year as u32, 4);
    } else if t.year > 9999 {
        push_char(s, '+');
        push_padded(s, t.year as u32, 4);
    } else {
        push_char(s, '-');
        push_padded(s, (-(t.year as i64)) as u32, 4);
    }
    assert(s@ =~= start + year_text(t.year as int));
    let ghost p1 = year_text(t.year as int);
    push_char(s, '/');
    push_padded(s, t.month, 2);
    let ghost p2 = p1 + seq!['/'] + padded(t.month as nat, 2);
    assert(s@ =~= start + p2);
    push_char(s, '/');
    push_padded(s, t.day, 2);
    let ghost p3 = p2 + seq!['/'] + padded(t.day as nat, 2);
    assert(s@ =~= start + p3);
    push_char(s, ' ');
    push_padded(s, t.hour, 2);
    let ghost p4 = p3 + seq![' '] + padded(t.hour as nat, 2);
    assert(s@ =~= start + p4);
    push_char(s, ':');
    push_padded(s, t.minute, 2);
    let ghost p5 = p4 + seq![':'] + padded(t.minute as nat, 2);
    assert(s@ =~= start + p5);
    assert(p5 == minute_text(*t));
    assert(s@ =~= start + minute_text(*t));
}

impl Timestamp {
    /// The wall-clock time as `YYYY/MM/DD HH:MM`.
    pub fn minute_string(&self) -> (r: String)
        ensures
            r@ == minute_text(*self),
    {
        let mut s = String::new();
        push_minute_text(&mut s, self);
        assert(s@ =~= minute_text(*self));
        s
    }
}

} // verus!
