use chrono::{Datelike, TimeZone, Timelike};
use vstd::prelude::*;

verus! {

/// A local calendar date and time of day, to the second.
#[derive(Clone, Copy, Debug)]
pub struct LocalStamp {
    pub year: u32,
    pub month: u32,
    pub day: u32,
    pub hour: u32,
    pub minute: u32,
    pub second: u32,
}

/// One reading of the wall clock: milliseconds since the Unix epoch, and the
/// local date and time of that instant.
#[derive(Clone, Copy, Debug)]
pub struct Moment {
    pub millis: i64,
    pub stamp: LocalStamp,
}

impl LocalStamp {
    /// Every field lies in its calendar range, the year within four digits.
    pub open spec fn wf(&self) -> bool {
        &&& self.year <= 9999
        &&& 1 <= self.month <= 12
        &&& 1 <= self.day <= 31
        &&& self.hour <= 23
        &&& self.minute <= 59
        &&& self.second <= 59
    }

    /// `self` comes strictly before `o`, field by field from the year down.
    pub open spec fn before(&self, o: &LocalStamp) -> bool {
        ||| self.year < o.year
        ||| (self.year == o.year && self.month < o.month)
        ||| (self.year == o.year && self.month == o.month && self.day < o.day)
        ||| (self.year == o.year && self.month == o.month && self.day == o.day && self.hour
            < o.hour)
        ||| (self.year == o.year && self.month == o.month && self.day == o.day && self.hour
            == o.hour && self.minute < o.minute)
        ||| (self.year == o.year && self.month == o.month && self.day == o.day && self.hour
            == o.hour && self.minute == o.minute && self.second < o.second)
    }
}

impl Moment {
    pub open spec fn wf(&self) -> bool {
        self.stamp.wf()
    }

    /// A moment from a clock reading; `None` when a field is out of range.
    pub fn from_parts(
        millis: i64,
        year: i32,
        month: u32,
        day: u32,
        hour: u32,
        minute: u32,
        second: u32,
    ) -> (r: Option<Moment>)
        ensures
            r is Some <==> (0 <= year <= 9999 && 1 <= month <= 12 && 1 <= day <= 31 && hour
                <= 23 && minute <= 59 && second <= 59),
            r matches Some(m) ==> (m.millis == millis && m.stamp.year == year && m.stamp.month
                == month && m.stamp.day == day && m.stamp.hour == hour && m.stamp.minute
                == minute && m.stamp.second == second && m.wf()),
    {
        if 0 <= year && year <= 9999 && 1 <= month && month <= 12 && 1 <= day && day <= 31
            && hour <= 23 && minute <= 59 && second <= 59 {
            Some(
                Moment {
                    millis,
                    stamp: LocalStamp { year: year as u32, month, day, hour, minute, second },
                },
            )
        } else {
            None
        }
    }

    /// The folder name of a backup cycle opened at this moment:
    /// `YYYYMMDD_HHMMSS` in local time.
    pub fn cycle_id(&self) -> (r: String)
        requires
            self.wf(),
        ensures
            r@ == cycle_text(self.stamp),
    {
        let mut s = String::new();
        push_digits(&mut s, self.stamp.year, 4);
        push_digits(&mut s, self.stamp.month, 2);
        push_digits(&mut s, self.stamp.day, 2);
        push_char(&mut s, '_');
        push_digits(&mut s, self.stamp.hour, 2);
        push_digits(&mut s, self.stamp.minute, 2);
        push_digits(&mut s, self.stamp.second, 2);
        proof {
            assert(s@ =~= cycle_text(self.stamp));
        }
        s
    }
}

/// The character of a decimal digit.
pub open spec fn digit_char(d: int) -> char {
    if d == 0 {
        '0'
    } else if d == 1 {
        '1'
    } else if d == 2 {
        '2'
    } else if d == 3 {
        '3'
    } else if d == 4 {
        '4'
    } else if d == 5 {
        '5'
    } else if d == 6 {
        '6'
    } else if d == 7 {
        '7'
    } else if d == 8 {
        '8'
    } else {
        '9'
    }
}

/// `n` written in exactly `width` decimal digits, leading zeros included.
pub open spec fn padded(n: int, width: nat) -> Seq<char>
    decreases width,
{
    if width == 0 {
        Seq::empty()
    } else {
        padded(n / 10, (width - 1) as nat).push(digit_char(n % 10))
    }
}

/// The text of a cycle folder name for a stamp.
pub open spec fn cycle_text(s: LocalStamp) -> Seq<char> {
    padded(s.year as int, 4) + padded(s.month as int, 2) + padded(s.day as int, 2) + seq!['_']
        + padded(s.hour as int, 2) + padded(s.minute as int, 2) + padded(s.second as int, 2)
}

/// `a` sorts strictly before `b` as text.
pub open spec fn text_less(a: Seq<char>, b: Seq<char>) -> bool {
    exists|i: int|
        0 <= i < a.len() && i < b.len() && #[trigger] a.subrange(0, i) == b.subrange(0, i) && (
        a[i] as u32) < (b[i] as u32)
}

/// Relies on std's `String::push`: the character is appended at the end.
#[verifier::external_body]
fn push_char(s: &mut String, c: char)
    ensures
        final(s)@ == old(s)@.push(c),
{
    s.push(c)
}

fn digit_of(d: u32) -> (c: char)
    requires
        d < 10,
    ensures
        c == digit_char(d as int),
{
    if d == 0 {
        '0'
    } else if d == 1 {
        '1'
    } else if d == 2 {
        '2'
    } else if d == 3 {
        '3'
    } else if d == 4 {
        '4'
    } else if d == 5 {
        '5'
    } else if d == 6 {
        '6'
    } else if d == 7 {
        '7'
    } else if d == 8 {
        '8'
    } else {
        '9'
    }
}

fn push_digits(s: &mut String, n: u32, width: u32)
    requires
        width <= 4,
    ensures
        final(s)@ == old(s)@ + padded(n as int, width as nat),
    decreases width,
{
    if width == 0 {
        assert(old(s)@ + padded(n as int, 0) =~= old(s)@);
    } else {
        push_digits(s, n / 10, width - 1);
        push_char(s, digit_of(n % 10));
        assert(final(s)@ =~= old(s)@ + padded(n as int, width as nat));
    }
}

/// Relies on std's `SystemTime::duration_since`, applied to
/// `SystemTime::now()` and `UNIX_EPOCH`: the milliseconds since the epoch, or
/// `None` when the system clock reads earlier than the epoch.
#[verifier::external_body]
fn epoch_millis() -> (r: Option<u128>) {
    match std::time::SystemTime::now().duration_since(std::time::UNIX_EPOCH) {
        Ok(d) => Some(d.as_millis()),
        Err(_) => None,
    }
}

/// Relies on chrono's `TimeZone::timestamp_millis_opt` for `Local`, taken
/// with `single()`: the local year, month (1 to 12), day (1 to 31), hour
/// (0 to 23), minute and second (0 to 59) of the instant, as chrono's
/// `Datelike` and `Timelike` give them; `None` when chrono cannot represent
/// the instant.
#[verifier::external_body]
fn local_fields(millis: i64) -> (r: Option<(i32, u32, u32, u32, u32, u32)>)
    ensures
        r matches Some(f) ==> (1 <= f.1 <= 12 && 1 <= f.2 <= 31 && f.3 <= 23 && f.4 <= 59 && f.5
            <= 59),
{
    match chrono::Local.timestamp_millis_opt(millis).single() {
        Some(t) => Some((t.year(), t.month(), t.day(), t.hour(), t.minute(), t.second())),
        None => None,
    }
}

/// Reads the wall clock; `None` when it reads before the Unix epoch, beyond
/// what chrono represents, or in a local year outside 0 to 9999.
pub fn read_clock() -> (r: Option<Moment>)
    ensures
        r matches Some(m) ==> m.wf(),
{
    let ms = match epoch_millis() {
        Some(ms) => ms,
        None => return None,
    };
    if ms > i64::MAX as u128 {
        return None;
    }
    let millis = ms as i64;
    match local_fields(millis) {
        Some((year, month, day, hour, minute, second)) => Moment::from_parts(
            millis,
            year,
            month,
            day,
            hour,
            minute,
            second,
        ),
        None => None,
    }
}

proof fn lemma_less_then_append(a: Seq<char>, b: Seq<char>, c: Seq<char>, d: Seq<char>)
    requires
        text_less(a, b),
        a.len() == b.len(),
    ensures
        text_less(a + c, b + d),
{
    let i = choose|i: int|
        0 <= i < a.len() && i < b.len() && #[trigger] a.subrange(0, i) == b.subrange(0, i) && (
        a[i] as u32) < (b[i] as u32);
    assert((a + c).subrange(0, i) =~= a.subrange(0, i));
    assert((b + d).subrange(0, i) =~= b.subrange(0, i));
    assert((a + c)[i] == a[i]);
    assert((b + d)[i] == b[i]);
}

proof fn lemma_same_then_less(p: Seq<char>, a: Seq<char>, b: Seq<char>)
    requires
        text_less(a, b),
    ensures
        text_less(p + a, p + b),
{
    let i = choose|i: int|
        0 <= i < a.len() && i < b.len() && #[trigger] a.subrange(0, i) == b.subrange(0, i) && (
        a[i] as u32) < (b[i] as u32);
    let j = p.len() + i;
    assert((p + a).subrange(0, j) =~= p + a.subrange(0, i));
    assert((p + b).subrange(0, j) =~= p + b.subrange(0, i));
    assert((p + a)[j] == a[i]);
    assert((p + b)[j] == b[i]);
}

proof fn lemma_digit_char_value(d: int)
    requires
        0 <= d <= 9,
    ensures
        digit_char(d) as u32 == 48 + d,
{
}

proof fn lemma_padded_len(n: int, w: nat)
    ensures
        padded(n, w).len() == w,
    decreases w,
{
    if w > 0 {
        lemma_padded_len(n / 10, (w - 1) as nat);
    }
}

/// Zero-padded numbers of one width sort as text in numeric order.
proof fn lemma_padded_order(n: int, m: int, w: nat)
    requires
        0 <= n < m,
        w >= 1,
        m < pow10(w),
    ensures
        text_less(padded(n, w), padded(m, w)),
    decreases w,
{
    lemma_padded_len(n, w);
    lemma_padded_len(m, w);
    let pn = padded(n / 10, (w - 1) as nat);
    let pm = padded(m / 10, (w - 1) as nat);
    lemma_padded_len(n / 10, (w - 1) as nat);
    lemma_padded_len(m / 10, (w - 1) as nat);
    lemma_digit_char_value(n % 10);
    lemma_digit_char_value(m % 10);
    if n / 10 == m / 10 {
        let i = pn.len() as int;
        assert(padded(n, w).subrange(0, i) =~= pn);
        assert(padded(m, w).subrange(0, i) =~= pm);
        assert(padded(n, w)[i] == digit_char(n % 10));
        assert(padded(m, w)[i] == digit_char(m % 10));
    } else {
        assert(n / 10 < m / 10);
        assert(w >= 2) by {
            if w == 1 {
                assert(m < 10);
            }
        }
        assert(m / 10 < pow10((w - 1) as nat));
        lemma_padded_order(n / 10, m / 10, (w - 1) as nat);
        lemma_less_then_append(pn, pm, seq![digit_char(n % 10)], seq![digit_char(m % 10)]);
        assert(padded(n, w) =~= pn + seq![digit_char(n % 10)]);
        assert(padded(m, w) =~= pm + seq![digit_char(m % 10)]);
    }
}

spec fn pow10(w: nat) -> int
    decreases w,
{
    if w == 0 {
        1
    } else {
        10 * pow10((w - 1) as nat)
    }
}

/// Cycle folder names sort as text in the order of their stamps.
pub proof fn lemma_cycle_text_order(a: LocalStamp, b: LocalStamp)
    requires
        a.wf(),
        b.wf(),
        a.before(&b),
    ensures
        text_less(cycle_text(a), cycle_text(b)),
{
    assert(pow10(0) == 1);
    assert(pow10(1) == 10);
    assert(pow10(2) == 100);
    assert(pow10(3) == 1000);
    assert(pow10(4) == 10000);
    let ya = padded(a.year as int, 4);
    let yb = padded(b.year as int, 4);
    let moa = padded(a.month as int, 2);
    let mob = padded(b.month as int, 2);
    let da = padded(a.day as int, 2);
    let db = padded(b.day as int, 2);
    let ha = padded(a.hour as int, 2);
    let hb = padded(b.hour as int, 2);
    let mia = padded(a.minute as int, 2);
    let mib = padded(b.minute as int, 2);
    let sa = padded(a.second as int, 2);
    let sb = padded(b.second as int, 2);
    let u = seq!['_'];
    lemma_padded_len(a.year as int, 4);
    lemma_padded_len(b.year as int, 4);
    lemma_padded_len(a.month as int, 2);
    lemma_padded_len(b.month as int, 2);
    lemma_padded_len(a.day as int, 2);
    lemma_padded_len(b.day as int, 2);
    lemma_padded_len(a.hour as int, 2);
    lemma_padded_len(b.hour as int, 2);
    lemma_padded_len(a.minute as int, 2);
    lemma_padded_len(b.minute as int, 2);
    // Each stage: the texts agree so far, or the first already sorts first.
    if a.year < b.year {
        lemma_padded_order(a.year as int, b.year as int, 4);
    } else {
        assert(ya == yb);
    }
    let pa1 = ya + moa;
    let pb1 = yb + mob;
    if a.year < b.year {
        lemma_less_then_append(ya, yb, moa, mob);
    } else if a.month < b.month {
        lemma_padded_order(a.month as int, b.month as int, 2);
        lemma_same_then_less(ya, moa, mob);
    } else {
        assert(pa1 == pb1);
    }
    let pa2 = pa1 + da;
    let pb2 = pb1 + db;
    if a.year < b.year || (a.year == b.year && a.month < b.month) {
        lemma_less_then_append(pa1, pb1, da, db);
    } else if a.day < b.day {
        lemma_padded_order(a.day as int, b.day as int, 2);
        lemma_same_then_less(pa1, da, db);
    } else {
        assert(pa2 == pb2);
    }
    let pa3 = pa2 + u + ha;
    let pb3 = pb2 + u + hb;
    if a.year != b.year || a.month != b.month || a.day != b.day {
        lemma_less_then_append(pa2, pb2, u, u);
        lemma_less_then_append(pa2 + u, pb2 + u, ha, hb);
    } else if a.hour < b.hour {
        lemma_padded_order(a.hour as int, b.hour as int, 2);
        lemma_same_then_less(pa2 + u, ha, hb);
    } else {
        assert(pa3 == pb3);
    }
    let pa4 = pa3 + mia;
    let pb4 = pb3 + mib;
    if a.year != b.year || a.month != b.month || a.day != b.day || a.hour != b.hour {
        lemma_less_then_append(pa3, pb3, mia, mib);
    } else if a.minute < b.minute {
        lemma_padded_order(a.minute as int, b.minute as int, 2);
        lemma_same_then_less(pa3, mia, mib);
    } else {
        assert(pa4 == pb4);
    }
    if a.year != b.year || a.month != b.month || a.day != b.day || a.hour != b.hour || a.minute
        != b.minute {
        lemma_less_then_append(pa4, pb4, sa, sb);
    } else {
        lemma_padded_order(a.second as int, b.second as int, 2);
        lemma_same_then_less(pa4, sa, sb);
    }
}

} // verus!
