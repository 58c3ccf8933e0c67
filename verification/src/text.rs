use vstd::prelude::*;

use crate::datetime::{calendar_before_to_second, lemma_second_order, UtcDateTime};

verus! {

// ---------------------------------------------------------------------------
// Decimal rendering of integers
// ---------------------------------------------------------------------------

/// The decimal digit character for `d` (0 to 9).
pub open spec fn digit_char(d: int) -> char {
    if d == 0 {
        '0'
    } else if d == 1 {
        '1'
    } else if d == 2 {
        '2'
    } else if d == 3 {
        '3'
    } else if d == 4 {
        '4'
    } else if d == 5 {
        '5'
    } else if d == 6 {
        '6'
    } else if d == 7 {
        '7'
    } else if d == 8 {
        '8'
    } else {
        '9'
    }
}

/// The decimal rendering of a natural number, without leading zeros.
pub open spec fn decimal(n: nat) -> Seq<char>
    decreases n,
{
    if n < 10 {
        seq![digit_char(n as int)]
    } else {
        decimal(n / 10).push(digit_char((n % 10) as int))
    }
}

/// The decimal rendering of a natural number with leading zeros up to four
/// digits.
pub open spec fn four_digits(n: nat) -> Seq<char> {
    if n < 10 {
        seq!['0', '0', '0'] + decimal(n)
    } else if n < 100 {
        seq!['0', '0'] + decimal(n)
    } else if n < 1000 {
        seq!['0'] + decimal(n)
    } else {
        decimal(n)
    }
}

/// A year as text: at least four digits, with a leading '-' when negative.
pub open spec fn year_text(year: int) -> Seq<char> {
    if year < 0 {
        seq!['-'] + four_digits((-year) as nat)
    } else {
        four_digits(year as nat)
    }
}

/// The decimal rendering of a natural number with a leading zero below 10.
pub open spec fn two_digits(n: nat) -> Seq<char> {
    if n < 10 {
        seq!['0'] + decimal(n)
    } else {
        decimal(n)
    }
}

/// `String::push`: claims the character is appended at the end.
#[verifier::external_body]
fn push_char(s: &mut String, c: char)
    ensures
        final(s)@ == old(s)@.push(c),
{
    s.push(c);
}

fn digit(d: u64) -> (c: char)
    requires
        d < 10,
    ensures
        c == digit_char(d as int),
{
    if d == 0 {
        '0'
    } else if d == 1 {
        '1'
    } else if d == 2 {
        '2'
    } else if d == 3 {
        '3'
    } else if d == 4 {
        '4'
    } else if d == 5 {
        '5'
    } else if d == 6 {
        '6'
    } else if d == 7 {
        '7'
    } else if d == 8 {
        '8'
    } else {
        '9'
    }
}

/// Appends the decimal rendering of `n`.
fn push_decimal(s: &mut String, n: u64)
    ensures
        final(s)@ == old(s)@ + decimal(n as nat),
    decreases n,
{
    if n >= 10 {
        push_decimal(s, n / 10);
    }
    push_char(s, digit(n % 10));
    assert(final(s)@ =~= old(s)@ + decimal(n as nat)) by {
        if n >= 10 {
            assert(decimal(n as nat) == decimal((n / 10) as nat).push(digit_char((n % 10) as int)));
        }
    }
}

// ---------------------------------------------------------------------------
// Date and time as text
// ---------------------------------------------------------------------------

/// The time of day as text: "HH:MM:SS".
pub open spec fn clock_text(hour: nat, minute: nat, second: nat) -> Seq<char> {
    two_digits(hour) + (seq![':'] + (two_digits(minute) + (seq![':'] + two_digits(second))))
}

/// The date and time as text after the year: "-MM-DDTHH:MM:SS".
pub open spec fn after_year_text(
    month: nat,
    day: nat,
    hour: nat,
    minute: nat,
    second: nat,
) -> Seq<char> {
    seq!['-'] + (two_digits(month) + (seq!['-'] + (two_digits(day) + (seq!['T'] + clock_text(
        hour,
        minute,
        second,
    )))))
}

/// "YYYY-MM-DDTHH:MM:SS": the year with four digits (after a '-' when
/// negative), then month, day, hour, minute and second each with two digits.
pub open spec fn datetime_text(dt: UtcDateTime) -> Seq<char> {
    year_text(dt.spec_year() as int) + after_year_text(
        dt.spec_month() as nat,
        dt.spec_day() as nat,
        dt.spec_hour() as nat,
        dt.spec_minute() as nat,
        dt.spec_second() as nat,
    )
}

fn push_two_digits(s: &mut String, n: u8)
    ensures
        final(s)@ == old(s)@ + two_digits(n as nat),
{
    if n < 10 {
        push_char(s, '0');
    }
    push_decimal(s, n as u64);
    assert(final(s)@ =~= old(s)@ + two_digits(n as nat));
}

fn push_four_digits(s: &mut String, n: u64)
    ensures
        final(s)@ == old(s)@ + four_digits(n as nat),
{
    if n < 10 {
        push_char(s, '0');
        push_char(s, '0');
        push_char(s, '0');
    } else if n < 100 {
        push_char(s, '0');
        push_char(s, '0');
    } else if n < 1000 {
        push_char(s, '0');
    }
    push_decimal(s, n);
    assert(final(s)@ =~= old(s)@ + four_digits(n as nat));
}

fn push_clock_text(s: &mut String, hour: u8, minute: u8, second: u8)
    ensures
        final(s)@ == old(s)@ + clock_text(hour as nat, minute as nat, second as nat),
{
    push_two_digits(s, hour);
    push_char(s, ':');
    push_two_digits(s, minute);
    push_char(s, ':');
    push_two_digits(s, second);
    assert(final(s)@ =~= old(s)@ + clock_text(hour as nat, minute as nat, second as nat));
}

fn push_after_year_text(s: &mut String, month: u8, day: u8, hour: u8, minute: u8, second: u8)
    ensures
        final(s)@ == old(s)@ + after_year_text(
            month as nat,
            day as nat,
            hour as nat,
            minute as nat,
            second as nat,
        ),
{
    push_char(s, '-');
    push_two_digits(s, month);
    push_char(s, '-');
    push_two_digits(s, day);
    push_char(s, 'T');
    push_clock_text(s, hour, minute, second);
    assert(final(s)@ =~= old(s)@ + after_year_text(
        month as nat,
        day as nat,
        hour as nat,
        minute as nat,
        second as nat,
    ));
}

/// Writes the date and time in the "YYYY-MM-DDTHH:MM:SS" format, where the
/// 'T' is literally a 'T' (for compatibility between operating systems).
pub fn utc_date_time_to_string(datetime: UtcDateTime) -> (out: String)
    ensures
        out@ == datetime_text(datetime),
{
    let mut out = String::new();
    let year = datetime.year();
    if year < 0 {
        push_char(&mut out, '-');
        push_four_digits(&mut out, (0 - (year as i64)) as u64);
    } else {
        push_four_digits(&mut out, year as u64);
    }
    assert(out@ =~= year_text(year as int));
    push_after_year_text(
        &mut out,
        datetime.month(),
        datetime.day(),
        datetime.hour(),
        datetime.minute(),
        datetime.second(),
    );
    assert(out@ =~= datetime_text(datetime));
    out
}

/// A number below 100 is written as exactly two digits, tens first.
pub proof fn lemma_two_digits(n: nat)
    requires
        n < 100,
    ensures
        two_digits(n) == seq![digit_char((n / 10) as int), digit_char((n % 10) as int)],
{
    reveal_with_fuel(decimal, 2);
    if n >= 10 {
        assert(decimal(n / 10) == seq![digit_char((n / 10) as int)]);
    }
    assert(two_digits(n) =~= seq![digit_char((n / 10) as int), digit_char((n % 10) as int)]);
}

/// A number below 10000 is written as exactly four digits.
pub proof fn lemma_four_digits(n: nat)
    requires
        n < 10000,
    ensures
        four_digits(n) == seq![
            digit_char((n / 1000) as int),
            digit_char((n / 100 % 10) as int),
            digit_char((n / 10 % 10) as int),
            digit_char((n % 10) as int),
        ],
{
    reveal_with_fuel(decimal, 4);
    assert(n / 10 / 10 == n / 100);
    assert(n / 100 / 10 == n / 1000);
    if n < 10 {
        assert(four_digits(n) =~= seq!['0', '0', '0', digit_char(n as int)]);
    } else if n < 100 {
        assert(decimal(n / 10) == seq![digit_char((n / 10) as int)]);
        assert(four_digits(n) =~= seq!['0', '0', digit_char((n / 10) as int), digit_char((n % 10) as int)]);
    } else if n < 1000 {
        assert(decimal(n / 100) == seq![digit_char((n / 100) as int)]);
        assert(decimal(n / 10) =~= seq![digit_char((n / 100) as int), digit_char((n / 10 % 10) as int)]);
    } else {
        assert(decimal(n / 1000) == seq![digit_char((n / 1000) as int)]);
        assert(decimal(n / 100) =~= seq![digit_char((n / 1000) as int), digit_char((n / 100 % 10) as int)]);
        assert(decimal(n / 10) =~= seq![
            digit_char((n / 1000) as int),
            digit_char((n / 100 % 10) as int),
            digit_char((n / 10 % 10) as int),
        ]);
    }
    assert(four_digits(n) =~= seq![
        digit_char((n / 1000) as int),
        digit_char((n / 100 % 10) as int),
        digit_char((n / 10 % 10) as int),
        digit_char((n % 10) as int),
    ]);
}

/// For the years 0 to 9999 the text has the layout "YYYY-MM-DDTHH:MM:SS":
/// 19 characters, the separators at their places, and every field written
/// with its digits, months, days, hours, minutes and seconds below 10 with a
/// leading zero.
pub proof fn lemma_datetime_text_layout(dt: UtcDateTime)
    requires
        dt.fields_valid(),
        0 <= dt.spec_year() <= 9999,
    ensures
        ({
            let t = datetime_text(dt);
            let y = dt.spec_year() as int;
            let mo = dt.spec_month() as int;
            let d = dt.spec_day() as int;
            let h = dt.spec_hour() as int;
            let mi = dt.spec_minute() as int;
            let s = dt.spec_second() as int;
            &&& t.len() == 19
            &&& t[0] == digit_char(y / 1000) && t[1] == digit_char(y / 100 % 10)
            &&& t[2] == digit_char(y / 10 % 10) && t[3] == digit_char(y % 10)
            &&& t[4] == '-' && t[7] == '-' && t[10] == 'T' && t[13] == ':' && t[16] == ':'
            &&& t[5] == digit_char(mo / 10) && t[6] == digit_char(mo % 10)
            &&& t[8] == digit_char(d / 10) && t[9] == digit_char(d % 10)
            &&& t[11] == digit_char(h / 10) && t[12] == digit_char(h % 10)
            &&& t[14] == digit_char(mi / 10) && t[15] == digit_char(mi % 10)
            &&& t[17] == digit_char(s / 10) && t[18] == digit_char(s % 10)
        }),
{
    lemma_four_digits(dt.spec_year() as nat);
    lemma_two_digits(dt.spec_month() as nat);
    lemma_two_digits(dt.spec_day() as nat);
    lemma_two_digits(dt.spec_hour() as nat);
    lemma_two_digits(dt.spec_minute() as nat);
    lemma_two_digits(dt.spec_second() as nat);
}

/// The value of a decimal digit character ('0' is 0, ..., '9' is 9).
pub open spec fn digit_value(c: char) -> int {
    (c as int) - ('0' as int)
}

/// The number written by the digits of `t` from `from` (inclusive) to `to`
/// (exclusive).
pub open spec fn digits_value(t: Seq<char>, from: int, to: int) -> int
    decreases to - from,
{
    if to <= from {
        0
    } else {
        digits_value(t, from, to - 1) * 10 + digit_value(t[to - 1])
    }
}

/// A negative year is written as '-' and the four digits of its magnitude,
/// and the rest of the text keeps its layout: 20 characters, with '-' at
/// places 5 and 8, 'T' at 11 and ':' at 14 and 17.
pub proof fn lemma_datetime_text_negative_year(dt: UtcDateTime)
    requires
        dt.fields_valid(),
        dt.spec_year() < 0,
    ensures
        ({
            let t = datetime_text(dt);
            let y = -(dt.spec_year() as int);
            &&& t.len() == 20
            &&& t[0] == '-'
            &&& t[1] == digit_char(y / 1000) && t[2] == digit_char(y / 100 % 10)
            &&& t[3] == digit_char(y / 10 % 10) && t[4] == digit_char(y % 10)
            &&& t[5] == '-' && t[8] == '-' && t[11] == 'T' && t[14] == ':' && t[17] == ':'
        }),
{
    lemma_four_digits((-(dt.spec_year() as int)) as nat);
    lemma_two_digits(dt.spec_month() as nat);
    lemma_two_digits(dt.spec_day() as nat);
    lemma_two_digits(dt.spec_hour() as nat);
    lemma_two_digits(dt.spec_minute() as nat);
    lemma_two_digits(dt.spec_second() as nat);
}

/// Reads a "YYYY-MM-DDTHH:MM:SS" text back into its year, month, day, hour,
/// minute and second.
pub open spec fn parse_datetime_text(t: Seq<char>) -> (int, int, int, int, int, int) {
    (
        digits_value(t, 0, 4),
        digits_value(t, 5, 7),
        digits_value(t, 8, 10),
        digits_value(t, 11, 13),
        digits_value(t, 14, 16),
        digits_value(t, 17, 19),
    )
}

proof fn lemma_digit_value(k: int)
    requires
        0 <= k < 10,
    ensures
        digit_value(digit_char(k)) == k,
{
}

proof fn lemma_digits_value_two(t: Seq<char>, f: int)
    ensures
        digits_value(t, f, f + 2) == digit_value(t[f]) * 10 + digit_value(t[f + 1]),
{
    assert(digits_value(t, f, f) == 0);
    assert(digits_value(t, f, f + 1) == digit_value(t[f]));
}

proof fn lemma_digits_value_four(t: Seq<char>)
    ensures
        digits_value(t, 0, 4) == digit_value(t[0]) * 1000 + digit_value(t[1]) * 100 + digit_value(
            t[2],
        ) * 10 + digit_value(t[3]),
{
    assert(digits_value(t, 0, 0) == 0);
    assert(digits_value(t, 0, 1) == digit_value(t[0]));
    assert(digits_value(t, 0, 2) == digit_value(t[0]) * 10 + digit_value(t[1]));
    assert(digits_value(t, 0, 3) == (digit_value(t[0]) * 10 + digit_value(t[1])) * 10 + digit_value(
        t[2],
    ));
}

proof fn lemma_two_digit_sum(n: int)
    requires
        0 <= n < 100,
    ensures
        n == (n / 10) * 10 + n % 10,
        0 <= n / 10 < 10,
        0 <= n % 10 < 10,
{
}

proof fn lemma_four_digit_sum(n: int)
    requires
        0 <= n < 10000,
    ensures
        n == (n / 1000) * 1000 + (n / 100 % 10) * 100 + (n / 10 % 10) * 10 + n % 10,
        0 <= n / 1000 < 10,
        0 <= n / 100 % 10 < 10,
        0 <= n / 10 % 10 < 10,
        0 <= n % 10 < 10,
{
    let q1 = n / 10;
    let q2 = q1 / 10;
    let q3 = q2 / 10;
    assert(n == q1 * 10 + n % 10);
    assert(q1 == q2 * 10 + q1 % 10);
    assert(q2 == q3 * 10 + q2 % 10);
    assert(q2 == n / 100) by {
        vstd::arithmetic::div_mod::lemma_div_denominator(n, 10, 10);
    }
    assert(q3 == n / 1000) by {
        vstd::arithmetic::div_mod::lemma_div_denominator(n, 100, 10);
    }
}

proof fn lemma_two_digits_value(t: Seq<char>, f: int, n: int)
    requires
        0 <= n < 100,
        t[f] == digit_char(n / 10),
        t[f + 1] == digit_char(n % 10),
    ensures
        digits_value(t, f, f + 2) == n,
{
    lemma_two_digit_sum(n);
    lemma_digits_value_two(t, f);
    lemma_digit_value(n / 10);
    lemma_digit_value(n % 10);
}

/// Reading the text of a date and time in the years 0 to 9999 back gives
/// the same date and time to the second.
pub proof fn lemma_datetime_text_round_trip(dt: UtcDateTime)
    requires
        dt.fields_valid(),
        0 <= dt.spec_year() <= 9999,
    ensures
        parse_datetime_text(datetime_text(dt)) == (
            dt.spec_year() as int,
            dt.spec_month() as int,
            dt.spec_day() as int,
            dt.spec_hour() as int,
            dt.spec_minute() as int,
            dt.spec_second() as int,
        ),
{
    let t = datetime_text(dt);
    lemma_datetime_text_layout(dt);
    let y = dt.spec_year() as int;
    lemma_four_digit_sum(y);
    lemma_digits_value_four(t);
    lemma_digit_value(y / 1000);
    lemma_digit_value(y / 100 % 10);
    lemma_digit_value(y / 10 % 10);
    lemma_digit_value(y % 10);
    lemma_two_digits_value(t, 5, dt.spec_month() as int);
    lemma_two_digits_value(t, 8, dt.spec_day() as int);
    lemma_two_digits_value(t, 11, dt.spec_hour() as int);
    lemma_two_digits_value(t, 14, dt.spec_minute() as int);
    lemma_two_digits_value(t, 17, dt.spec_second() as int);
}

/// `s` comes before `t` in lexicographic order: at the first place where
/// they differ, `s` has the smaller character, or `s` is a proper prefix of
/// `t`.
pub open spec fn text_before(s: Seq<char>, t: Seq<char>) -> bool
    decreases s.len(),
{
    if s.len() == 0 {
        t.len() > 0
    } else if t.len() == 0 {
        false
    } else if s[0] != t[0] {
        (s[0] as int) < (t[0] as int)
    } else {
        text_before(s.drop_first(), t.drop_first())
    }
}

/// Comparing two concatenations whose first parts have the same length
/// compares the first parts, and the second parts where the first are equal.
proof fn lemma_text_before_concat(a1: Seq<char>, a2: Seq<char>, b1: Seq<char>, b2: Seq<char>)
    requires
        a1.len() == b1.len(),
    ensures
        text_before(a1 + a2, b1 + b2) == if a1 == b1 {
            text_before(a2, b2)
        } else {
            text_before(a1, b1)
        },
        (a1 + a2 == b1 + b2) <==> (a1 == b1 && a2 == b2),
    decreases a1.len(),
{
    if a1 + a2 == b1 + b2 {
        assert(a1 =~= (a1 + a2).subrange(0, a1.len() as int));
        assert(b1 =~= (b1 + b2).subrange(0, a1.len() as int));
        assert(a2 =~= (a1 + a2).subrange(a1.len() as int, (a1 + a2).len() as int));
        assert(b2 =~= (b1 + b2).subrange(a1.len() as int, (b1 + b2).len() as int));
    }
    if a1.len() == 0 {
        assert(a1 =~= b1);
        assert(a1 + a2 =~= a2);
        assert(b1 + b2 =~= b2);
    } else {
        assert((a1 + a2).drop_first() =~= a1.drop_first() + a2);
        assert((b1 + b2).drop_first() =~= b1.drop_first() + b2);
        lemma_text_before_concat(a1.drop_first(), a2, b1.drop_first(), b2);
        if a1[0] == b1[0] {
            assert(a1 == b1 <==> a1.drop_first() == b1.drop_first()) by {
                if a1.drop_first() == b1.drop_first() {
                    assert(a1 =~= seq![a1[0]] + a1.drop_first());
                    assert(b1 =~= seq![b1[0]] + b1.drop_first());
                }
            }
        }
    }
}

proof fn lemma_digit_char_order(i: int, j: int)
    requires
        0 <= i < 10,
        0 <= j < 10,
    ensures
        (digit_char(i) as int) == ('0' as int) + i,
        (digit_char(j) as int) == ('0' as int) + j,
        digit_char(i) == digit_char(j) <==> i == j,
{
}

/// Two-digit texts of numbers below 100 compare as the numbers do.
proof fn lemma_two_digits_order(x: nat, y: nat)
    requires
        x < 100,
        y < 100,
    ensures
        two_digits(x) == two_digits(y) <==> x == y,
        text_before(two_digits(x), two_digits(y)) <==> x < y,
{
    lemma_two_digits(x);
    lemma_two_digits(y);
    lemma_digit_char_order((x / 10) as int, (y / 10) as int);
    lemma_digit_char_order((x % 10) as int, (y % 10) as int);
    reveal_with_fuel(text_before, 3);
    let tx = two_digits(x);
    let ty = two_digits(y);
    assert(tx.drop_first() =~= seq![digit_char((x % 10) as int)]);
    assert(ty.drop_first() =~= seq![digit_char((y % 10) as int)]);
    assert(tx.drop_first().drop_first().len() == 0);
    if tx == ty {
        assert(tx[0] == ty[0] && tx[1] == ty[1]);
    }
}

/// Texts of four characters compare character by character.
proof fn lemma_text_before_four(s: Seq<char>, t: Seq<char>)
    requires
        s.len() == 4,
        t.len() == 4,
    ensures
        text_before(s, t) == if s[0] != t[0] {
            (s[0] as int) < (t[0] as int)
        } else if s[1] != t[1] {
            (s[1] as int) < (t[1] as int)
        } else if s[2] != t[2] {
            (s[2] as int) < (t[2] as int)
        } else {
            (s[3] as int) < (t[3] as int)
        },
{
    let s1 = s.drop_first();
    let t1 = t.drop_first();
    let s2 = s1.drop_first();
    let t2 = t1.drop_first();
    let s3 = s2.drop_first();
    let t3 = t2.drop_first();
    assert(s3.drop_first().len() == 0 && t3.drop_first().len() == 0);
    assert(!text_before(s3.drop_first(), t3.drop_first()));
    assert(s3[0] == s[3] && t3[0] == t[3]);
    assert(text_before(s3, t3) == if s[3] != t[3] { (s[3] as int) < (t[3] as int) } else { false });
    assert(text_before(s2, t2) == if s[2] != t[2] {
        (s[2] as int) < (t[2] as int)
    } else {
        text_before(s3, t3)
    });
    assert(text_before(s1, t1) == if s[1] != t[1] {
        (s[1] as int) < (t[1] as int)
    } else {
        text_before(s2, t2)
    });
}

/// Four digits compared one by one, most significant first, compare as the
/// numbers they write.
proof fn lemma_digits_lex(a0: int, a1: int, a2: int, a3: int, b0: int, b1: int, b2: int, b3: int)
    requires
        0 <= a0 < 10 && 0 <= a1 < 10 && 0 <= a2 < 10 && 0 <= a3 < 10,
        0 <= b0 < 10 && 0 <= b1 < 10 && 0 <= b2 < 10 && 0 <= b3 < 10,
    ensures
        (if a0 != b0 {
            a0 < b0
        } else if a1 != b1 {
            a1 < b1
        } else if a2 != b2 {
            a2 < b2
        } else {
            a3 < b3
        }) <==> a0 * 1000 + a1 * 100 + a2 * 10 + a3 < b0 * 1000 + b1 * 100 + b2 * 10 + b3,
        (a0 == b0 && a1 == b1 && a2 == b2 && a3 == b3) <==> a0 * 1000 + a1 * 100 + a2 * 10 + a3
            == b0 * 1000 + b1 * 100 + b2 * 10 + b3,
{
}

/// Four-digit texts of numbers below 10000 compare as the numbers do.
proof fn lemma_four_digits_order(x: nat, y: nat)
    requires
        x < 10000,
        y < 10000,
    ensures
        four_digits(x) == four_digits(y) <==> x == y,
        text_before(four_digits(x), four_digits(y)) <==> x < y,
{
    lemma_four_digits(x);
    lemma_four_digits(y);
    let (a0, a1, a2, a3) = ((x / 1000) as int, (x / 100 % 10) as int, (x / 10 % 10) as int, (x % 10) as int);
    let (b0, b1, b2, b3) = ((y / 1000) as int, (y / 100 % 10) as int, (y / 10 % 10) as int, (y % 10) as int);
    lemma_four_digit_sum(x as int);
    lemma_four_digit_sum(y as int);
    lemma_digit_char_order(a0, b0);
    lemma_digit_char_order(a1, b1);
    lemma_digit_char_order(a2, b2);
    lemma_digit_char_order(a3, b3);
    lemma_text_before_four(four_digits(x), four_digits(y));
    lemma_digits_lex(a0, a1, a2, a3, b0, b1, b2, b3);
    if four_digits(x) == four_digits(y) {
        assert(four_digits(x)[0] == four_digits(y)[0]);
        assert(four_digits(x)[1] == four_digits(y)[1]);
        assert(four_digits(x)[2] == four_digits(y)[2]);
        assert(four_digits(x)[3] == four_digits(y)[3]);
    }
}

proof fn lemma_clock_text_order(h1: nat, m1: nat, s1: nat, h2: nat, m2: nat, s2: nat)
    requires
        h1 < 100 && m1 < 100 && s1 < 100,
        h2 < 100 && m2 < 100 && s2 < 100,
    ensures
        clock_text(h1, m1, s1) == clock_text(h2, m2, s2) <==> (h1 == h2 && m1 == m2 && s1 == s2),
        text_before(clock_text(h1, m1, s1), clock_text(h2, m2, s2)) <==> if h1 != h2 {
            h1 < h2
        } else if m1 != m2 {
            m1 < m2
        } else {
            s1 < s2
        },
{
    let c = seq![':'];
    lemma_two_digits_order(h1, h2);
    lemma_two_digits_order(m1, m2);
    lemma_two_digits_order(s1, s2);
    lemma_two_digits(h1);
    lemma_two_digits(h2);
    lemma_two_digits(m1);
    lemma_two_digits(m2);
    lemma_text_before_concat(c, two_digits(s1), c, two_digits(s2));
    lemma_text_before_concat(two_digits(m1), c + two_digits(s1), two_digits(m2), c + two_digits(s2));
    lemma_text_before_concat(
        c,
        two_digits(m1) + (c + two_digits(s1)),
        c,
        two_digits(m2) + (c + two_digits(s2)),
    );
    lemma_text_before_concat(
        two_digits(h1),
        c + (two_digits(m1) + (c + two_digits(s1))),
        two_digits(h2),
        c + (two_digits(m2) + (c + two_digits(s2))),
    );
}

proof fn lemma_after_year_text_order(
    mo1: nat,
    d1: nat,
    h1: nat,
    m1: nat,
    s1: nat,
    mo2: nat,
    d2: nat,
    h2: nat,
    m2: nat,
    s2: nat,
)
    requires
        mo1 < 100 && d1 < 100 && h1 < 100 && m1 < 100 && s1 < 100,
        mo2 < 100 && d2 < 100 && h2 < 100 && m2 < 100 && s2 < 100,
    ensures
        text_before(after_year_text(mo1, d1, h1, m1, s1), after_year_text(mo2, d2, h2, m2, s2))
            <==> if mo1 != mo2 {
            mo1 < mo2
        } else if d1 != d2 {
            d1 < d2
        } else if h1 != h2 {
            h1 < h2
        } else if m1 != m2 {
            m1 < m2
        } else {
            s1 < s2
        },
{
    let k1 = clock_text(h1, m1, s1);
    let k2 = clock_text(h2, m2, s2);
    let t = seq!['T'];
    let dash = seq!['-'];
    lemma_clock_text_order(h1, m1, s1, h2, m2, s2);
    lemma_two_digits_order(mo1, mo2);
    lemma_two_digits_order(d1, d2);
    lemma_two_digits(mo1);
    lemma_two_digits(mo2);
    lemma_two_digits(d1);
    lemma_two_digits(d2);
    lemma_text_before_concat(t, k1, t, k2);
    lemma_text_before_concat(two_digits(d1), t + k1, two_digits(d2), t + k2);
    lemma_text_before_concat(dash, two_digits(d1) + (t + k1), dash, two_digits(d2) + (t + k2));
    lemma_text_before_concat(
        two_digits(mo1),
        dash + (two_digits(d1) + (t + k1)),
        two_digits(mo2),
        dash + (two_digits(d2) + (t + k2)),
    );
    lemma_text_before_concat(
        dash,
        two_digits(mo1) + (dash + (two_digits(d1) + (t + k1))),
        dash,
        two_digits(mo2) + (dash + (two_digits(d2) + (t + k2))),
    );
}

proof fn lemma_datetime_text_split(dt: UtcDateTime)
    requires
        0 <= dt.spec_year(),
    ensures
        datetime_text(dt) == four_digits(dt.spec_year() as nat) + after_year_text(
            dt.spec_month() as nat,
            dt.spec_day() as nat,
            dt.spec_hour() as nat,
            dt.spec_minute() as nat,
            dt.spec_second() as nat,
        ),
{
}

proof fn lemma_datetime_text_calendar_order(a: UtcDateTime, b: UtcDateTime)
    requires
        a.fields_valid(),
        b.fields_valid(),
        0 <= a.spec_year() <= 9999,
        0 <= b.spec_year() <= 9999,
    ensures
        text_before(datetime_text(a), datetime_text(b)) <==> calendar_before_to_second(a, b),
{
    let ya = four_digits(a.spec_year() as nat);
    let yb = four_digits(b.spec_year() as nat);
    let ra = after_year_text(
        a.spec_month() as nat,
        a.spec_day() as nat,
        a.spec_hour() as nat,
        a.spec_minute() as nat,
        a.spec_second() as nat,
    );
    let rb = after_year_text(
        b.spec_month() as nat,
        b.spec_day() as nat,
        b.spec_hour() as nat,
        b.spec_minute() as nat,
        b.spec_second() as nat,
    );
    lemma_datetime_text_split(a);
    lemma_datetime_text_split(b);
    lemma_four_digits_order(a.spec_year() as nat, b.spec_year() as nat);
    lemma_four_digits(a.spec_year() as nat);
    lemma_four_digits(b.spec_year() as nat);
    lemma_after_year_text_order(
        a.spec_month() as nat,
        a.spec_day() as nat,
        a.spec_hour() as nat,
        a.spec_minute() as nat,
        a.spec_second() as nat,
        b.spec_month() as nat,
        b.spec_day() as nat,
        b.spec_hour() as nat,
        b.spec_minute() as nat,
        b.spec_second() as nat,
    );
    lemma_text_before_concat(ya, ra, yb, rb);
}

/// For the years 0 to 9999 the order of the texts is the order in time to
/// the second.
pub proof fn lemma_datetime_text_order(a: UtcDateTime, b: UtcDateTime)
    requires
        a.fields_valid(),
        b.fields_valid(),
        0 <= a.spec_year() <= 9999,
        0 <= b.spec_year() <= 9999,
    ensures
        text_before(datetime_text(a), datetime_text(b)) <==> a.unix_seconds() < b.unix_seconds(),
{
    lemma_second_order(a, b);
    lemma_datetime_text_calendar_order(a, b);
}

// ---------------------------------------------------------------------------
// Cutting and filtering text
// ---------------------------------------------------------------------------

/// The first `n` characters of `s`, or the whole of `s` when it has no more
/// than `n` characters.
pub open spec fn first_chars(s: Seq<char>, n: nat) -> Seq<char> {
    if s.len() > n {
        s.take(n as int)
    } else {
        s
    }
}

/// Returns the first `num_chars` characters of a string if it has more than
/// `num_chars` characters, otherwise the whole string.
pub fn string_first_n_chars(string_in: String, num_chars: usize) -> (out: String)
    ensures
        out@ == first_chars(string_in@, num_chars as nat),
        out@.len() == if string_in@.len() < num_chars {
            string_in@.len()
        } else {
            num_chars as nat
        },
        out@ == string_in@.take(out@.len() as int),
{
    proof {
        lemma_first_chars_is_shortest_prefix(string_in@, num_chars as nat);
    }
    let text = string_in.as_str();
    if text.unicode_len() > num_chars {
        let head = text.substring_char(0, num_chars);
        return head.to_owned();
    }
    string_in
}

/// Cutting to the first `n` characters keeps as many characters as there
/// are, up to `n`, and those are the leading characters of the text.
pub proof fn lemma_first_chars_is_shortest_prefix(s: Seq<char>, n: nat)
    ensures
        first_chars(s, n).len() == if s.len() < n {
            s.len()
        } else {
            n
        },
        first_chars(s, n) == s.take(first_chars(s, n).len() as int),
{
    if s.len() <= n {
        assert(s.take(s.len() as int) =~= s);
    }
}

/// `s` with every occurrence of `c` removed.
pub open spec fn without_char(s: Seq<char>, c: char) -> Seq<char> {
    s.filter(|x: char| x != c)
}

/// Text with a character removed holds no occurrence of that character.
pub proof fn lemma_without_char_excludes(s: Seq<char>, c: char)
    ensures
        !without_char(s, c).contains(c),
{
    broadcast use vstd::seq_lib::group_filter_ensures;

    if without_char(s, c).contains(c) {
        let i = choose|i: int| 0 <= i < without_char(s, c).len() && without_char(s, c)[i] == c;
        s.lemma_filter_pred(|x: char| x != c, i);
    }
}

/// Removing a character keeps every other character, in order: a single
/// character other than `c` stays, `c` itself goes, and text is handled
/// piece by piece.
pub proof fn lemma_without_char_keeps_the_rest(a: Seq<char>, b: Seq<char>, x: char, c: char)
    ensures
        without_char(a + b, c) == without_char(a, c) + without_char(b, c),
        without_char(seq![x], c) == if x == c {
            Seq::<char>::empty()
        } else {
            seq![x]
        },
{
    Seq::filter_distributes_over_add(a, b, |y: char| y != c);
    reveal_with_fuel(Seq::filter, 2);
    assert(seq![x].drop_last() =~= Seq::<char>::empty());
    assert(without_char(seq![x], c) =~= if x == c {
        Seq::<char>::empty()
    } else {
        seq![x]
    });
}

/// Copies `s` without the occurrences of `c`.
pub fn remove_char(s: &str, c: char) -> (out: String)
    ensures
        out@ == without_char(s@, c),
{
    let mut out = String::new();
    let n = s.unicode_len();
    let mut i: usize = 0;
    while i < n
        invariant
            n == s@.len(),
            i <= n,
            out@ == without_char(s@.take(i as int), c),
        decreases n - i,
    {
        let x = s.get_char(i);
        proof {
            reveal(Seq::filter);
            assert(s@.take(i + 1).drop_last() =~= s@.take(i as int));
            assert(s@.take(i + 1).last() == x);
        }
        if x != c {
            push_char(&mut out, x);
        }
        i = i + 1;
    }
    assert(s@.take(n as int) =~= s@);
    out
}

} // verus!
