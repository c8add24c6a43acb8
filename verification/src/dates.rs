//! Publish dates: reading the many ways YouTube writes when a video went up.
//!
//! The calendar itself (which dates exist, what instant a date's midnight
//! is, what an RFC 3339 timestamp means) comes from the `time` crate; what
//! this module adds is the reading of YouTube's display text around it.
use vstd::prelude::*;
use crate::text::{
    Separator, ascii_lower, ascii_lowercase, chars_of, contains, contains_run, decimal,
    decimal_of, has_prefix, is_ascii_digit, keep_nonempty, nonempty_pieces, parse_in_range,
    parse_integer, push_all, push_str, signed_decimal, signed_decimal_of, slice_of, split,
    split_pieces, starts_with, string_of, trim, trimmed_chars, words,
};

verus! {

pub open spec fn is_leap_year(year: int) -> bool {
    (year % 4 == 0 && year % 100 != 0) || year % 400 == 0
}

pub open spec fn days_in_month(month: int, leap: bool) -> int {
    if month == 2 {
        if leap {
            29
        } else {
            28
        }
    } else if month == 4 || month == 6 || month == 9 || month == 11 {
        30
    } else {
        31
    }
}

/// Whether `time::Date::from_calendar_date` accepts the date: a year the
/// crate can hold, a month of the year, and a day that month has.
pub open spec fn valid_calendar_date(year: int, month: int, day: int) -> bool {
    &&& -9999 <= year <= 9999
    &&& 1 <= month <= 12
    &&& 1 <= day <= days_in_month(month, is_leap_year(year))
}

/// A day of the Gregorian calendar.
#[derive(Clone, Copy, Debug, PartialEq, Eq)]
pub struct CalendarDate {
    pub year: i32,
    pub month: u8,
    pub day: u8,
}

/// What `time::OffsetDateTime::parse(text, &Rfc3339)` reads from `text`:
/// the instant as a Unix timestamp, and the year, month and day of the
/// calendar date in the timestamp's own offset.
pub uninterp spec fn rfc3339_instant(text: Seq<char>) -> Option<(int, int, int, int)>;

/// What `time::Date::parse(text, "[year]-[month]-[day]")` reads from
/// `text`: the Unix timestamp of that date's midnight in UTC, and its year,
/// month and day.
pub uninterp spec fn iso_date(text: Seq<char>) -> Option<(int, int, int, int)>;

/// How many days a date of the proleptic Gregorian calendar lies after
/// 1970-01-01: the year is counted from March, so that a leap day ends it,
/// in eras of 400 years of 146 097 days each.
pub open spec fn days_from_civil(year: int, month: int, day: int) -> int {
    let y = if month <= 2 {
        year - 1
    } else {
        year
    };
    let era = y / 400;
    let year_of_era = y - era * 400;
    let month_from_march = if month > 2 {
        month - 3
    } else {
        month + 9
    };
    let day_of_year = (153 * month_from_march + 2) / 5 + day - 1;
    let day_of_era = year_of_era * 365 + year_of_era / 4 - year_of_era / 100 + day_of_year;
    era * 146097 + day_of_era - 719468
}

/// The Unix timestamp of midnight UTC at the start of a calendar date, as
/// `time::Date::midnight().assume_utc().unix_timestamp()` computes it: a
/// whole number of days of 86 400 seconds since the epoch.
pub open spec fn midnight_timestamp(year: int, month: int, day: int) -> int {
    days_from_civil(year, month, day) * 86400
}

/// `time::OffsetDateTime::parse` with the RFC 3339 description, the
/// parsed instant taken apart into its Unix timestamp and its calendar
/// date. The contract names the result, and claims of its value only that
/// the date is one `time::Date` can hold: a real calendar date.
#[verifier::external_body]
fn parse_rfc3339(text: &str) -> (r: Option<(i64, i32, u8, u8)>)
    ensures
        match r {
            Some((t, y, m, d)) => rfc3339_instant(text@) == Some(
                (t as int, y as int, m as int, d as int),
            ),
            None => rfc3339_instant(text@) is None,
        },
        r matches Some((t, y, m, d)) ==> valid_calendar_date(y as int, m as int, d as int),
{
    match time::OffsetDateTime::parse(text, &time::format_description::well_known::Rfc3339) {
        Ok(instant) => Some(
            (instant.unix_timestamp(), instant.year(), u8::from(instant.month()), instant.day()),
        ),
        Err(_) => None,
    }
}

/// `time::Date::parse` with the description `[year]-[month]-[day]`, the
/// parsed date taken apart into its midnight's Unix timestamp and its
/// calendar fields. The contract names the result, and claims of its value
/// that it is a real calendar date, the only kind `time::Date` holds, whose
/// timestamp is that date's midnight in UTC.
#[verifier::external_body]
fn parse_iso_date(text: &str) -> (r: Option<(i64, i32, u8, u8)>)
    ensures
        match r {
            Some((t, y, m, d)) => iso_date(text@) == Some((t as int, y as int, m as int, d as int)),
            None => iso_date(text@) is None,
        },
        r matches Some((t, y, m, d)) ==> valid_calendar_date(y as int, m as int, d as int),
        r matches Some((t, y, m, d)) ==> t == midnight_timestamp(y as int, m as int, d as int),
{
    let Ok(format) = time::format_description::parse_borrowed::<2>("[year]-[month]-[day]") else {
        return None;
    };
    match time::Date::parse(text, &format) {
        Ok(date) => Some(
            (
                date.midnight().assume_utc().unix_timestamp(),
                date.year(),
                u8::from(date.month()),
                date.day(),
            ),
        ),
        Err(_) => None,
    }
}

/// `time::Date::from_calendar_date`, with the month given by its number,
/// and the accepted date's midnight as a Unix timestamp. The crate accepts
/// exactly the dates of `valid_calendar_date`: its source checks the year
/// range, `Month::try_from` the month, and the day against the month's
/// length in that year. The timestamp is claimed to be `midnight_timestamp`,
/// the date's day count since 1970-01-01 in the proleptic Gregorian
/// calendar, times 86 400, which is how the crate counts Julian days.
#[verifier::external_body]
fn calendar_midnight(year: i32, month: u8, day: u8) -> (r: Option<i64>)
    ensures
        r is Some <==> valid_calendar_date(year as int, month as int, day as int),
        r matches Some(t) ==> t == midnight_timestamp(year as int, month as int, day as int),
{
    let Ok(month) = time::Month::try_from(month) else {
        return None;
    };
    match time::Date::from_calendar_date(year, month, day) {
        Ok(date) => Some(date.midnight().assume_utc().unix_timestamp()),
        Err(_) => None,
    }
}

/// The system clock, as whole seconds since the Unix epoch
/// (`web_time::SystemTime::now`, and zero for a clock set before 1970).
/// Nothing is claimed of the value: it is whatever the clock says.
#[verifier::external_body]
fn clock_seconds() -> (r: u64) {
    web_time::SystemTime::now().duration_since(web_time::UNIX_EPOCH).unwrap_or_default().as_secs()
}

/// How many bytes `c` takes in UTF-8.
pub open spec fn char_width(c: char) -> nat {
    let u = c as u32;
    if u < 0x80 {
        1
    } else if u < 0x800 {
        2
    } else if u < 0x10000 {
        3
    } else {
        4
    }
}

/// How many bytes `s` takes in UTF-8: what `str::len` reports.
pub open spec fn utf8_width(s: Seq<char>) -> nat
    decreases s.len(),
{
    if s.len() == 0 {
        0
    } else {
        utf8_width(s.drop_last()) + char_width(s.last())
    }
}

/// How many characters make up the first `bytes` bytes of `s`, when that
/// many bytes end on a character boundary; `None` when they do not, or
/// when `s` is shorter. This is when `&s[..bytes]` is allowed and what it
/// holds.
pub open spec fn byte_prefix_len(s: Seq<char>, bytes: int) -> Option<int>
    decreases s.len(),
{
    if bytes == 0 {
        Some(0)
    } else if s.len() == 0 || char_width(s[0]) > bytes {
        None
    } else {
        match byte_prefix_len(s.drop_first(), bytes - char_width(s[0])) {
            Some(k) => Some(k + 1),
            None => None,
        }
    }
}

/// Whether `&s[..10]` can be taken without a panic once `s.len() >= 10`:
/// the tenth byte ends a character.
pub open spec fn ten_bytes_slice_cleanly(s: Seq<char>) -> bool {
    utf8_width(s) < 10 || byte_prefix_len(s, 10) is Some
}

pub fn char_width_of(c: char) -> (r: usize)
    ensures
        r == char_width(c),
{
    let u = c as u32;
    if u < 0x80 {
        1
    } else if u < 0x800 {
        2
    } else if u < 0x10000 {
        3
    } else {
        4
    }
}

pub proof fn lemma_byte_prefix_suffix(s: Seq<char>, i: int, bytes: int)
    requires
        0 <= i < s.len(),
        0 < bytes,
        char_width(s[i]) <= bytes,
    ensures
        byte_prefix_len(s.subrange(i, s.len() as int), bytes) == (match byte_prefix_len(
            s.subrange(i + 1, s.len() as int),
            bytes - char_width(s[i]),
        ) {
            Some(k) => Some(k + 1),
            None => None::<int>,
        }),
{
    let t = s.subrange(i, s.len() as int);
    assert(t.drop_first() =~= s.subrange(i + 1, s.len() as int));
}

/// A longer prefix takes at least as many bytes.
pub proof fn lemma_utf8_width_prefix(s: Seq<char>, i: int, j: int)
    requires
        0 <= i <= j <= s.len(),
    ensures
        utf8_width(s.take(i)) <= utf8_width(s.take(j)),
    decreases j - i,
{
    if i < j {
        lemma_utf8_width_prefix(s, i, j - 1);
        assert(s.take(j).drop_last() =~= s.take(j - 1));
    }
}

/// Whether `&s[..10]` can be taken without a panic, as
/// `ten_bytes_slice_cleanly` says: a caller can ask before it reads a date.
pub fn slices_ten_bytes_cleanly(s: &Vec<char>) -> (r: bool)
    ensures
        r == ten_bytes_slice_cleanly(s@),
{
    let mut width: usize = 0;
    let mut i: usize = 0;
    while i < s.len() && width < 10
        invariant
            i <= s.len(),
            width < 10 || i > 0,
            width <= 13,
            width == utf8_width(s@.take(i as int)),
        decreases s.len() - i,
    {
        assert(s@.take(i + 1).drop_last() =~= s@.take(i as int));
        width = width + char_width_of(s[i]);
        i = i + 1;
    }
    proof {
        if i == s.len() {
            assert(s@.take(i as int) =~= s@);
        } else {
            lemma_utf8_width_prefix(s@, i as int, s@.len() as int);
            assert(s@.take(s@.len() as int) =~= s@);
        }
    }
    if width < 10 {
        return true;
    }
    byte_prefix(s, 10).is_some()
}

/// How many characters the first `bytes` bytes of `s` hold, when those
/// bytes end on a character boundary.
pub fn byte_prefix(s: &Vec<char>, bytes: usize) -> (r: Option<usize>)
    ensures
        r matches Some(k) ==> byte_prefix_len(s@, bytes as int) == Some(k as int),
        r is None ==> byte_prefix_len(s@, bytes as int) is None,
{
    let mut i: usize = 0;
    let mut left = bytes;
    assert(s@.subrange(0, s.len() as int) =~= s@);
    while left > 0 && i < s.len() && char_width_of(s[i]) <= left
        invariant
            i <= s.len(),
            i + left <= i + bytes,
            left <= bytes,
            byte_prefix_len(s@, bytes as int) == (match byte_prefix_len(
                s@.subrange(i as int, s.len() as int),
                left as int,
            ) {
                Some(k) => Some(k + i),
                None => None::<int>,
            }),
        decreases left,
    {
        let w = char_width_of(s[i]);
        proof {
            lemma_byte_prefix_suffix(s@, i as int, left as int);
        }
        left = left - w;
        i = i + 1;
    }
    if left == 0 {
        Some(i)
    } else {
        None
    }
}

/// The number of the month a word names by its first three letters, in
/// any case: "Aug", "august" and "AUGUST" are all 8.
pub open spec fn month_from_name(word: Seq<char>) -> Option<int> {
    if word.len() < 3 {
        None
    } else {
        let p = ascii_lower(word.take(3));
        if p == "jan"@ {
            Some(1)
        } else if p == "feb"@ {
            Some(2)
        } else if p == "mar"@ {
            Some(3)
        } else if p == "apr"@ {
            Some(4)
        } else if p == "may"@ {
            Some(5)
        } else if p == "jun"@ {
            Some(6)
        } else if p == "jul"@ {
            Some(7)
        } else if p == "aug"@ {
            Some(8)
        } else if p == "sep"@ {
            Some(9)
        } else if p == "oct"@ {
            Some(10)
        } else if p == "nov"@ {
            Some(11)
        } else if p == "dec"@ {
            Some(12)
        } else {
            None
        }
    }
}

/// Whether two character sequences are the same.
pub fn same_chars(a: &Vec<char>, b: &Vec<char>) -> (r: bool)
    ensures
        r == (a@ == b@),
{
    if a.len() != b.len() {
        return false;
    }
    let mut i: usize = 0;
    while i < a.len()
        invariant
            a.len() == b.len(),
            i <= a.len(),
            forall|k: int| 0 <= k < i ==> a@[k] == b@[k],
        decreases a.len() - i,
    {
        if a[i] != b[i] {
            return false;
        }
        i = i + 1;
    }
    assert(a@ =~= b@);
    true
}

/// Whether the characters of `a` spell the string `b`.
pub fn spells(a: &Vec<char>, b: &str) -> (r: bool)
    ensures
        r == (a@ == b@),
{
    let b = chars_of(b);
    same_chars(a, &b)
}

/// The month a word names by its first three letters.
pub fn month_named(word: &Vec<char>) -> (r: Option<u8>)
    ensures
        r matches Some(m) ==> month_from_name(word@) == Some(m as int),
        r is None ==> month_from_name(word@) is None,
{
    if word.len() < 3 {
        return None;
    }
    let head = slice_of(word, 0, 3);
    let p = ascii_lowercase(&head);
    if spells(&p, "jan") {
        Some(1)
    } else if spells(&p, "feb") {
        Some(2)
    } else if spells(&p, "mar") {
        Some(3)
    } else if spells(&p, "apr") {
        Some(4)
    } else if spells(&p, "may") {
        Some(5)
    } else if spells(&p, "jun") {
        Some(6)
    } else if spells(&p, "jul") {
        Some(7)
    } else if spells(&p, "aug") {
        Some(8)
    } else if spells(&p, "sep") {
        Some(9)
    } else if spells(&p, "oct") {
        Some(10)
    } else if spells(&p, "nov") {
        Some(11)
    } else if spells(&p, "dec") {
        Some(12)
    } else {
        None
    }
}

/// The date three consecutive words spell, month first: a month name, a
/// day that parses as `u8`, and a year from 1000 on that parses as `i32`,
/// together naming a real date.
pub open spec fn date_of_words(month: Seq<char>, day: Seq<char>, year: Seq<char>) -> Option<
    (int, int, int),
> {
    match (
        month_from_name(month),
        parse_in_range(day, false, 0, 255),
        parse_in_range(year, true, -0x8000_0000, 0x7fff_ffff),
    ) {
        (Some(m), Some(d), Some(y)) => if y >= 1000 && valid_calendar_date(y, m, d) {
            Some((y, m, d))
        } else {
            None
        },
        _ => None,
    }
}

/// The first date spelled by three consecutive words from position `from`
/// on.
pub open spec fn date_in_words(words: Seq<Seq<char>>, from: int) -> Option<(int, int, int)>
    decreases words.len() - from,
{
    if from < 0 || from + 3 > words.len() {
        None
    } else {
        match date_of_words(words[from], words[from + 1], words[from + 2]) {
            Some(date) => Some(date),
            None => date_in_words(words, from + 1),
        }
    }
}

/// A written-out English date such as "Aug 2, 2013", "Premiered Aug 2,
/// 2013" or "Streamed live on August 2, 2013": the first run of month, day
/// and year among the words of `text`, split at whitespace and commas.
pub open spec fn text_date_of(text: Seq<char>) -> Option<(int, int, int)> {
    date_in_words(nonempty_pieces(split_pieces(text, Separator::WhitespaceOrComma)), 0)
}

pub proof fn lemma_views_of_pieces(r: Seq<Vec<char>>, pieces: Seq<Seq<char>>)
    requires
        r.len() == pieces.len(),
        forall|k: int| 0 <= k < r.len() ==> #[trigger] r[k]@ == pieces[k],
    ensures
        r.map_values(|p: Vec<char>| p@) == pieces,
{
    assert(r.map_values(|p: Vec<char>| p@) =~= pieces);
}

/// The non-empty pieces of `s` between separators.
pub fn fields(s: &Vec<char>, sep: Separator) -> (r: Vec<Vec<char>>)
    ensures
        r@.map_values(|p: Vec<char>| p@) == nonempty_pieces(split_pieces(s@, sep)),
{
    let ghost sp = sep;
    let pieces = split(s, sep);
    proof {
        lemma_views_of_pieces(pieces@, split_pieces(s@, sp));
    }
    let kept = keep_nonempty(pieces);
    proof {
        lemma_views_of_pieces(kept@, nonempty_pieces(split_pieces(s@, sp)));
    }
    kept
}

/// Reads the date three words spell, as `text_date` does for one window.
pub fn date_from_words(month: &Vec<char>, day: &Vec<char>, year: &Vec<char>) -> (r: Option<
    CalendarDate,
>)
    ensures
        r matches Some(d) ==> date_of_words(month@, day@, year@) == Some(
            (d.year as int, d.month as int, d.day as int),
        ),
        r is None ==> date_of_words(month@, day@, year@) is None,
{
    let m = match month_named(month) {
        Some(m) => m,
        None => return None,
    };
    let d = match parse_integer(day, false) {
        Some(d) => d,
        None => return None,
    };
    if d < 0 || d > 255 {
        return None;
    }
    let y = match parse_integer(year, true) {
        Some(y) => y,
        None => return None,
    };
    if y < -0x8000_0000 || y > 0x7fff_ffff {
        return None;
    }
    if y < 1000 {
        return None;
    }
    let y = y as i32;
    let d = d as u8;
    match calendar_midnight(y, m, d) {
        Some(_) => Some(CalendarDate { year: y, month: m, day: d }),
        None => None,
    }
}

/// A written-out English date in `value`, as `text_date_of` reads it.
pub fn text_date(value: &str) -> (r: Option<CalendarDate>)
    ensures
        r matches Some(d) ==> text_date_of(value@) == Some(
            (d.year as int, d.month as int, d.day as int),
        ),
        r is None ==> text_date_of(value@) is None,
{
    let cs = chars_of(value);
    let words = fields(&cs, Separator::WhitespaceOrComma);
    let ghost ws = words@.map_values(|p: Vec<char>| p@);
    let n = words.len();
    let mut i: usize = 0;
    while n >= 3 && i <= n - 3
        invariant
            n == words@.len() == ws.len(),
            ws == words@.map_values(|p: Vec<char>| p@),
            ws == nonempty_pieces(split_pieces(value@, Separator::WhitespaceOrComma)),
            i <= n,
            date_in_words(ws, 0) == date_in_words(ws, i as int),
        decreases n - i,
    {
        assert(ws[i as int] == words@[i as int]@);
        assert(ws[i + 1] == words@[i + 1]@);
        assert(ws[i + 2] == words@[i + 2]@);
        match date_from_words(&words[i], &words[i + 1], &words[i + 2]) {
            Some(d) => {
                return Some(d);
            },
            None => {},
        }
        i = i + 1;
    }
    None
}

/// `s` without its leading characters that are not ASCII digits.
pub open spec fn strip_start_non_digits(s: Seq<char>) -> Seq<char>
    decreases s.len(),
{
    if s.len() > 0 && !is_ascii_digit(s[0]) {
        strip_start_non_digits(s.drop_first())
    } else {
        s
    }
}

/// `s` without its trailing characters that are not ASCII digits.
pub open spec fn strip_end_non_digits(s: Seq<char>) -> Seq<char>
    decreases s.len(),
{
    if s.len() > 0 && !is_ascii_digit(s.last()) {
        strip_end_non_digits(s.drop_last())
    } else {
        s
    }
}

/// What `trim_matches(|c: char| !c.is_ascii_digit())` leaves of `s`.
pub open spec fn strip_non_digits(s: Seq<char>) -> Seq<char> {
    strip_end_non_digits(strip_start_non_digits(s))
}

/// `s` with the characters that are not ASCII digits trimmed off both
/// ends.
pub fn stripped_of_non_digits(s: &Vec<char>) -> (r: Vec<char>)
    ensures
        r@ == strip_non_digits(s@),
{
    let n = s.len();
    let mut a: usize = 0;
    assert(s@.subrange(0, n as int) =~= s@);
    while a < n && !('0' <= s[a] && s[a] <= '9')
        invariant
            a <= n == s.len(),
            strip_start_non_digits(s@) == strip_start_non_digits(s@.subrange(a as int, n as int)),
        decreases n - a,
    {
        assert(s@.subrange(a as int, n as int).drop_first() =~= s@.subrange(a + 1, n as int));
        a = a + 1;
    }
    let ghost rest = s@.subrange(a as int, n as int);
    let mut b: usize = n;
    assert(rest.subrange(0, (n - a) as int) =~= rest);
    while b > a && !('0' <= s[b - 1] && s[b - 1] <= '9')
        invariant
            a <= b <= n == s.len(),
            rest == s@.subrange(a as int, n as int),
            strip_end_non_digits(rest) == strip_end_non_digits(s@.subrange(a as int, b as int)),
        decreases b,
    {
        assert(s@.subrange(a as int, b as int).drop_last() =~= s@.subrange(a as int, b - 1));
        b = b - 1;
    }
    slice_of(s, a, b)
}

/// How many seconds a unit word such as "minutes" or "hour" stands for.
pub open spec fn unit_seconds(unit: Seq<char>) -> Option<int> {
    if starts_with(unit, "second"@) {
        Some(1)
    } else if starts_with(unit, "minute"@) {
        Some(60)
    } else if starts_with(unit, "hour"@) {
        Some(3_600)
    } else if starts_with(unit, "day"@) {
        Some(86_400)
    } else if starts_with(unit, "week"@) {
        Some(604_800int)
    } else if starts_with(unit, "month"@) {
        Some(2_592_000int)
    } else if starts_with(unit, "year"@) {
        Some(31_536_000int)
    } else {
        None
    }
}

/// The count a word gives, as in "3", "(12)" or "a"/"an" for one.
pub open spec fn count_of_word(word: Seq<char>) -> Option<int> {
    match parse_in_range(strip_non_digits(word), true, i64::MIN as int, i64::MAX as int) {
        Some(c) => Some(c),
        None => if word == "a"@ || word == "an"@ {
            Some(1)
        } else {
            None
        },
    }
}

/// `v` held to the range of `i64`, as saturating arithmetic holds it.
pub open spec fn clamp_i64(v: int) -> int {
    if v < i64::MIN as int {
        i64::MIN as int
    } else if v > i64::MAX as int {
        i64::MAX as int
    } else {
        v
    }
}

/// The first "count unit" pair among `words` from position `from` on, as
/// the instant that long before `now`.
pub open spec fn relative_in_words(words: Seq<Seq<char>>, from: int, now: int) -> Option<int>
    decreases words.len() - from,
{
    if from < 0 || from >= words.len() {
        None
    } else {
        match count_of_word(words[from]) {
            Some(c) => if from + 1 < words.len() && unit_seconds(words[from + 1]) is Some {
                Some(clamp_i64(now - clamp_i64(c * unit_seconds(words[from + 1])->0)))
            } else {
                relative_in_words(words, from + 1, now)
            },
            None => relative_in_words(words, from + 1, now),
        }
    }
}

/// The instant relative text such as "2 hours ago", "Streaming now" or
/// "Yesterday" stands for at `now`; zero when it names none.
pub open spec fn relative_epoch(text: Seq<char>, now: int) -> int {
    let lower = ascii_lower(text);
    if contains_run(lower, "streaming now"@) || lower == "live"@ || contains_run(
        lower,
        "just now"@,
    ) {
        now
    } else if contains_run(lower, "yesterday"@) {
        now - 86_400
    } else {
        match relative_in_words(words(lower), 0, now) {
            Some(t) => t,
            None => 0,
        }
    }
}

/// The date in the first ten bytes of `text`, when those bytes end on a
/// character boundary.
pub open spec fn iso_prefix_date(text: Seq<char>) -> Option<(int, int, int, int)> {
    match byte_prefix_len(text, 10) {
        Some(k) => iso_date(text.take(k)),
        None => None,
    }
}

/// The Unix timestamp a published date stands for at `now`: an RFC 3339
/// timestamp, else a date at the start of the text, else a written-out
/// date, else relative text read against `now`; zero for nothing usable.
pub open spec fn published_epoch_of(value: Seq<char>, now: int) -> int {
    let t = trim(value);
    match rfc3339_instant(t) {
        Some(instant) => instant.0,
        None => match iso_prefix_date(t) {
            Some(date) => date.0,
            None => match text_date_of(t) {
                Some(date) => midnight_timestamp(date.0, date.1, date.2),
                None => relative_epoch(t, now),
            },
        },
    }
}

/// How exactly a published date pins the upload down: 3 for a timestamp,
/// 2 for a calendar date, 1 for relative text, 0 for nothing usable.
pub open spec fn publish_precision_of(value: Seq<char>, now: int) -> int {
    let t = trim(value);
    if rfc3339_instant(t) is Some {
        3
    } else if iso_prefix_date(t) is Some || text_date_of(t) is Some {
        2
    } else if published_epoch_of(value, now) != 0 {
        1
    } else {
        0
    }
}

/// The count a word gives.
pub fn word_count(word: &Vec<char>) -> (r: Option<i64>)
    ensures
        r matches Some(c) ==> count_of_word(word@) == Some(c as int),
        r is None ==> count_of_word(word@) is None,
{
    let digits = stripped_of_non_digits(word);
    match parse_integer(&digits, true) {
        Some(c) => {
            if c >= -0x8000_0000_0000_0000 && c <= 0x7fff_ffff_ffff_ffff {
                return Some(c as i64);
            }
        },
        None => {},
    }
    if spells(word, "a") || spells(word, "an") {
        Some(1)
    } else {
        None
    }
}

pub fn starts_with_str(s: &Vec<char>, prefix: &str) -> (r: bool)
    ensures
        r == starts_with(s@, prefix@),
{
    let p = chars_of(prefix);
    has_prefix(s, &p)
}

/// How many seconds a unit word stands for.
pub fn unit_in_seconds(unit: &Vec<char>) -> (r: Option<i64>)
    ensures
        r matches Some(s) ==> unit_seconds(unit@) == Some(s as int) && 1 <= s <= 31_536_000,
        r is None ==> unit_seconds(unit@) is None,
{
    if starts_with_str(unit, "second") {
        Some(1)
    } else if starts_with_str(unit, "minute") {
        Some(60)
    } else if starts_with_str(unit, "hour") {
        Some(3_600)
    } else if starts_with_str(unit, "day") {
        Some(86_400)
    } else if starts_with_str(unit, "week") {
        Some(7 * 86_400)
    } else if starts_with_str(unit, "month") {
        Some(30 * 86_400)
    } else if starts_with_str(unit, "year") {
        Some(365 * 86_400)
    } else {
        None
    }
}

pub fn clamp_to_i64(v: i128) -> (r: i64)
    ensures
        r == clamp_i64(v as int),
{
    if v < -0x8000_0000_0000_0000 {
        i64::MIN
    } else if v > 0x7fff_ffff_ffff_ffff {
        i64::MAX
    } else {
        v as i64
    }
}

pub fn mentions(s: &Vec<char>, needle: &str) -> (r: bool)
    ensures
        r == contains_run(s@, needle@),
{
    let n = chars_of(needle);
    contains(s, &n)
}

/// The instant relative text stands for at `now`.
pub fn relative_epoch_at(text: &Vec<char>, now: i64) -> (r: i64)
    requires
        now >= i64::MIN + 86_400,
    ensures
        r == relative_epoch(text@, now as int),
{
    let lower = ascii_lowercase(text);
    if mentions(&lower, "streaming now") || spells(&lower, "live") || mentions(&lower, "just now") {
        return now;
    }
    if mentions(&lower, "yesterday") {
        return now - 86_400;
    }
    let ws = fields(&lower, Separator::Whitespace);
    let ghost wv = ws@.map_values(|p: Vec<char>| p@);
    assert(wv == words(lower@));
    let n = ws.len();
    let mut i: usize = 0;
    while i < n
        invariant
            n == ws@.len() == wv.len(),
            wv == ws@.map_values(|p: Vec<char>| p@),
            i <= n,
            relative_in_words(wv, 0, now as int) == relative_in_words(wv, i as int, now as int),
            lower@ == ascii_lower(text@),
            wv == words(lower@),
            !(contains_run(lower@, "streaming now"@) || lower@ == "live"@ || contains_run(
                lower@,
                "just now"@,
            )),
            !contains_run(lower@, "yesterday"@),
        decreases n - i,
    {
        assert(wv[i as int] == ws@[i as int]@);
        match word_count(&ws[i]) {
            Some(c) => {
                if i + 1 < n {
                    assert(wv[i + 1] == ws@[i + 1]@);
                    match unit_in_seconds(&ws[i + 1]) {
                        Some(secs) => {
                            let wide = c as i128;
                            let unit = secs as i128;
                            assert(-0x8000_0000_0000_0000 * 31_536_000 <= wide * unit
                                <= 0x7fff_ffff_ffff_ffff * 31_536_000) by (nonlinear_arith)
                                requires
                                    -0x8000_0000_0000_0000 <= wide <= 0x7fff_ffff_ffff_ffff,
                                    1 <= unit <= 31_536_000,
                            ;
                            let span = clamp_to_i64(wide * unit);
                            return clamp_to_i64((now as i128) - (span as i128));
                        },
                        None => {},
                    }
                }
            },
            None => {},
        }
        i = i + 1;
    }
    0
}

pub proof fn lemma_short_prefix_has_no_bytes(s: Seq<char>, bytes: int)
    requires
        0 < bytes,
        utf8_width(s) < bytes,
    ensures
        byte_prefix_len(s, bytes) is None,
    decreases s.len(),
{
    if s.len() > 0 {
        lemma_width_first(s);
        if char_width(s[0]) <= bytes {
            if bytes - char_width(s[0]) > 0 {
                lemma_short_prefix_has_no_bytes(s.drop_first(), bytes - char_width(s[0]));
            }
        }
    }
}

pub proof fn lemma_width_first(s: Seq<char>)
    requires
        s.len() > 0,
    ensures
        utf8_width(s) == char_width(s[0]) + utf8_width(s.drop_first()),
    decreases s.len(),
{
    if s.len() > 1 {
        lemma_width_first(s.drop_last());
        assert(s.drop_last().drop_first() =~= s.drop_first().drop_last());
    } else {
        assert(s.drop_first() =~= Seq::<char>::empty());
        assert(s.drop_last() =~= Seq::<char>::empty());
    }
}

/// The date at the start of `text`, read from its first ten bytes.
pub fn iso_prefix(text: &Vec<char>) -> (r: Option<(i64, i32, u8, u8)>)
    ensures
        match r {
            Some((t, y, m, d)) => iso_prefix_date(text@) == Some(
                (t as int, y as int, m as int, d as int),
            ) && valid_calendar_date(y as int, m as int, d as int),
            None => iso_prefix_date(text@) is None,
        },
{
    match byte_prefix(text, 10) {
        Some(k) => {
            if k <= text.len() {
                let head = slice_of(text, 0, k);
                assert(head@ == text@.take(k as int));
                let s = string_of(head.as_slice());
                parse_iso_date(s.as_str())
            } else {
                proof {
                    lemma_byte_prefix_bounded(text@, 10);
                }
                None
            }
        },
        None => None,
    }
}

pub proof fn lemma_byte_prefix_bounded(s: Seq<char>, bytes: int)
    ensures
        byte_prefix_len(s, bytes) matches Some(k) ==> 0 <= k <= s.len(),
    decreases s.len(),
{
    if bytes != 0 && s.len() > 0 && char_width(s[0]) <= bytes {
        lemma_byte_prefix_bounded(s.drop_first(), bytes - char_width(s[0]));
    }
}

pub proof fn lemma_words_date_valid(words: Seq<Seq<char>>, from: int)
    ensures
        date_in_words(words, from) matches Some(d) ==> valid_calendar_date(d.0, d.1, d.2),
    decreases words.len() - from,
{
    if !(from < 0 || from + 3 > words.len()) {
        lemma_words_date_valid(words, from + 1);
    }
}

/// The Unix timestamp a published date stands for at `now`.
pub fn published_epoch_at(value: &str, now: i64) -> (r: i64)
    requires
        ten_bytes_slice_cleanly(trim(value@)),
        now >= i64::MIN + 86_400,
    ensures
        r == published_epoch_of(value@, now as int),
{
    let t = trimmed_chars(value);
    let ts = string_of(t.as_slice());
    if let Some((instant, _, _, _)) = parse_rfc3339(ts.as_str()) {
        return instant;
    }
    if let Some((midnight, _, _, _)) = iso_prefix(&t) {
        return midnight;
    }
    if let Some(date) = text_date(ts.as_str()) {
        proof {
            lemma_words_date_valid(
                nonempty_pieces(split_pieces(ts@, Separator::WhitespaceOrComma)),
                0,
            );
        }
        if let Some(midnight) = calendar_midnight(date.year, date.month, date.day) {
            return midnight;
        }
    }
    relative_epoch_at(&t, now)
}

/// How exactly a published date pins the upload down, read at `now`.
pub fn publish_precision_at(value: &str, now: i64) -> (r: u8)
    requires
        ten_bytes_slice_cleanly(trim(value@)),
        now >= i64::MIN + 86_400,
    ensures
        r == publish_precision_of(value@, now as int),
{
    let t = trimmed_chars(value);
    let ts = string_of(t.as_slice());
    if parse_rfc3339(ts.as_str()).is_some() {
        return 3;
    }
    if iso_prefix(&t).is_some() || text_date(ts.as_str()).is_some() {
        return 2;
    }
    if published_epoch_at(value, now) != 0 {
        1
    } else {
        0
    }
}

/// The clock as an `i64` count of seconds since the Unix epoch, held
/// where arithmetic on it cannot overflow. Which second it is, is the
/// clock's to say; it is never before the epoch, since a clock set earlier
/// reads as zero.
pub fn clock_now() -> (r: i64)
    ensures
        0 <= r,
{
    let secs = clock_seconds();
    if secs > 0x7fff_ffff_ffff_ffff {
        i64::MAX
    } else {
        secs as i64
    }
}

/// The short English name of a month.
pub open spec fn short_month(month: int) -> Seq<char> {
    if month == 1 {
        "Jan"@
    } else if month == 2 {
        "Feb"@
    } else if month == 3 {
        "Mar"@
    } else if month == 4 {
        "Apr"@
    } else if month == 5 {
        "May"@
    } else if month == 6 {
        "Jun"@
    } else if month == 7 {
        "Jul"@
    } else if month == 8 {
        "Aug"@
    } else if month == 9 {
        "Sep"@
    } else if month == 10 {
        "Oct"@
    } else if month == 11 {
        "Nov"@
    } else {
        "Dec"@
    }
}

pub fn short_month_name(month: u8) -> (r: &'static str)
    ensures
        r@ == short_month(month as int),
{
    if month == 1 {
        "Jan"
    } else if month == 2 {
        "Feb"
    } else if month == 3 {
        "Mar"
    } else if month == 4 {
        "Apr"
    } else if month == 5 {
        "May"
    } else if month == 6 {
        "Jun"
    } else if month == 7 {
        "Jul"
    } else if month == 8 {
        "Aug"
    } else if month == 9 {
        "Sep"
    } else if month == 10 {
        "Oct"
    } else if month == 11 {
        "Nov"
    } else {
        "Dec"
    }
}

/// The calendar date a published date names outright, if any: that of an
/// RFC 3339 timestamp, else that at the start of the text.
pub open spec fn named_date(t: Seq<char>) -> Option<(int, int, int)> {
    match rfc3339_instant(t) {
        Some(i) => Some((i.1, i.2, i.3)),
        None => match iso_prefix_date(t) {
            Some(d) => Some((d.1, d.2, d.3)),
            None => None,
        },
    }
}

/// The publish date as it should be shown: "Mon D, YYYY" for a machine
/// date, nothing for no date, and any other text as it came.
pub open spec fn published_label_of(value: Seq<char>) -> Seq<char> {
    let t = trim(value);
    if t.len() == 0 || t == "From YouTube"@ {
        Seq::empty()
    } else {
        match named_date(t) {
            Some(date) => short_month(date.1) + " "@ + decimal(date.2 as nat) + ", "@
                + signed_decimal(date.0),
            None => t,
        }
    }
}

/// The publish date as it should be shown.
pub fn published_label_text(value: &str) -> (r: Vec<char>)
    ensures
        r@ == published_label_of(value@),
{
    let t = trimmed_chars(value);
    if t.len() == 0 || spells(&t, "From YouTube") {
        return Vec::new();
    }
    let ts = string_of(t.as_slice());
    let date = match parse_rfc3339(ts.as_str()) {
        Some((_, y, m, d)) => Some((y, m, d)),
        None => match iso_prefix(&t) {
            Some((_, y, m, d)) => Some((y, m, d)),
            None => None,
        },
    };
    match date {
        Some((y, m, d)) => {
            let mut out: Vec<char> = Vec::new();
            push_str(&mut out, short_month_name(m));
            push_str(&mut out, " ");
            let day = decimal_of(d as u64);
            push_all(&mut out, &day);
            push_str(&mut out, ", ");
            let year = signed_decimal_of(y as i64);
            push_all(&mut out, &year);
            out
        },
        None => t,
    }
}

/// Whitespace splitting runs a word on: appending characters that are not
/// whitespace extends the last piece.
proof fn lemma_split_extends_last(p: Seq<char>, w: Seq<char>)
    requires
        forall|i: int| 0 <= i < w.len() ==> !crate::text::is_white_space(#[trigger] w[i]),
    ensures
        split_pieces(p + w, Separator::Whitespace) == split_pieces(p, Separator::Whitespace).update(
            split_pieces(p, Separator::Whitespace).len() - 1,
            split_pieces(p, Separator::Whitespace).last() + w,
        ),
    decreases w.len(),
{
    crate::text::lemma_split_pieces_nonempty(p, Separator::Whitespace);
    let base = split_pieces(p, Separator::Whitespace);
    if w.len() == 0 {
        assert(p + w =~= p);
        assert(base.last() + w =~= base.last());
        assert(base.update(base.len() - 1, base.last()) =~= base);
    } else {
        let w0 = w.drop_last();
        lemma_split_extends_last(p, w0);
        assert((p + w).drop_last() =~= p + w0);
        assert((p + w).last() == w.last());
        let mid = split_pieces(p + w0, Separator::Whitespace);
        assert(mid.last() == base.last() + w0);
        assert((base.last() + w0).push(w.last()) =~= base.last() + w);
        assert(mid.update(mid.len() - 1, mid.last().push(w.last())) =~= base.update(
            base.len() - 1,
            base.last() + w,
        ));
    }
}

/// Whitespace splitting starts a new, empty piece at a space.
proof fn lemma_split_space(p: Seq<char>)
    ensures
        split_pieces(p.push(' '), Separator::Whitespace) == split_pieces(p, Separator::Whitespace).push(
            Seq::<char>::empty(),
        ),
{
    assert(p.push(' ').drop_last() =~= p);
    assert(crate::text::is_white_space(' '));
}

/// A run that starts with something other than a digit can only occur in
/// the text after a leading run of digits.
proof fn lemma_run_after_digits(digits: Seq<char>, rest: Seq<char>, needle: Seq<char>)
    requires
        crate::text::all_digits(digits),
        needle.len() > 0,
        !is_ascii_digit(needle[0]),
        !contains_run(rest, needle),
    ensures
        !contains_run(digits + rest, needle),
{
    let text = digits + rest;
    if contains_run(text, needle) {
        let i = choose|i: int|
            0 <= i && i + needle.len() <= text.len() && #[trigger] text.subrange(i, i + needle.len())
                == needle;
        assert(text.subrange(i, i + needle.len())[0] == text[i]);
        if i < digits.len() {
            assert(text[i] == digits[i]);
        } else {
            let j = i - digits.len();
            assert(rest.subrange(j, j + needle.len()) =~= text.subrange(i, i + needle.len()));
        }
    }
}

/// A run cannot occur where none of the places it could start holds its
/// first character.
proof fn lemma_run_absent(text: Seq<char>, needle: Seq<char>)
    requires
        needle.len() > 0,
        forall|i: int| 0 <= i && i + needle.len() <= text.len() ==> #[trigger] text[i] != needle[0],
    ensures
        !contains_run(text, needle),
{
    if contains_run(text, needle) {
        let i = choose|i: int|
            0 <= i && i + needle.len() <= text.len() && #[trigger] text.subrange(i, i + needle.len())
                == needle;
        assert(text.subrange(i, i + needle.len())[0] == text[i]);
    }
}

/// A run cannot occur where, at every place it could start, the text
/// differs from its `k`-th character `k` places on.
proof fn lemma_run_absent_at(text: Seq<char>, needle: Seq<char>, k: int)
    requires
        0 <= k < needle.len(),
        forall|i: int| 0 <= i && i + needle.len() <= text.len() ==> #[trigger] text[i + k] != needle[k],
    ensures
        !contains_run(text, needle),
{
    if contains_run(text, needle) {
        let i = choose|i: int|
            0 <= i && i + needle.len() <= text.len() && #[trigger] text.subrange(i, i + needle.len())
                == needle;
        assert(text.subrange(i, i + needle.len())[k] == text[i + k]);
    }
}

/// "`digits` `unit` ago" for a unit word of lowercase letters that names
/// `seconds`: the instant that many units before `now`.
proof fn lemma_count_unit_ago(digits: Seq<char>, unit: Seq<char>, seconds: int, now: int)
    requires
        digits.len() > 0,
        crate::text::all_digits(digits),
        unit.len() > 0,
        forall|i: int| 0 <= i < unit.len() ==> 'a' <= #[trigger] unit[i] <= 'z',
        unit_seconds(unit) == Some(seconds),
        seconds >= 1,
        !contains_run(seq![' '] + unit + seq![' ', 'a', 'g', 'o'], "streaming now"@),
        !contains_run(seq![' '] + unit + seq![' ', 'a', 'g', 'o'], "just now"@),
        !contains_run(seq![' '] + unit + seq![' ', 'a', 'g', 'o'], "yesterday"@),
        now <= i64::MAX,
        crate::text::digits_value(digits) * seconds <= i64::MAX,
        now - crate::text::digits_value(digits) * seconds >= i64::MIN,
    ensures
        relative_epoch(digits + seq![' '] + unit + seq![' ', 'a', 'g', 'o'], now) == now
            - crate::text::digits_value(digits) * seconds,
{
    let ago = seq!['a', 'g', 'o'];
    let suffix = seq![' '] + unit + seq![' ', 'a', 'g', 'o'];
    let text = digits + seq![' '] + unit + seq![' ', 'a', 'g', 'o'];
    assert(text =~= digits + suffix);
    let n = crate::text::digits_value(digits);
    // Nothing to lower.
    assert(ascii_lower(text) =~= text) by {
        assert forall|i: int| 0 <= i < text.len() implies crate::text::ascii_lower_char(
            #[trigger] text[i],
        ) == text[i] by {
            if i < digits.len() {
                assert(text[i] == digits[i]);
                assert(is_ascii_digit(digits[i]));
            } else if i == digits.len() {
                assert(text[i] == ' ');
            } else if i <= digits.len() + unit.len() {
                assert(text[i] == unit[i - digits.len() - 1]);
            } else {
                assert(text[i] == suffix[i - digits.len()]);
            }
        }
    }
    // None of the fixed phrases.
    reveal_strlit("streaming now");
    reveal_strlit("just now");
    reveal_strlit("yesterday");
    reveal_strlit("live");
    lemma_run_after_digits(digits, suffix, "streaming now"@);
    lemma_run_after_digits(digits, suffix, "just now"@);
    lemma_run_after_digits(digits, suffix, "yesterday"@);
    assert(text.len() != "live"@.len());
    // Its words.
    let p1 = digits;
    let p2 = p1.push(' ');
    let p3 = p2 + unit;
    let p4 = p3.push(' ');
    let p5 = p4 + ago;
    assert(p5 =~= text);
    assert forall|i: int| 0 <= i < digits.len() implies !crate::text::is_white_space(#[trigger] digits[i]) by {
        assert(is_ascii_digit(digits[i]));
    }
    assert forall|i: int| 0 <= i < unit.len() implies !crate::text::is_white_space(#[trigger] unit[i]) by {
        assert('a' <= unit[i] <= 'z');
    }
    assert forall|i: int| 0 <= i < ago.len() implies !crate::text::is_white_space(#[trigger] ago[i]) by {
        assert('a' <= ago[i] <= 'z');
    }
    lemma_split_extends_last(Seq::<char>::empty(), digits);
    assert(Seq::<char>::empty() + digits =~= digits);
    assert(split_pieces(Seq::<char>::empty(), Separator::Whitespace) == seq![Seq::<char>::empty()]);
    assert(Seq::<char>::empty() + digits =~= digits);
    assert(split_pieces(p1, Separator::Whitespace) =~= seq![digits]);
    lemma_split_space(p1);
    assert(split_pieces(p2, Separator::Whitespace) =~= seq![digits, Seq::<char>::empty()]);
    lemma_split_extends_last(p2, unit);
    assert(Seq::<char>::empty() + unit =~= unit);
    assert(split_pieces(p3, Separator::Whitespace) =~= seq![digits, unit]);
    lemma_split_space(p3);
    assert(split_pieces(p4, Separator::Whitespace) =~= seq![digits, unit, Seq::<char>::empty()]);
    lemma_split_extends_last(p4, ago);
    assert(Seq::<char>::empty() + ago =~= ago);
    let pieces = seq![digits, unit, ago];
    assert(split_pieces(p5, Separator::Whitespace) =~= pieces);
    assert(pieces.drop_last() =~= seq![digits, unit]);
    assert(seq![digits, unit].drop_last() =~= seq![digits]);
    assert(seq![digits].drop_last() =~= Seq::<Seq<char>>::empty());
    assert(nonempty_pieces(Seq::<Seq<char>>::empty()) == Seq::<Seq<char>>::empty());
    assert(nonempty_pieces(seq![digits]) =~= seq![digits]);
    assert(nonempty_pieces(seq![digits, unit]) =~= seq![digits, unit]);
    assert(nonempty_pieces(pieces) =~= pieces);
    assert(words(text) == pieces);
    // The count.
    assert(strip_start_non_digits(digits) == digits);
    assert(strip_end_non_digits(digits) == digits);
    assert(crate::text::parsed_integer(digits, true) == Some(n as int));
    assert(n <= i64::MAX) by (nonlinear_arith)
        requires
            n * seconds <= i64::MAX,
            seconds >= 1,
            n >= 0,
    ;
    assert(count_of_word(digits) == Some(n as int));
    assert(pieces[1] == unit);
    assert(relative_in_words(pieces, 0, now) == Some(now - n * seconds));
}

/// "n days ago" stands for `n` days of 86 400 seconds before now, whatever
/// the count and the clock reading, as long as the instant fits an `i64`.
pub proof fn law_days_ago(digits: Seq<char>, now: int)
    requires
        digits.len() > 0,
        crate::text::all_digits(digits),
        now <= i64::MAX,
        crate::text::digits_value(digits) * 86_400 <= i64::MAX,
        now - crate::text::digits_value(digits) * 86_400 >= i64::MIN,
    ensures
        relative_epoch(digits + " days ago"@, now) == now - crate::text::digits_value(digits) * 86_400,
{
    reveal_strlit(" days ago");
    reveal_strlit("day");
    reveal_strlit("streaming now");
    reveal_strlit("just now");
    reveal_strlit("yesterday");
    let unit = seq!['d', 'a', 'y', 's'];
    let suffix = seq![' '] + unit + seq![' ', 'a', 'g', 'o'];
    assert(digits + " days ago"@ =~= digits + seq![' '] + unit + seq![' ', 'a', 'g', 'o']);
    assert(unit.take(3) =~= "day"@);
    reveal_strlit("second");
    reveal_strlit("minute");
    reveal_strlit("hour");
    assert(!starts_with(unit, "second"@));
    assert(!starts_with(unit, "minute"@));
    assert(unit.take(4) =~= unit);
    assert(unit[0] != "hour"@[0]);
    assert(!starts_with(unit, "hour"@));
    assert(starts_with(unit, "day"@));
    assert(unit_seconds(unit) == Some(86_400int));
    lemma_run_absent(suffix, "streaming now"@);
    assert forall|i: int| 0 <= i && i + 8 <= suffix.len() implies #[trigger] suffix[i] != 'j' by {
        if i == 0 {
        } else {
            assert(i == 1);
        }
    }
    lemma_run_absent(suffix, "just now"@);
    assert forall|i: int| 0 <= i && i + 9 <= suffix.len() implies #[trigger] suffix[i] != 'y' by {
        assert(i == 0);
    }
    lemma_run_absent(suffix, "yesterday"@);
    lemma_count_unit_ago(digits, unit, 86_400, now);
}

/// "n hours ago" stands for `n` hours of 3 600 seconds before now, whatever
/// the count and the clock reading, as long as the instant fits an `i64`.
pub proof fn law_hours_ago(digits: Seq<char>, now: int)
    requires
        digits.len() > 0,
        crate::text::all_digits(digits),
        now <= i64::MAX,
        crate::text::digits_value(digits) * 3_600 <= i64::MAX,
        now - crate::text::digits_value(digits) * 3_600 >= i64::MIN,
    ensures
        relative_epoch(digits + " hours ago"@, now) == now - crate::text::digits_value(digits) * 3_600,
{
    reveal_strlit(" hours ago");
    reveal_strlit("streaming now");
    reveal_strlit("just now");
    reveal_strlit("yesterday");
    reveal_strlit("second");
    reveal_strlit("minute");
    reveal_strlit("hour");
    let unit = seq!['h', 'o', 'u', 'r', 's'];
    let suffix = seq![' '] + unit + seq![' ', 'a', 'g', 'o'];
    assert(digits + " hours ago"@ =~= digits + seq![' '] + unit + seq![' ', 'a', 'g', 'o']);
    assert(!starts_with(unit, "second"@));
    assert(!starts_with(unit, "minute"@));
    assert(unit.take(4) =~= "hour"@);
    assert(unit_seconds(unit) == Some(3_600int));
    lemma_run_absent(suffix, "streaming now"@);
    assert forall|i: int| 0 <= i && i + 8 <= suffix.len() implies #[trigger] suffix[i] != 'j' by {
        if i == 0 {
        } else if i == 1 {
        } else {
            assert(i == 2);
        }
    }
    lemma_run_absent(suffix, "just now"@);
    assert forall|i: int| 0 <= i && i + 9 <= suffix.len() implies #[trigger] suffix[i] != 'y' by {
        if i == 0 {
        } else {
            assert(i == 1);
        }
    }
    lemma_run_absent(suffix, "yesterday"@);
    lemma_count_unit_ago(digits, unit, 3_600, now);
}

/// "n weeks ago" stands for `n` weeks of 604 800 seconds before now,
/// whatever the count and the clock reading, as long as the instant fits
/// an `i64`.
pub proof fn law_weeks_ago(digits: Seq<char>, now: int)
    requires
        digits.len() > 0,
        crate::text::all_digits(digits),
        now <= i64::MAX,
        crate::text::digits_value(digits) * 604_800 <= i64::MAX,
        now - crate::text::digits_value(digits) * 604_800 >= i64::MIN,
    ensures
        relative_epoch(digits + " weeks ago"@, now) == now - crate::text::digits_value(digits) * 604_800,
{
    reveal_strlit(" weeks ago");
    reveal_strlit("streaming now");
    reveal_strlit("just now");
    reveal_strlit("yesterday");
    reveal_strlit("second");
    reveal_strlit("minute");
    reveal_strlit("hour");
    reveal_strlit("day");
    reveal_strlit("week");
    let unit = seq!['w', 'e', 'e', 'k', 's'];
    let suffix = seq![' '] + unit + seq![' ', 'a', 'g', 'o'];
    assert(digits + " weeks ago"@ =~= digits + seq![' '] + unit + seq![' ', 'a', 'g', 'o']);
    assert(!starts_with(unit, "second"@));
    assert(!starts_with(unit, "minute"@));
    assert(unit.take(4)[0] != "hour"@[0]);
    assert(!starts_with(unit, "hour"@));
    assert(unit.take(3)[0] != "day"@[0]);
    assert(!starts_with(unit, "day"@));
    assert(unit.take(4) =~= "week"@);
    assert(unit_seconds(unit) == Some(604_800int));
    lemma_run_absent(suffix, "streaming now"@);
    assert forall|i: int| 0 <= i && i + 8 <= suffix.len() implies #[trigger] suffix[i] != 'j' by {
        if i == 0 {
        } else if i == 1 {
        } else {
            assert(i == 2);
        }
    }
    lemma_run_absent(suffix, "just now"@);
    assert forall|i: int| 0 <= i && i + 9 <= suffix.len() implies #[trigger] suffix[i] != 'y' by {
        if i == 0 {
        } else {
            assert(i == 1);
        }
    }
    lemma_run_absent(suffix, "yesterday"@);
    lemma_count_unit_ago(digits, unit, 604_800, now);
}

/// "n seconds ago" stands for `n` seconds before now, as long as the
/// instant fits an `i64`.
pub proof fn law_seconds_ago(digits: Seq<char>, now: int)
    requires
        digits.len() > 0,
        crate::text::all_digits(digits),
        now <= i64::MAX,
        crate::text::digits_value(digits) * 1 <= i64::MAX,
        now - crate::text::digits_value(digits) * 1 >= i64::MIN,
    ensures
        relative_epoch(digits + " seconds ago"@, now) == now - crate::text::digits_value(digits) * 1,
{
    reveal_strlit(" seconds ago");
    reveal_strlit("streaming now");
    reveal_strlit("just now");
    reveal_strlit("yesterday");
    reveal_strlit("second");
    reveal_strlit("minute");
    reveal_strlit("hour");
    reveal_strlit("day");
    reveal_strlit("week");
    reveal_strlit("month");
    reveal_strlit("year");
    let unit = seq!['s', 'e', 'c', 'o', 'n', 'd', 's'];
    let suffix = seq![' '] + unit + seq![' ', 'a', 'g', 'o'];
    assert(digits + " seconds ago"@ =~= digits + seq![' '] + unit + seq![' ', 'a', 'g', 'o']);
    assert(unit.take(6) =~= "second"@);
    assert(unit_seconds(unit) == Some(1int));
    lemma_run_absent(suffix, "streaming now"@);
    assert forall|i: int| 0 <= i && i + 8 <= suffix.len() implies #[trigger] suffix[i + 0] != "just now"@[0] by {
        assert(suffix[i + 0] == suffix[i]);
    }
    lemma_run_absent_at(suffix, "just now"@, 0);
    assert forall|i: int| 0 <= i && i + 9 <= suffix.len() implies #[trigger] suffix[i + 2] != "yesterday"@[2] by {
    }
    lemma_run_absent_at(suffix, "yesterday"@, 2);
    lemma_count_unit_ago(digits, unit, 1, now);
}

/// "n minutes ago" stands for `n` minutes of 60 seconds before now, as long
/// as the instant fits an `i64`.
pub proof fn law_minutes_ago(digits: Seq<char>, now: int)
    requires
        digits.len() > 0,
        crate::text::all_digits(digits),
        now <= i64::MAX,
        crate::text::digits_value(digits) * 60 <= i64::MAX,
        now - crate::text::digits_value(digits) * 60 >= i64::MIN,
    ensures
        relative_epoch(digits + " minutes ago"@, now) == now - crate::text::digits_value(digits) * 60,
{
    reveal_strlit(" minutes ago");
    reveal_strlit("streaming now");
    reveal_strlit("just now");
    reveal_strlit("yesterday");
    reveal_strlit("second");
    reveal_strlit("minute");
    reveal_strlit("hour");
    reveal_strlit("day");
    reveal_strlit("week");
    reveal_strlit("month");
    reveal_strlit("year");
    let unit = seq!['m', 'i', 'n', 'u', 't', 'e', 's'];
    let suffix = seq![' '] + unit + seq![' ', 'a', 'g', 'o'];
    assert(digits + " minutes ago"@ =~= digits + seq![' '] + unit + seq![' ', 'a', 'g', 'o']);
    assert(unit.take(6)[0] != "second"@[0]);
    assert(!starts_with(unit, "second"@));
    assert(unit.take(6) =~= "minute"@);
    assert(unit_seconds(unit) == Some(60int));
    lemma_run_absent(suffix, "streaming now"@);
    assert forall|i: int| 0 <= i && i + 8 <= suffix.len() implies #[trigger] suffix[i + 0] != "just now"@[0] by {
        assert(suffix[i + 0] == suffix[i]);
    }
    lemma_run_absent_at(suffix, "just now"@, 0);
    assert forall|i: int| 0 <= i && i + 9 <= suffix.len() implies #[trigger] suffix[i + 2] != "yesterday"@[2] by {
    }
    lemma_run_absent_at(suffix, "yesterday"@, 2);
    lemma_count_unit_ago(digits, unit, 60, now);
}

/// "n months ago" stands for `n` months of 30 days before now, as long as
/// the instant fits an `i64`.
pub proof fn law_months_ago(digits: Seq<char>, now: int)
    requires
        digits.len() > 0,
        crate::text::all_digits(digits),
        now <= i64::MAX,
        crate::text::digits_value(digits) * 2_592_000 <= i64::MAX,
        now - crate::text::digits_value(digits) * 2_592_000 >= i64::MIN,
    ensures
        relative_epoch(digits + " months ago"@, now) == now - crate::text::digits_value(digits) * 2_592_000,
{
    reveal_strlit(" months ago");
    reveal_strlit("streaming now");
    reveal_strlit("just now");
    reveal_strlit("yesterday");
    reveal_strlit("second");
    reveal_strlit("minute");
    reveal_strlit("hour");
    reveal_strlit("day");
    reveal_strlit("week");
    reveal_strlit("month");
    reveal_strlit("year");
    let unit = seq!['m', 'o', 'n', 't', 'h', 's'];
    let suffix = seq![' '] + unit + seq![' ', 'a', 'g', 'o'];
    assert(digits + " months ago"@ =~= digits + seq![' '] + unit + seq![' ', 'a', 'g', 'o']);
    assert(unit.take(6)[0] != "second"@[0]);
    assert(!starts_with(unit, "second"@));
    assert(unit.take(6)[1] != "minute"@[1]);
    assert(!starts_with(unit, "minute"@));
    assert(unit.take(4)[0] != "hour"@[0]);
    assert(!starts_with(unit, "hour"@));
    assert(unit.take(3)[0] != "day"@[0]);
    assert(!starts_with(unit, "day"@));
    assert(unit.take(4)[0] != "week"@[0]);
    assert(!starts_with(unit, "week"@));
    assert(unit.take(5) =~= "month"@);
    assert(unit_seconds(unit) == Some(2_592_000int));
    lemma_run_absent(suffix, "streaming now"@);
    assert forall|i: int| 0 <= i && i + 8 <= suffix.len() implies #[trigger] suffix[i + 0] != "just now"@[0] by {
        assert(suffix[i + 0] == suffix[i]);
    }
    lemma_run_absent_at(suffix, "just now"@, 0);
    assert forall|i: int| 0 <= i && i + 9 <= suffix.len() implies #[trigger] suffix[i + 2] != "yesterday"@[2] by {
    }
    lemma_run_absent_at(suffix, "yesterday"@, 2);
    lemma_count_unit_ago(digits, unit, 2_592_000, now);
}

/// "n years ago" stands for `n` years of 365 days before now, as long as
/// the instant fits an `i64`.
pub proof fn law_years_ago(digits: Seq<char>, now: int)
    requires
        digits.len() > 0,
        crate::text::all_digits(digits),
        now <= i64::MAX,
        crate::text::digits_value(digits) * 31_536_000 <= i64::MAX,
        now - crate::text::digits_value(digits) * 31_536_000 >= i64::MIN,
    ensures
        relative_epoch(digits + " years ago"@, now) == now - crate::text::digits_value(digits) * 31_536_000,
{
    reveal_strlit(" years ago");
    reveal_strlit("streaming now");
    reveal_strlit("just now");
    reveal_strlit("yesterday");
    reveal_strlit("second");
    reveal_strlit("minute");
    reveal_strlit("hour");
    reveal_strlit("day");
    reveal_strlit("week");
    reveal_strlit("month");
    reveal_strlit("year");
    let unit = seq!['y', 'e', 'a', 'r', 's'];
    let suffix = seq![' '] + unit + seq![' ', 'a', 'g', 'o'];
    assert(digits + " years ago"@ =~= digits + seq![' '] + unit + seq![' ', 'a', 'g', 'o']);
    assert(!starts_with(unit, "second"@));
    assert(!starts_with(unit, "minute"@));
    assert(unit.take(4)[0] != "hour"@[0]);
    assert(!starts_with(unit, "hour"@));
    assert(unit.take(3)[0] != "day"@[0]);
    assert(!starts_with(unit, "day"@));
    assert(unit.take(4)[0] != "week"@[0]);
    assert(!starts_with(unit, "week"@));
    assert(unit.take(5)[0] != "month"@[0]);
    assert(!starts_with(unit, "month"@));
    assert(unit.take(4) =~= "year"@);
    assert(unit_seconds(unit) == Some(31_536_000int));
    lemma_run_absent(suffix, "streaming now"@);
    assert forall|i: int| 0 <= i && i + 8 <= suffix.len() implies #[trigger] suffix[i + 0] != "just now"@[0] by {
        assert(suffix[i + 0] == suffix[i]);
    }
    lemma_run_absent_at(suffix, "just now"@, 0);
    assert forall|i: int| 0 <= i && i + 9 <= suffix.len() implies #[trigger] suffix[i + 2] != "yesterday"@[2] by {
    }
    lemma_run_absent_at(suffix, "yesterday"@, 2);
    lemma_count_unit_ago(digits, unit, 31_536_000, now);
}

} // verus!
