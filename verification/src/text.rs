//! Character-level text handling shared by the rest of the library.
//!
//! Strings are handled as sequences of `char`s: the view of a `str` or a
//! `String` is its `Seq<char>`, and every rule in this crate is stated over
//! that view.
use vstd::prelude::*;

verus! {

broadcast use vstd::string::group_string_axioms;

/// The Unicode `White_Space` property, which is what `char::is_whitespace`,
/// `str::trim` and `str::split_whitespace` go by.
pub open spec fn is_white_space(c: char) -> bool {
    let u = c as u32;
    ||| 0x9 <= u <= 0xD
    ||| u == 0x20
    ||| u == 0x85
    ||| u == 0xA0
    ||| u == 0x1680
    ||| 0x2000 <= u <= 0x200A
    ||| u == 0x2028
    ||| u == 0x2029
    ||| u == 0x202F
    ||| u == 0x205F
    ||| u == 0x3000
}

pub fn is_whitespace(c: char) -> (r: bool)
    ensures
        r == is_white_space(c),
{
    let u = c as u32;
    (0x9 <= u && u <= 0xD) || u == 0x20 || u == 0x85 || u == 0xA0 || u == 0x1680 || (0x2000 <= u
        && u <= 0x200A) || u == 0x2028 || u == 0x2029 || u == 0x202F || u == 0x205F || u == 0x3000
}

pub open spec fn is_ascii_digit(c: char) -> bool {
    '0' <= c <= '9'
}

pub open spec fn is_ascii_alphabetic(c: char) -> bool {
    ('a' <= c <= 'z') || ('A' <= c <= 'Z')
}

/// `s` without its leading whitespace.
pub open spec fn trim_start(s: Seq<char>) -> Seq<char>
    decreases s.len(),
{
    if s.len() > 0 && is_white_space(s[0]) {
        trim_start(s.drop_first())
    } else {
        s
    }
}

/// `s` without its trailing whitespace.
pub open spec fn trim_end(s: Seq<char>) -> Seq<char>
    decreases s.len(),
{
    if s.len() > 0 && is_white_space(s.last()) {
        trim_end(s.drop_last())
    } else {
        s
    }
}

/// What `str::trim` gives back.
pub open spec fn trim(s: Seq<char>) -> Seq<char> {
    trim_end(trim_start(s))
}

/// `s` without any trailing `c`, as `str::trim_end_matches(c)` gives it.
pub open spec fn trim_end_char(s: Seq<char>, c: char) -> Seq<char>
    decreases s.len(),
{
    if s.len() > 0 && s.last() == c {
        trim_end_char(s.drop_last(), c)
    } else {
        s
    }
}

pub open spec fn ascii_lower_char(c: char) -> char {
    if 'A' <= c <= 'Z' {
        ((c as u32) + 32) as char
    } else {
        c
    }
}

/// What `to_ascii_lowercase` gives back: ASCII capitals lowered, every
/// other character kept.
pub open spec fn ascii_lower(s: Seq<char>) -> Seq<char> {
    s.map_values(|c: char| ascii_lower_char(c))
}

pub open spec fn starts_with(s: Seq<char>, prefix: Seq<char>) -> bool {
    prefix.len() <= s.len() && s.take(prefix.len() as int) == prefix
}

/// Whether `needle` occurs in `s` as a contiguous run.
pub open spec fn contains_run(s: Seq<char>, needle: Seq<char>) -> bool {
    exists|i: int|
        0 <= i && i + needle.len() <= s.len() && #[trigger] s.subrange(i, i + needle.len())
            == needle
}

pub open spec fn digit_char(d: int) -> char {
    if d == 0 {
        '0'
    } else if d == 1 {
        '1'
    } else if d == 2 {
        '2'
    } else if d == 3 {
        '3'
    } else if d == 4 {
        '4'
    } else if d == 5 {
        '5'
    } else if d == 6 {
        '6'
    } else if d == 7 {
        '7'
    } else if d == 8 {
        '8'
    } else {
        '9'
    }
}

/// The decimal digits of `n`, as `format!("{n}")` writes them.
pub open spec fn decimal(n: nat) -> Seq<char>
    decreases n,
{
    if n < 10 {
        seq![digit_char(n as int)]
    } else {
        decimal(n / 10).push(digit_char((n % 10) as int))
    }
}

/// `n` written with at least two digits, as `format!("{n:02}")` writes it.
pub open spec fn decimal_two(n: nat) -> Seq<char> {
    if n < 10 {
        seq!['0', digit_char(n as int)]
    } else {
        decimal(n)
    }
}

pub open spec fn digit_value(c: char) -> int {
    (c as u32) - ('0' as u32)
}

pub open spec fn all_digits(s: Seq<char>) -> bool {
    forall|i: int| 0 <= i < s.len() ==> is_ascii_digit(#[trigger] s[i])
}

/// The number a run of decimal digits spells.
pub open spec fn digits_value(s: Seq<char>) -> nat
    decreases s.len(),
{
    if s.len() == 0 {
        0
    } else {
        (digits_value(s.drop_last()) * 10 + digit_value(s.last())) as nat
    }
}

/// What `str::parse` reads from `s` for an integer type, before the type's
/// range is checked: an optional `+` (or, for a signed type, `-`) and then
/// one or more ASCII digits, nothing else.
pub open spec fn parsed_integer(s: Seq<char>, signed: bool) -> Option<int> {
    if s.len() == 0 {
        None
    } else {
        let negative = signed && s[0] == '-';
        let body = if s[0] == '+' || negative {
            s.drop_first()
        } else {
            s
        };
        if body.len() > 0 && all_digits(body) {
            Some(
                if negative {
                    -digits_value(body)
                } else {
                    digits_value(body) as int
                },
            )
        } else {
            None
        }
    }
}

/// What `str::parse::<T>` gives for an integer type `T` spanning
/// `min..=max`.
pub open spec fn parse_in_range(s: Seq<char>, signed: bool, min: int, max: int) -> Option<int> {
    match parsed_integer(s, signed) {
        Some(v) => if min <= v <= max {
            Some(v)
        } else {
            None
        },
        None => None,
    }
}

/// The characters of `s`, in order.
pub fn chars_of(s: &str) -> (r: Vec<char>)
    ensures
        r@ == s@,
{
    let mut out: Vec<char> = Vec::new();
    let n = s.unicode_len();
    let mut i: usize = 0;
    while i < n
        invariant
            n == s@.len(),
            i <= n,
            out@ == s@.take(i as int),
        decreases n - i,
    {
        let c = s.get_char(i);
        out.push(c);
        assert(s@.take(i + 1) =~= s@.take(i as int).push(c));
        i = i + 1;
    }
    assert(s@.take(n as int) =~= s@);
    out
}

/// `std::iter::FromIterator::from_iter` for `String`, over the given
/// characters: the string they spell, in order.
#[verifier::external_body]
pub(crate) fn string_of(chars: &[char]) -> (r: String)
    ensures
        r@ == chars@,
{
    chars.iter().collect()
}

/// The full Unicode lowercase mapping of a string, as `str::to_lowercase`
/// computes it.
pub uninterp spec fn unicode_lowercase(s: Seq<char>) -> Seq<char>;

/// `str::to_lowercase`. Its result is named, not written out: the mapping
/// is Unicode's case tables, which is nothing a few lines can state.
#[verifier::external_body]
pub(crate) fn to_lowercase(s: &str) -> (r: String)
    ensures
        r@ == unicode_lowercase(s@),
{
    s.to_lowercase()
}

/// A copy of `s[from..to]`.
pub fn slice_of(s: &Vec<char>, from: usize, to: usize) -> (r: Vec<char>)
    requires
        from <= to <= s.len(),
    ensures
        r@ == s@.subrange(from as int, to as int),
{
    let mut out: Vec<char> = Vec::new();
    let mut i = from;
    while i < to
        invariant
            from <= i <= to <= s.len(),
            out@ == s@.subrange(from as int, i as int),
        decreases to - i,
    {
        out.push(s[i]);
        assert(s@.subrange(from as int, i + 1) =~= s@.subrange(from as int, i as int).push(
            s@[i as int],
        ));
        i = i + 1;
    }
    out
}

pub proof fn lemma_trim_start_skip(s: Seq<char>, i: int)
    requires
        0 <= i < s.len(),
        is_white_space(s[i]),
    ensures
        trim_start(s.subrange(i, s.len() as int)) == trim_start(s.subrange(i + 1, s.len() as int)),
{
    let t = s.subrange(i, s.len() as int);
    assert(t.drop_first() =~= s.subrange(i + 1, s.len() as int));
}

pub proof fn lemma_trim_end_skip(s: Seq<char>, j: int)
    requires
        0 < j <= s.len(),
        is_white_space(s[j - 1]),
    ensures
        trim_end(s.subrange(0, j)) == trim_end(s.subrange(0, j - 1)),
{
    let t = s.subrange(0, j);
    assert(t.drop_last() =~= s.subrange(0, j - 1));
}

/// Where the text of `s` starts and ends once its surrounding whitespace
/// is left out.
pub fn trim_bounds(s: &Vec<char>) -> (r: (usize, usize))
    ensures
        r.0 <= r.1 <= s.len(),
        s@.subrange(r.0 as int, r.1 as int) == trim(s@),
{
    let n = s.len();
    let mut a: usize = 0;
    assert(s@.subrange(0, n as int) =~= s@);
    while a < n && is_whitespace(s[a])
        invariant
            a <= n == s.len(),
            trim_start(s@) == trim_start(s@.subrange(a as int, n as int)),
        decreases n - a,
    {
        proof {
            lemma_trim_start_skip(s@, a as int);
        }
        a = a + 1;
    }
    let ghost rest = s@.subrange(a as int, n as int);
    assert(trim_start(rest) == rest);
    let mut b: usize = n;
    assert(rest.subrange(0, (n - a) as int) =~= rest);
    while b > a && is_whitespace(s[b - 1])
        invariant
            a <= b <= n == s.len(),
            rest == s@.subrange(a as int, n as int),
            trim_end(rest) == trim_end(s@.subrange(a as int, b as int)),
        decreases b,
    {
        proof {
            let t = s@.subrange(a as int, b as int);
            lemma_trim_end_skip(t, (b - a) as int);
            assert(t.subrange(0, (b - a) as int) =~= t);
            assert(t.subrange(0, (b - a - 1) as int) =~= s@.subrange(a as int, b - 1));
        }
        b = b - 1;
    }
    let ghost kept = s@.subrange(a as int, b as int);
    assert(trim_end(kept) == kept);
    (a, b)
}

/// `s` with its leading and trailing whitespace left out.
pub fn trimmed(s: &Vec<char>) -> (r: Vec<char>)
    ensures
        r@ == trim(s@),
{
    let (a, b) = trim_bounds(s);
    slice_of(s, a, b)
}

/// The characters of `s` with its surrounding whitespace left out, as
/// `str::trim` gives them.
pub fn trimmed_chars(s: &str) -> (r: Vec<char>)
    ensures
        r@ == trim(s@),
{
    let cs = chars_of(s);
    trimmed(&cs)
}

pub fn ascii_lower_of(c: char) -> (r: char)
    ensures
        r == ascii_lower_char(c),
{
    if 'A' <= c && c <= 'Z' {
        let b = (c as u32) as u8;
        ((b + 32) as char)
    } else {
        c
    }
}


/// The lowercase of `s` under `to_ascii_lowercase`.
pub fn ascii_lowercase(s: &Vec<char>) -> (r: Vec<char>)
    ensures
        r@ == ascii_lower(s@),
{
    let mut out: Vec<char> = Vec::new();
    let mut i: usize = 0;
    while i < s.len()
        invariant
            i <= s.len(),
            out@ == ascii_lower(s@.take(i as int)),
        decreases s.len() - i,
    {
        out.push(ascii_lower_of(s[i]));
        assert(ascii_lower(s@.take(i + 1)) =~= ascii_lower(s@.take(i as int)).push(
            ascii_lower_char(s@[i as int]),
        ));
        i = i + 1;
    }
    assert(s@.take(s.len() as int) =~= s@);
    out
}

/// Whether `s` begins with `prefix`.
pub fn has_prefix(s: &Vec<char>, prefix: &Vec<char>) -> (r: bool)
    ensures
        r == starts_with(s@, prefix@),
{
    if prefix.len() > s.len() {
        return false;
    }
    let mut i: usize = 0;
    while i < prefix.len()
        invariant
            prefix.len() <= s.len(),
            i <= prefix.len(),
            forall|k: int| 0 <= k < i ==> s@[k] == prefix@[k],
        decreases prefix.len() - i,
    {
        if s[i] != prefix[i] {
            assert(s@.take(prefix.len() as int)[i as int] != prefix@[i as int]);
            return false;
        }
        i = i + 1;
    }
    assert(s@.take(prefix.len() as int) =~= prefix@);
    true
}

/// Whether `needle` occurs in `s` starting at position `at`.
pub fn occurs_at(s: &Vec<char>, needle: &Vec<char>, at: usize) -> (r: bool)
    requires
        at + needle.len() <= s.len(),
    ensures
        r == (s@.subrange(at as int, at + needle.len()) == needle@),
{
    let mut i: usize = 0;
    while i < needle.len()
        invariant
            at + needle.len() <= s.len(),
            i <= needle.len(),
            forall|k: int| 0 <= k < i ==> s@[at + k] == needle@[k],
        decreases needle.len() - i,
    {
        if s[at + i] != needle[i] {
            assert(s@.subrange(at as int, at + needle.len())[i as int] != needle@[i as int]);
            return false;
        }
        i = i + 1;
    }
    assert(s@.subrange(at as int, at + needle.len()) =~= needle@);
    true
}

/// Whether `needle` occurs anywhere in `s`, as `str::contains` answers it.
pub fn contains(s: &Vec<char>, needle: &Vec<char>) -> (r: bool)
    ensures
        r == contains_run(s@, needle@),
{
    if needle.len() > s.len() {
        return false;
    }
    let last = s.len() - needle.len();
    let mut i: usize = 0;
    while i < last
        invariant
            last + needle.len() == s.len(),
            i <= last,
            forall|k: int|
                0 <= k < i ==> #[trigger] s@.subrange(k, k + needle.len()) != needle@,
        decreases last - i,
    {
        if occurs_at(s, needle, i) {
            return true;
        }
        i = i + 1;
    }
    occurs_at(s, needle, last)
}

/// `s` with every trailing `c` left out, as `str::trim_end_matches(c)`
/// gives it.
pub fn without_trailing(s: &Vec<char>, c: char) -> (r: Vec<char>)
    ensures
        r@ == trim_end_char(s@, c),
{
    let mut b = s.len();
    assert(s@.subrange(0, b as int) =~= s@);
    while b > 0 && s[b - 1] == c
        invariant
            b <= s.len(),
            trim_end_char(s@, c) == trim_end_char(s@.subrange(0, b as int), c),
        decreases b,
    {
        assert(s@.subrange(0, b as int).drop_last() =~= s@.subrange(0, b - 1));
        b = b - 1;
    }
    slice_of(s, 0, b)
}

pub fn digit_char_of(d: u64) -> (r: char)
    requires
        d < 10,
    ensures
        r == digit_char(d as int),
{
    if d == 0 {
        '0'
    } else if d == 1 {
        '1'
    } else if d == 2 {
        '2'
    } else if d == 3 {
        '3'
    } else if d == 4 {
        '4'
    } else if d == 5 {
        '5'
    } else if d == 6 {
        '6'
    } else if d == 7 {
        '7'
    } else if d == 8 {
        '8'
    } else {
        '9'
    }
}

/// The decimal digits of `n`.
pub fn decimal_of(n: u64) -> (r: Vec<char>)
    ensures
        r@ == decimal(n as nat),
{
    let mut v = n;
    let mut out: Vec<char> = Vec::new();
    while v >= 10
        invariant
            decimal(n as nat) == decimal(v as nat) + out@,
        decreases v,
    {
        let d = digit_char_of(v % 10);
        proof {
            assert(decimal(v as nat) == decimal((v / 10) as nat).push(d));
            assert(decimal((v / 10) as nat).push(d) + out@ =~= decimal((v / 10) as nat) + seq![d]
                + out@);
        }
        let ghost before = out@;
        out.insert(0, d);
        assert(out@ =~= seq![d] + before);
        v = v / 10;
    }
    let d = digit_char_of(v);
    let ghost before = out@;
    out.insert(0, d);
    assert(out@ =~= seq![d] + before);
    out
}


/// The bound past which `parse_integer` stops tracking a value: every
/// integer type this crate reads fits well inside it.
pub open spec fn parse_cap() -> int {
    0x1_0000_0000_0000_0000
}

/// What `str::parse` reads from `s` for an integer type, before its range
/// check, whenever the magnitude is at most 2^64; `None` otherwise.
pub fn parse_integer(s: &Vec<char>, signed: bool) -> (r: Option<i128>)
    ensures
        match parsed_integer(s@, signed) {
            Some(v) => if -parse_cap() <= v <= parse_cap() {
                r == Some(v as i128)
            } else {
                r is None
            },
            None => r is None,
        },
{
    let n = s.len();
    if n == 0 {
        return None;
    }
    let negative = signed && s[0] == '-';
    let start: usize = if s[0] == '+' || negative {
        1
    } else {
        0
    };
    let ghost body = if s@[0] == '+' || negative {
        s@.drop_first()
    } else {
        s@
    };
    assert(body =~= s@.subrange(start as int, n as int));
    if start >= n {
        return None;
    }
    let mut value: u128 = 0;
    let mut big = false;
    let mut i = start;
    assert(body.take(0) =~= Seq::<char>::empty());
    while i < n
        invariant
            start <= i <= n == s.len(),
            body == s@.subrange(start as int, n as int),
            n > 0,
            negative == (signed && s@[0] == '-'),
            body == (if s@[0] == '+' || negative {
                s@.drop_first()
            } else {
                s@
            }),
            all_digits(body.take(i - start)),
            !big ==> value == digits_value(body.take(i - start)) && value <= parse_cap(),
            big ==> digits_value(body.take(i - start)) > parse_cap(),
        decreases n - i,
    {
        let c = s[i];
        if !('0' <= c && c <= '9') {
            assert(body[i - start] == c);
            assert(!is_ascii_digit(body[i - start]));
            assert(!all_digits(body));
            assert(parsed_integer(s@, signed) is None);
            return None;
        }
        let d = ((c as u32) - ('0' as u32)) as u128;
        let ghost k = i - start;
        proof {
            assert(body.take(k + 1).drop_last() =~= body.take(k));
            assert(body.take(k + 1).last() == c);
            assert(digits_value(body.take(k + 1)) == digits_value(body.take(k)) * 10 + d);
            assert(all_digits(body.take(k + 1)));
        }
        if !big {
            value = value * 10 + d;
            if value > 0x1_0000_0000_0000_0000 {
                big = true;
            }
        }
        i = i + 1;
    }
    assert(body.take(n - start) =~= body);
    if big {
        return None;
    }
    if negative {
        Some(-(value as i128))
    } else {
        Some(value as i128)
    }
}

/// Which characters separate the pieces of a split.
pub enum Separator {
    /// One given character, as `str::split(c)` uses.
    Char(char),
    /// Unicode whitespace.
    Whitespace,
    /// Unicode whitespace or a comma.
    WhitespaceOrComma,
}

pub open spec fn separates(sep: Separator, c: char) -> bool {
    match sep {
        Separator::Char(x) => c == x,
        Separator::Whitespace => is_white_space(c),
        Separator::WhitespaceOrComma => is_white_space(c) || c == ',',
    }
}

/// The pieces between separators, empty ones included, as `str::split`
/// yields them: one more piece than there are separators.
pub open spec fn split_pieces(s: Seq<char>, sep: Separator) -> Seq<Seq<char>>
    decreases s.len(),
{
    if s.len() == 0 {
        seq![Seq::<char>::empty()]
    } else {
        let rest = split_pieces(s.drop_last(), sep);
        if separates(sep, s.last()) {
            rest.push(Seq::<char>::empty())
        } else {
            rest.update(rest.len() - 1, rest.last().push(s.last()))
        }
    }
}

pub proof fn lemma_split_pieces_nonempty(s: Seq<char>, sep: Separator)
    ensures
        split_pieces(s, sep).len() >= 1,
    decreases s.len(),
{
    if s.len() > 0 {
        lemma_split_pieces_nonempty(s.drop_last(), sep);
    }
}

/// The pieces that hold something.
pub open spec fn nonempty_pieces(pieces: Seq<Seq<char>>) -> Seq<Seq<char>>
    decreases pieces.len(),
{
    if pieces.len() == 0 {
        Seq::empty()
    } else {
        let rest = nonempty_pieces(pieces.drop_last());
        if pieces.last().len() > 0 {
            rest.push(pieces.last())
        } else {
            rest
        }
    }
}

/// The words of `s` as `str::split_whitespace` yields them.
pub open spec fn words(s: Seq<char>) -> Seq<Seq<char>> {
    nonempty_pieces(split_pieces(s, Separator::Whitespace))
}

pub fn separates_exec(sep: &Separator, c: char) -> (r: bool)
    ensures
        r == separates(*sep, c),
{
    match sep {
        Separator::Char(x) => c == *x,
        Separator::Whitespace => is_whitespace(c),
        Separator::WhitespaceOrComma => is_whitespace(c) || c == ',',
    }
}

/// The pieces of `s` between separators, empty ones included.
pub fn split(s: &Vec<char>, sep: Separator) -> (r: Vec<Vec<char>>)
    ensures
        r@.len() == split_pieces(s@, sep).len(),
        forall|k: int| 0 <= k < r@.len() ==> #[trigger] r@[k]@ == split_pieces(s@, sep)[k],
{
    let mut done: Vec<Vec<char>> = Vec::new();
    let mut current: Vec<char> = Vec::new();
    let mut i: usize = 0;
    assert(s@.take(0) =~= Seq::<char>::empty());
    while i < s.len()
        invariant
            i <= s.len(),
            split_pieces(s@.take(i as int), sep).len() == done@.len() + 1,
            forall|k: int|
                0 <= k < done@.len() ==> #[trigger] done@[k]@ == split_pieces(
                    s@.take(i as int),
                    sep,
                )[k],
            current@ == split_pieces(s@.take(i as int), sep).last(),
        decreases s.len() - i,
    {
        let c = s[i];
        let ghost prev = split_pieces(s@.take(i as int), sep);
        assert(s@.take(i + 1).drop_last() =~= s@.take(i as int));
        assert(s@.take(i + 1).last() == c);
        if separates_exec(&sep, c) {
            let piece = current;
            done.push(piece);
            current = Vec::new();
            assert(split_pieces(s@.take(i + 1), sep) == prev.push(Seq::<char>::empty()));
        } else {
            current.push(c);
            assert(split_pieces(s@.take(i + 1), sep) == prev.update(
                prev.len() - 1,
                prev.last().push(c),
            ));
        }
        i = i + 1;
    }
    assert(s@.take(s.len() as int) =~= s@);
    done.push(current);
    done
}

/// The pieces that hold something, in order.
pub fn keep_nonempty(pieces: Vec<Vec<char>>) -> (r: Vec<Vec<char>>)
    ensures
        r@.len() == nonempty_pieces(pieces@.map_values(|p: Vec<char>| p@)).len(),
        forall|k: int|
            0 <= k < r@.len() ==> #[trigger] r@[k]@ == nonempty_pieces(
                pieces@.map_values(|p: Vec<char>| p@),
            )[k],
{
    let ghost views = pieces@.map_values(|p: Vec<char>| p@);
    let mut out: Vec<Vec<char>> = Vec::new();
    let mut i: usize = 0;
    let mut pieces = pieces;
    let ghost initial = pieces@;
    let n = pieces.len();
    assert(views.take(0) =~= Seq::<Seq<char>>::empty());
    // Taken from the back, so each piece can move out without a copy.
    let mut rest: Vec<Vec<char>> = Vec::new();
    while pieces.len() > 0
        invariant
            pieces@.len() + rest@.len() == n,
            n == initial.len(),
            views == initial.map_values(|p: Vec<char>| p@),
            forall|k: int| 0 <= k < pieces@.len() ==> #[trigger] pieces@[k] == initial[k],
            forall|k: int|
                0 <= k < rest@.len() ==> #[trigger] rest@[k] == initial[n - 1 - k],
        decreases pieces@.len(),
    {
        let p = pieces.pop().unwrap();
        rest.push(p);
    }
    while i < n
        invariant
            i <= n == initial.len(),
            rest@.len() + i == n,
            views == initial.map_values(|p: Vec<char>| p@),
            forall|k: int|
                0 <= k < rest@.len() ==> #[trigger] rest@[k] == initial[n - 1 - k],
            out@.len() == nonempty_pieces(views.take(i as int)).len(),
            forall|k: int|
                0 <= k < out@.len() ==> #[trigger] out@[k]@ == nonempty_pieces(
                    views.take(i as int),
                )[k],
        decreases n - i,
    {
        let p = rest.pop().unwrap();
        assert(p == initial[i as int]);
        assert(views.take(i + 1).drop_last() =~= views.take(i as int));
        assert(views.take(i + 1).last() == p@);
        if p.len() > 0 {
            out.push(p);
        }
        i = i + 1;
    }
    assert(views.take(n as int) =~= views);
    out
}

/// Appends the characters of `tail` to `out`.
pub fn push_all(out: &mut Vec<char>, tail: &Vec<char>)
    ensures
        final(out)@ == old(out)@ + tail@,
{
    let mut i: usize = 0;
    let ghost start = out@;
    while i < tail.len()
        invariant
            i <= tail.len(),
            out@ == start + tail@.take(i as int),
        decreases tail.len() - i,
    {
        out.push(tail[i]);
        assert(start + tail@.take(i + 1) =~= (start + tail@.take(i as int)).push(tail@[i as int]));
        i = i + 1;
    }
    assert(tail@.take(tail.len() as int) =~= tail@);
}

/// Appends the characters of `tail` to `out`.
pub fn push_str(out: &mut Vec<char>, tail: &str)
    ensures
        final(out)@ == old(out)@ + tail@,
{
    let t = chars_of(tail);
    push_all(out, &t);
}

/// `n` written in decimal, with a leading `-` when negative.
pub open spec fn signed_decimal(n: int) -> Seq<char> {
    if n < 0 {
        seq!['-'] + decimal((-n) as nat)
    } else {
        decimal(n as nat)
    }
}

pub fn signed_decimal_of(n: i64) -> (r: Vec<char>)
    ensures
        r@ == signed_decimal(n as int),
{
    if n < 0 {
        let magnitude: u64 = if n == i64::MIN {
            0x8000_0000_0000_0000
        } else {
            (-n) as u64
        };
        let mut out: Vec<char> = Vec::new();
        out.push('-');
        let digits = decimal_of(magnitude);
        push_all(&mut out, &digits);
        assert(out@ =~= seq!['-'] + decimal((-n) as nat));
        out
    } else {
        decimal_of(n as u64)
    }
}

/// `n` written with at least two digits.
pub fn decimal_two_of(n: u64) -> (r: Vec<char>)
    ensures
        r@ == decimal_two(n as nat),
{
    if n < 10 {
        let mut out: Vec<char> = Vec::new();
        out.push('0');
        out.push(digit_char_of(n));
        assert(out@ =~= seq!['0', digit_char(n as int)]);
        out
    } else {
        decimal_of(n)
    }
}

} // verus!
