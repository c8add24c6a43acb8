//! Compact counts such as "21.1M subscribers" or "528", and which of two
//! is larger.
//!
//! A count is read as a decimal number - digits with at most one point,
//! commas ignored - scaled by a K, M or B suffix. Counts are compared
//! exactly, as decimal numbers.
use vstd::prelude::*;
use crate::text::{all_digits, digit_value, digits_value, is_ascii_alphabetic, is_ascii_digit};

verus! {

pub open spec fn pow10(n: nat) -> nat
    decreases n,
{
    if n == 0 {
        1
    } else {
        10 * pow10((n - 1) as nat)
    }
}

/// A run of `n` zeros.
pub open spec fn zeros(n: nat) -> Seq<char> {
    Seq::new(n, |i: int| '0')
}

pub proof fn lemma_pow10_positive(n: nat)
    ensures
        pow10(n) >= 1,
    decreases n,
{
    if n > 0 {
        lemma_pow10_positive((n - 1) as nat);
    }
}

pub proof fn lemma_pow10_monotone(a: nat, b: nat)
    requires
        a <= b,
    ensures
        pow10(a) <= pow10(b),
    decreases b,
{
    if a < b {
        lemma_pow10_monotone(a, (b - 1) as nat);
        lemma_pow10_positive((b - 1) as nat);
    }
}

pub proof fn lemma_digit_bounds(c: char)
    requires
        is_ascii_digit(c),
    ensures
        0 <= digit_value(c) <= 9,
{
}

/// `digits_value(x + y) == digits_value(x) * 10^|y| + digits_value(y)`.
pub proof fn lemma_digits_split(x: Seq<char>, y: Seq<char>)
    requires
        all_digits(x),
        all_digits(y),
    ensures
        digits_value(x + y) == digits_value(x) * pow10(y.len()) + digits_value(y),
    decreases y.len(),
{
    if y.len() == 0 {
        assert(x + y =~= x);
        assert(digits_value(y) == 0);
        assert(pow10(0) == 1);
        assert(digits_value(x) * 1 == digits_value(x));
    } else {
        let y0 = y.drop_last();
        assert(is_ascii_digit(y[y.len() - 1]));
        assert((x + y).drop_last() =~= x + y0);
        assert((x + y).last() == y.last());
        assert(all_digits(y0));
        lemma_digits_split(x, y0);
        let dx = digits_value(x);
        let dy0 = digits_value(y0);
        let p = pow10(y0.len());
        let d = digit_value(y.last());
        assert(digits_value(x + y) == (dx * p + dy0) * 10 + d);
        assert(digits_value(y) == dy0 * 10 + d);
        assert(pow10(y.len()) == 10 * p);
        assert((dx * p + dy0) * 10 + d == dx * (10 * p) + (dy0 * 10 + d)) by (nonlinear_arith);
    }
}

/// A run of `n` digits spells less than `10^n`.
pub proof fn lemma_digits_below(s: Seq<char>)
    requires
        all_digits(s),
    ensures
        digits_value(s) < pow10(s.len()),
    decreases s.len(),
{
    if s.len() > 0 {
        let s0 = s.drop_last();
        assert(all_digits(s0));
        lemma_digits_below(s0);
        lemma_digit_bounds(s.last());
        let v = digits_value(s0);
        let p = pow10(s0.len());
        let d = digit_value(s.last());
        assert(v * 10 + d < 10 * p) by (nonlinear_arith)
            requires
                v < p,
                0 <= d <= 9,
        ;
    }
}

/// A run of digits that does not start with zero spells at least
/// `10^(n-1)`.
pub proof fn lemma_digits_at_least(s: Seq<char>)
    requires
        all_digits(s),
        s.len() > 0,
        s[0] != '0',
    ensures
        digits_value(s) >= pow10((s.len() - 1) as nat),
{
    let head = s.take(1);
    let tail = s.skip(1);
    assert(head + tail =~= s);
    assert(all_digits(head));
    assert(all_digits(tail));
    lemma_digits_split(head, tail);
    assert(head.drop_last() =~= Seq::<char>::empty());
    assert(digits_value(head.drop_last()) == 0);
    assert(is_ascii_digit(s[0]));
    assert(head.last() == s[0]);
    assert(digits_value(head) == digit_value(s[0]));
    assert(digit_value(s[0]) >= 1);
    let p = pow10(tail.len());
    assert(digit_value(s[0]) * p >= p) by (nonlinear_arith)
        requires
            digit_value(s[0]) >= 1,
            p >= 0,
    ;
}

/// Leading zeros do not change what digits spell.
pub proof fn lemma_leading_zero(s: Seq<char>)
    requires
        all_digits(s),
        s.len() > 0,
        s[0] == '0',
    ensures
        digits_value(s) == digits_value(s.drop_first()),
{
    let head = s.take(1);
    let tail = s.drop_first();
    assert(head + tail =~= s);
    assert(all_digits(tail));
    lemma_digits_split(head, tail);
    assert(head.drop_last() =~= Seq::<char>::empty());
    assert(digits_value(head.drop_last()) == 0);
    assert(head.last() == s[0]);
    assert(digits_value(head) == 0);
}

/// Appending zeros multiplies by ten for each.
pub proof fn lemma_append_zeros(s: Seq<char>, n: nat)
    requires
        all_digits(s),
    ensures
        digits_value(s + zeros(n)) == digits_value(s) * pow10(n),
        all_digits(s + zeros(n)),
{
    assert(all_digits(zeros(n)));
    lemma_digits_split(s, zeros(n));
    lemma_zeros_value(n);
}

pub proof fn lemma_zeros_value(n: nat)
    ensures
        digits_value(zeros(n)) == 0,
    decreases n,
{
    if n > 0 {
        assert(zeros(n).drop_last() =~= zeros((n - 1) as nat));
        lemma_zeros_value((n - 1) as nat);
    }
}

/// Two runs of equal length compare as their first differing digit does.
pub proof fn lemma_digits_lex(a: Seq<char>, b: Seq<char>, i: int)
    requires
        all_digits(a),
        all_digits(b),
        a.len() == b.len(),
        0 <= i < a.len(),
        a.take(i) == b.take(i),
        digit_value(a[i]) > digit_value(b[i]),
    ensures
        digits_value(a) > digits_value(b),
{
    let p = a.take(i);
    let ra = a.skip(i + 1);
    let rb = b.skip(i + 1);
    let xa = a.take(i + 1);
    let xb = b.take(i + 1);
    assert(xa + ra =~= a);
    assert(xb + rb =~= b);
    assert(all_digits(xa));
    assert(all_digits(xb));
    assert(all_digits(ra));
    assert(all_digits(rb));
    lemma_digits_split(xa, ra);
    lemma_digits_split(xb, rb);
    assert(xa.drop_last() =~= p);
    assert(xb.drop_last() =~= b.take(i));
    lemma_digits_below(rb);
    let q = pow10(ra.len());
    let va = digits_value(xa);
    let vb = digits_value(xb);
    assert(va == digits_value(p) * 10 + digit_value(a[i]));
    assert(vb == digits_value(p) * 10 + digit_value(b[i]));
    assert(va >= vb + 1);
    let da = digits_value(ra);
    let db = digits_value(rb);
    assert(va * q + da > vb * q + db) by (nonlinear_arith)
        requires
            va >= vb + 1,
            db < q,
            da >= 0,
    ;
}

/// Whether a character can belong to the number at the start of a count.
pub open spec fn is_count_char(c: char) -> bool {
    is_ascii_digit(c) || c == '.' || c == ','
}

/// How many characters at the start of `s` belong to its number.
pub open spec fn number_len(s: Seq<char>) -> nat
    decreases s.len(),
{
    if s.len() > 0 && is_count_char(s[0]) {
        1 + number_len(s.drop_first())
    } else {
        0
    }
}

/// `s` without its commas.
pub open spec fn without_commas(s: Seq<char>) -> Seq<char>
    decreases s.len(),
{
    if s.len() == 0 {
        s
    } else {
        let rest = without_commas(s.drop_last());
        if s.last() == ',' {
            rest
        } else {
            rest.push(s.last())
        }
    }
}

/// The first ASCII letter in `s`.
pub open spec fn first_letter(s: Seq<char>) -> Option<char>
    decreases s.len(),
{
    if s.len() == 0 {
        None
    } else if is_ascii_alphabetic(s[0]) {
        Some(s[0])
    } else {
        first_letter(s.drop_first())
    }
}

/// The power of ten a suffix letter scales by: K thousands, M millions,
/// B billions, in either case.
pub open spec fn suffix_exponent(letter: Option<char>) -> nat {
    match letter {
        Some(c) => if c == 'K' || c == 'k' {
            3
        } else if c == 'M' || c == 'm' {
            6
        } else if c == 'B' || c == 'b' {
            9
        } else {
            0
        },
        None => 0,
    }
}

/// The position of the first `.` in `s`.
pub open spec fn point_index(s: Seq<char>) -> Option<int>
    decreases s.len(),
{
    if s.len() == 0 {
        None
    } else if s[0] == '.' {
        Some(0)
    } else {
        match point_index(s.drop_first()) {
            Some(i) => Some(i + 1),
            None => None,
        }
    }
}

/// The digits of a number made of digits and at most one point, and how
/// many of them follow the point; `None` when it is not such a number or
/// has no digit at all. This is what `f64`'s parser accepts of such text.
pub open spec fn decimal_digits(s: Seq<char>) -> Option<(Seq<char>, nat)> {
    match point_index(s) {
        None => if s.len() > 0 && all_digits(s) {
            Some((s, 0))
        } else {
            None
        },
        Some(i) => {
            let whole = s.take(i);
            let fraction = s.skip(i + 1);
            if all_digits(whole) && all_digits(fraction) && whole.len() + fraction.len() > 0 {
                Some((whole + fraction, fraction.len()))
            } else {
                None
            }
        },
    }
}

/// A compact count read as exactly `digits × 10^(scale - fraction)`: its
/// digits, how many of them are fractional, and the suffix's power of ten.
pub open spec fn compact_count(value: Seq<char>) -> Option<(Seq<char>, nat, nat)> {
    let t = crate::text::trim(value);
    let n = number_len(t);
    match decimal_digits(without_commas(t.take(n as int))) {
        Some((digits, fraction)) => Some(
            (digits, fraction, suffix_exponent(first_letter(t.skip(n as int)))),
        ),
        None => None,
    }
}

/// Whether count `a` is larger than count `b`, both read as exact decimal
/// numbers `digits × 10^(scale - fraction)`.
pub open spec fn count_greater(a: (Seq<char>, nat, nat), b: (Seq<char>, nat, nat)) -> bool {
    let ea = a.2 + b.1;
    let eb = b.2 + a.1;
    digits_value(a.0) * pow10(ea) > digits_value(b.0) * pow10(eb)
}

/// `s` with its leading zeros left out.
fn strip_leading_zeros(s: Vec<char>) -> (r: Vec<char>)
    requires
        all_digits(s@),
    ensures
        all_digits(r@),
        digits_value(r@) == digits_value(s@),
        r@.len() == 0 || r@[0] != '0',
{
    let mut a: usize = 0;
    assert(s@.skip(0) =~= s@);
    while a < s.len() && s[a] == '0'
        invariant
            a <= s@.len(),
            all_digits(s@.skip(a as int)),
            digits_value(s@.skip(a as int)) == digits_value(s@),
        decreases s.len() - a,
    {
        proof {
            lemma_leading_zero(s@.skip(a as int));
            assert(s@.skip(a as int).drop_first() =~= s@.skip(a + 1));
        }
        a = a + 1;
    }
    let r = crate::text::slice_of(&s, a, s.len());
    assert(r@ =~= s@.skip(a as int));
    r
}

/// Whether digits `a` followed by `za` zeros spell a larger number than
/// digits `b` followed by `zb` zeros.
pub fn scaled_digits_greater(a: Vec<char>, za: u128, b: Vec<char>, zb: u128) -> (r: bool)
    requires
        all_digits(a@),
        all_digits(b@),
        za <= 0x1_0000_0000_0000_0010,
        zb <= 0x1_0000_0000_0000_0010,
    ensures
        r == (digits_value(a@ + zeros(za as nat)) > digits_value(b@ + zeros(zb as nat))),
{
    let ghost a0 = a@;
    let ghost b0 = b@;
    let sa = strip_leading_zeros(a);
    let sb = strip_leading_zeros(b);
    proof {
        lemma_append_zeros(a0, za as nat);
        lemma_append_zeros(b0, zb as nat);
        lemma_append_zeros(sa@, za as nat);
        lemma_append_zeros(sb@, zb as nat);
        lemma_pow10_positive(za as nat);
        lemma_pow10_positive(zb as nat);
    }
    let ghost va = sa@ + zeros(za as nat);
    let ghost vb = sb@ + zeros(zb as nat);
    if sa.len() == 0 || sb.len() == 0 {
        proof {
            if sa@.len() == 0 {
                assert(sa@ =~= Seq::<char>::empty());
                assert(digits_value(sa@) == 0);
                let p = pow10(za as nat);
                assert(digits_value(sa@) * p == 0) by (nonlinear_arith)
                    requires
                        digits_value(sa@) == 0,
                ;
            }
            if sb@.len() == 0 {
                assert(sb@ =~= Seq::<char>::empty());
                assert(digits_value(sb@) == 0);
                let p = pow10(zb as nat);
                assert(digits_value(sb@) * p == 0) by (nonlinear_arith)
                    requires
                        digits_value(sb@) == 0,
                ;
            }
            if sb@.len() > 0 {
                lemma_digits_at_least(sb@);
                lemma_pow10_positive((sb@.len() - 1) as nat);
                assert(digits_value(sb@) * pow10(zb as nat) >= 1) by (nonlinear_arith)
                    requires
                        digits_value(sb@) >= 1,
                        pow10(zb as nat) >= 1,
                ;
            }
            if sa@.len() > 0 {
                lemma_digits_at_least(sa@);
                lemma_pow10_positive((sa@.len() - 1) as nat);
                assert(digits_value(sa@) * pow10(za as nat) >= 1) by (nonlinear_arith)
                    requires
                        digits_value(sa@) >= 1,
                        pow10(za as nat) >= 1,
                ;
            }
        }
        return sa.len() > 0 && sb.len() == 0;
    }
    let la = (sa.len() as u128) + za;
    let lb = (sb.len() as u128) + zb;
    assert(va.len() == la);
    assert(vb.len() == lb);
    assert(va[0] == sa@[0]);
    assert(vb[0] == sb@[0]);
    if la != lb {
        proof {
            lemma_digits_below(va);
            lemma_digits_below(vb);
            if la > lb {
                lemma_digits_at_least(va);
                lemma_pow10_monotone(vb.len(), (va.len() - 1) as nat);
            } else {
                lemma_digits_at_least(vb);
                lemma_pow10_monotone(va.len(), (vb.len() - 1) as nat);
            }
        }
        return la > lb;
    }
    let n = if sa.len() > sb.len() {
        sa.len()
    } else {
        sb.len()
    };
    let mut i: usize = 0;
    while i < n
        invariant
            va.len() == vb.len(),
            va == sa@ + zeros(za as nat),
            vb == sb@ + zeros(zb as nat),
            all_digits(va),
            all_digits(vb),
            n <= va.len(),
            n >= sa@.len(),
            n >= sb@.len(),
            i <= n,
            va.take(i as int) == vb.take(i as int),
            a0 == a@,
            b0 == b@,
            digits_value(a0 + zeros(za as nat)) == digits_value(va),
            digits_value(b0 + zeros(zb as nat)) == digits_value(vb),
        decreases n - i,
    {
        let ca = if i < sa.len() {
            sa[i]
        } else {
            '0'
        };
        let cb = if i < sb.len() {
            sb[i]
        } else {
            '0'
        };
        assert(va[i as int] == ca);
        assert(vb[i as int] == cb);
        if ca != cb {
            proof {
                assert(is_ascii_digit(va[i as int]));
                assert(is_ascii_digit(vb[i as int]));
                if (ca as u32) > (cb as u32) {
                    lemma_digits_lex(va, vb, i as int);
                    assert(digits_value(va) > digits_value(vb));
                } else {
                    lemma_digits_lex(vb, va, i as int);
                    assert(digits_value(vb) > digits_value(va));
                }
                assert(digits_value(a0 + zeros(za as nat)) == digits_value(va));
            }
            return (ca as u32) > (cb as u32);
        }
        assert(va.take(i + 1) =~= va.take(i as int).push(ca));
        assert(vb.take(i + 1) =~= vb.take(i as int).push(cb));
        i = i + 1;
    }
    assert forall|k: int| 0 <= k < va.len() implies va[k] == vb[k] by {
        if k < n {
            assert(va.take(n as int)[k] == vb.take(n as int)[k]);
        }
    }
    assert(va =~= vb);
    false
}

/// A compact count's parts: its digits, how many of them are fractional,
/// and the power of ten its suffix scales by.
pub struct CompactCount {
    pub digits: Vec<char>,
    pub fraction: usize,
    pub scale: usize,
}

impl CompactCount {
    pub open spec fn view(&self) -> (Seq<char>, nat, nat) {
        (self.digits@, self.fraction as nat, self.scale as nat)
    }
}

/// Whether count `a` is larger than count `b`.
pub fn count_is_greater(a: &CompactCount, b: &CompactCount) -> (r: bool)
    requires
        all_digits(a.digits@),
        all_digits(b.digits@),
        a.scale <= 9,
        b.scale <= 9,
    ensures
        r == count_greater(a.view(), b.view()),
{
    let ea = (a.scale as u128) + (b.fraction as u128);
    let eb = (b.scale as u128) + (a.fraction as u128);
    let da = crate::text::slice_of(&a.digits, 0, a.digits.len());
    let db = crate::text::slice_of(&b.digits, 0, b.digits.len());
    assert(da@ =~= a.digits@);
    assert(db@ =~= b.digits@);
    proof {
        lemma_append_zeros(a.digits@, ea as nat);
        lemma_append_zeros(b.digits@, eb as nat);
    }
    scaled_digits_greater(da, ea, db, eb)
}

/// Whether every character of `s` from `from` to `to` is an ASCII digit.
fn digits_between(s: &Vec<char>, from: usize, to: usize) -> (r: bool)
    requires
        from <= to <= s.len(),
    ensures
        r == all_digits(s@.subrange(from as int, to as int)),
{
    let mut i = from;
    while i < to
        invariant
            from <= i <= to <= s.len(),
            all_digits(s@.subrange(from as int, i as int)),
        decreases to - i,
    {
        if !('0' <= s[i] && s[i] <= '9') {
            assert(s@.subrange(from as int, to as int)[i - from] == s@[i as int]);
            return false;
        }
        assert forall|k: int| 0 <= k < i + 1 - from implies crate::text::is_ascii_digit(
            #[trigger] s@.subrange(from as int, i + 1)[k],
        ) by {
            if k < i - from {
                assert(s@.subrange(from as int, i + 1)[k] == s@.subrange(from as int, i as int)[k]);
            }
        }
        i = i + 1;
    }
    true
}

/// The digits and fractional-digit count of a number written with digits
/// and at most one point.
pub fn decimal_digits_of(s: &Vec<char>) -> (r: Option<(Vec<char>, usize)>)
    ensures
        match r {
            Some((digits, fraction)) => decimal_digits(s@) == Some((digits@, fraction as nat)),
            None => decimal_digits(s@) is None,
        },
{
    let n = s.len();
    let mut i: usize = 0;
    assert(s@.skip(0) =~= s@);
    while i < n && s[i] != '.'
        invariant
            i <= n == s.len(),
            point_index(s@) == (match point_index(s@.skip(i as int)) {
                Some(k) => Some(k + i),
                None => None,
            }),
        decreases n - i,
    {
        assert(s@.skip(i as int).drop_first() =~= s@.skip(i + 1));
        i = i + 1;
    }
    if i == n {
        assert(s@.skip(n as int) =~= Seq::<char>::empty());
        if n > 0 && digits_between(s, 0, n) {
            assert(s@.subrange(0, n as int) =~= s@);
            let copy = crate::text::slice_of(s, 0, n);
            assert(copy@ =~= s@);
            return Some((copy, 0));
        }
        assert(s@.subrange(0, n as int) =~= s@);
        return None;
    }
    assert(point_index(s@) == Some(i as int));
    let whole_ok = digits_between(s, 0, i);
    let fraction_ok = digits_between(s, i + 1, n);
    assert(s@.subrange(0, i as int) =~= s@.take(i as int));
    assert(s@.subrange(i + 1, n as int) =~= s@.skip(i + 1));
    if whole_ok && fraction_ok && i + (n - i - 1) > 0 {
        let mut digits = crate::text::slice_of(s, 0, i);
        let fraction = crate::text::slice_of(s, i + 1, n);
        crate::text::push_all(&mut digits, &fraction);
        Some((digits, n - i - 1))
    } else {
        None
    }
}

/// Parses a compact count such as "21.1M subscribers".
pub fn compact_count_of(value: &str) -> (r: Option<CompactCount>)
    ensures
        match r {
            Some(c) => compact_count(value@) == Some(c.view()) && all_digits(c.digits@) && c.scale
                <= 9,
            None => compact_count(value@) is None,
        },
{
    let t = crate::text::trimmed_chars(value);
    let len = t.len();
    // The number at the start.
    let mut n: usize = 0;
    assert(t@.skip(0) =~= t@);
    while n < len && (('0' <= t[n] && t[n] <= '9') || t[n] == '.' || t[n] == ',')
        invariant
            n <= len == t.len(),
            number_len(t@) == n + number_len(t@.skip(n as int)),
        decreases len - n,
    {
        assert(t@.skip(n as int).drop_first() =~= t@.skip(n + 1));
        n = n + 1;
    }
    // Its commas dropped.
    let mut numeric: Vec<char> = Vec::new();
    let mut k: usize = 0;
    assert(t@.take(0) =~= Seq::<char>::empty());
    while k < n
        invariant
            k <= n <= len == t.len(),
            numeric@ == without_commas(t@.take(k as int)),
        decreases n - k,
    {
        assert(t@.take(k + 1).drop_last() =~= t@.take(k as int));
        if t[k] != ',' {
            numeric.push(t[k]);
        }
        k = k + 1;
    }
    let (digits, fraction) = match decimal_digits_of(&numeric) {
        Some(parts) => parts,
        None => return None,
    };
    // The first letter after it.
    let mut j = n;
    let ghost rest = t@.skip(n as int);
    assert(rest.skip(0) =~= rest);
    while j < len && !(('a' <= t[j] && t[j] <= 'z') || ('A' <= t[j] && t[j] <= 'Z'))
        invariant
            n <= j <= len == t.len(),
            rest == t@.skip(n as int),
            first_letter(rest) == first_letter(t@.skip(j as int)),
        decreases len - j,
    {
        assert(t@.skip(j as int).drop_first() =~= t@.skip(j + 1));
        j = j + 1;
    }
    let letter = if j < len {
        Some(t[j])
    } else {
        None
    };
    let scale: usize = match letter {
        Some(c) => if c == 'K' || c == 'k' {
            3
        } else if c == 'M' || c == 'm' {
            6
        } else if c == 'B' || c == 'b' {
            9
        } else {
            0
        },
        None => 0,
    };
    proof {
        let (d, f) = decimal_digits(numeric@)->0;
        lemma_decimal_digits_are_digits(numeric@);
    }
    Some(CompactCount { digits, fraction, scale })
}

pub proof fn lemma_decimal_digits_are_digits(s: Seq<char>)
    ensures
        decimal_digits(s) matches Some((d, f)) ==> all_digits(d),
{
    if let Some((d, f)) = decimal_digits(s) {
        if let Some(i) = point_index(s) {
            let whole = s.take(i);
            let fraction = s.skip(i + 1);
            assert forall|k: int| 0 <= k < d.len() implies crate::text::is_ascii_digit(
                #[trigger] d[k],
            ) by {
                if k < whole.len() {
                    assert(d[k] == whole[k]);
                } else {
                    assert(d[k] == fraction[k - whole.len()]);
                }
            }
        }
    }
}

/// `10^(a + b) == 10^a * 10^b`.
pub proof fn lemma_pow10_add(a: nat, b: nat)
    ensures
        pow10(a + b) == pow10(a) * pow10(b),
    decreases b,
{
    if b > 0 {
        lemma_pow10_add(a, (b - 1) as nat);
        assert(pow10(a + b) == 10 * pow10((a + b - 1) as nat));
        let x = pow10(a);
        let y = pow10((b - 1) as nat);
        assert(pow10(b) == 10 * y);
        assert(10 * (x * y) == x * (10 * y)) by (nonlinear_arith);
    } else {
        assert(pow10(0) == 1);
        assert(a + b == a);
    }
}

/// Whether every character of `s` is a digit or a point.
pub open spec fn digits_and_points(s: Seq<char>) -> bool {
    forall|i: int| 0 <= i < s.len() ==> is_ascii_digit(#[trigger] s[i]) || s[i] == '.'
}

proof fn lemma_number_len_prefix(a: Seq<char>, b: Seq<char>)
    requires
        digits_and_points(a),
    ensures
        number_len(a + b) == a.len() + number_len(b),
    decreases a.len(),
{
    if a.len() > 0 {
        assert((a + b)[0] == a[0]);
        assert((a + b).drop_first() =~= a.drop_first() + b);
        lemma_number_len_prefix(a.drop_first(), b);
    } else {
        assert(a + b =~= b);
    }
}

proof fn lemma_without_commas_none(s: Seq<char>)
    requires
        digits_and_points(s),
    ensures
        without_commas(s) == s,
    decreases s.len(),
{
    if s.len() > 0 {
        lemma_without_commas_none(s.drop_last());
        assert(s.drop_last().push(s.last()) =~= s);
    }
}

proof fn lemma_point_index_digits(w: Seq<char>, b: Seq<char>)
    requires
        all_digits(w),
    ensures
        point_index(w + b) == (match point_index(b) {
            Some(i) => Some(i + w.len()),
            None => None::<int>,
        }),
    decreases w.len(),
{
    if w.len() > 0 {
        assert((w + b)[0] == w[0]);
        assert((w + b).drop_first() =~= w.drop_first() + b);
        lemma_point_index_digits(w.drop_first(), b);
    } else {
        assert(w + b =~= b);
    }
}

/// The compact count of a number followed by the rest of the text: the
/// number's digits, scaled by the first letter of the rest.
proof fn lemma_compact_count_parts(num: Seq<char>, rest: Seq<char>)
    requires
        num.len() > 0,
        digits_and_points(num),
        rest.len() == 0 || !is_count_char(rest[0]),
        !crate::text::is_white_space((num + rest)[0]),
        !crate::text::is_white_space((num + rest).last()),
    ensures
        compact_count(num + rest) == (match decimal_digits(num) {
            Some((digits, fraction)) => Some((digits, fraction, suffix_exponent(first_letter(rest)))),
            None => None::<(Seq<char>, nat, nat)>,
        }),
{
    let text = num + rest;
    assert(crate::text::trim_start(text) == text);
    assert(crate::text::trim_end(text) == text);
    assert(crate::text::trim(text) == text);
    lemma_number_len_prefix(num, rest);
    assert(number_len(rest) == 0);
    assert(text.take(num.len() as int) =~= num);
    assert(text.skip(num.len() as int) =~= rest);
    lemma_without_commas_none(num);
}

/// The multiplier a suffix letter stands for: thousands for K, millions for
/// M, billions for B, in either case; any other letter scales by one.
pub open spec fn letter_multiplier(letter: char) -> nat {
    if letter == 'K' || letter == 'k' {
        1_000
    } else if letter == 'M' || letter == 'm' {
        1_000_000
    } else if letter == 'B' || letter == 'b' {
        1_000_000_000
    } else {
        1
    }
}

proof fn lemma_letter_scale(letter: char, tail: Seq<char>)
    requires
        is_ascii_alphabetic(letter),
    ensures
        pow10(suffix_exponent(first_letter(seq![letter] + tail))) == letter_multiplier(letter),
{
    assert((seq![letter] + tail)[0] == letter);
    assert(pow10(0) == 1);
    assert(pow10(1) == 10);
    assert(pow10(2) == 100);
    assert(pow10(3) == 1_000);
    assert(pow10(4) == 10_000);
    assert(pow10(5) == 100_000);
    assert(pow10(6) == 1_000_000);
    assert(pow10(7) == 10_000_000);
    assert(pow10(8) == 100_000_000);
    assert(pow10(9) == 1_000_000_000);
}

/// A count written `whole.fraction` and then a letter, as in "1.5K
/// subscribers", is worth the decimal number it writes times the letter's
/// multiplier: scaled up by `10^(digits after the point)` to stay whole,
/// `digits × 10^scale == (whole × 10^|fraction| + fraction) × multiplier`.
pub proof fn law_pointed_count_value(whole: Seq<char>, fraction: Seq<char>, letter: char, tail: Seq<char>)
    requires
        all_digits(whole),
        all_digits(fraction),
        whole.len() + fraction.len() > 0,
        is_ascii_alphabetic(letter),
        tail.len() == 0 || !crate::text::is_white_space(tail.last()),
    ensures
        compact_count(whole + seq!['.'] + fraction + seq![letter] + tail) matches Some(c) && c.1
            == fraction.len() && digits_value(c.0) * pow10(c.2) == (digits_value(whole) * pow10(
            fraction.len(),
        ) + digits_value(fraction)) * letter_multiplier(letter),
{
    let num = whole + seq!['.'] + fraction;
    let rest = seq![letter] + tail;
    assert(whole + seq!['.'] + fraction + seq![letter] + tail =~= num + rest);
    assert(digits_and_points(num)) by {
        assert forall|i: int| 0 <= i < num.len() implies is_ascii_digit(#[trigger] num[i]) || num[i] == '.' by {
            if i < whole.len() {
                assert(num[i] == whole[i]);
            } else if i > whole.len() {
                assert(num[i] == fraction[i - whole.len() - 1]);
            }
        }
    }
    assert(rest[0] == letter);
    let text = num + rest;
    if whole.len() > 0 {
        assert(text[0] == whole[0]);
    } else {
        assert(text[0] == '.');
    }
    if tail.len() > 0 {
        assert(text.last() == tail.last());
    } else {
        assert(text.last() == letter);
    }
    lemma_compact_count_parts(num, rest);
    lemma_point_index_digits(whole, seq!['.'] + fraction);
    assert(num =~= whole + (seq!['.'] + fraction));
    assert(point_index(seq!['.'] + fraction) == Some(0int));
    assert(point_index(num) == Some(whole.len() as int));
    assert(num.take(whole.len() as int) =~= whole);
    assert(num.skip(whole.len() as int + 1) =~= fraction);
    assert(decimal_digits(num) == Some((whole + fraction, fraction.len())));
    lemma_digits_split(whole, fraction);
    lemma_letter_scale(letter, tail);
}

/// A count written as whole digits and then a letter, as in "528
/// subscribers" or "21M", is worth the number times the letter's
/// multiplier.
pub proof fn law_whole_count_value(whole: Seq<char>, letter: char, tail: Seq<char>)
    requires
        all_digits(whole),
        whole.len() > 0,
        is_ascii_alphabetic(letter),
        tail.len() == 0 || !crate::text::is_white_space(tail.last()),
    ensures
        compact_count(whole + seq![letter] + tail) matches Some(c) && c.1 == 0 && digits_value(c.0)
            * pow10(c.2) == digits_value(whole) * letter_multiplier(letter),
{
    let rest = seq![letter] + tail;
    assert(whole + seq![letter] + tail =~= whole + rest);
    assert(digits_and_points(whole));
    assert(rest[0] == letter);
    let text = whole + rest;
    assert(text[0] == whole[0]);
    if tail.len() > 0 {
        assert(text.last() == tail.last());
    } else {
        assert(text.last() == letter);
    }
    lemma_compact_count_parts(whole, rest);
    lemma_point_index_digits(whole, Seq::<char>::empty());
    assert(whole + Seq::<char>::empty() =~= whole);
    assert(decimal_digits(whole) == Some((whole, 0nat)));
    lemma_letter_scale(letter, tail);
}

/// One count is larger than another exactly when the number it stands for
/// is: `count_greater` compares `digits × 10^scale / 10^fraction` of the
/// two, cross-multiplied to stay in whole numbers.
pub proof fn law_count_greater_compares_values(a: (Seq<char>, nat, nat), b: (Seq<char>, nat, nat))
    ensures
        count_greater(a, b) <==> digits_value(a.0) * pow10(a.2) * pow10(b.1) > digits_value(b.0)
            * pow10(b.2) * pow10(a.1),
{
    lemma_pow10_add(a.2, b.1);
    lemma_pow10_add(b.2, a.1);
    let (x, y) = (digits_value(a.0) as int, digits_value(b.0) as int);
    assert(x * (pow10(a.2) * pow10(b.1)) == x * pow10(a.2) * pow10(b.1)) by (nonlinear_arith);
    assert(y * (pow10(b.2) * pow10(a.1)) == y * pow10(b.2) * pow10(a.1)) by (nonlinear_arith);
}

} // verus!
