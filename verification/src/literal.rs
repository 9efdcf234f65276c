//! The literal grammars by which a stored or supplied value is judged:
//! decimal integers, real numbers and boolean tokens.

use vstd::prelude::*;
use vstd::string::*;
use crate::text::{chars_of, same_ignoring_case, str_eq, tail_matches_ignoring_case};

verus! {

/// `c` is one of `0` to `9`.
pub open spec fn is_digit(c: char) -> bool {
    '0' <= c && c <= '9'
}

/// `c` is `+` or `-`.
pub open spec fn is_sign(c: char) -> bool {
    c == '+' || c == '-'
}

/// Every character of `s` is a decimal digit.
pub open spec fn all_digits(s: Seq<char>) -> bool {
    forall|i: int| 0 <= i < s.len() ==> is_digit(#[trigger] s[i])
}

/// The number that the decimal digits `s` spell; 0 for the empty sequence.
pub open spec fn digits_value(s: Seq<char>) -> int
    decreases s.len(),
{
    if s.len() == 0 {
        0
    } else {
        digits_value(s.drop_last()) * 10 + (s.last() as int - '0' as int)
    }
}

/// The number that `s` spells as a decimal integer: an optional sign, then
/// one or more digits and nothing else.
pub open spec fn int_literal(s: Seq<char>) -> Option<int> {
    let signed = s.len() > 0 && is_sign(s[0]);
    let digits = if signed { s.skip(1) } else { s };
    if digits.len() > 0 && all_digits(digits) {
        if signed && s[0] == '-' {
            Some(-digits_value(digits))
        } else {
            Some(digits_value(digits))
        }
    } else {
        None
    }
}

/// The 32-bit integer that `s` spells, if it spells one.
pub open spec fn i32_literal(s: Seq<char>) -> Option<i32> {
    match int_literal(s) {
        Some(v) => if i32::MIN <= v <= i32::MAX { Some(v as i32) } else { None },
        None => None,
    }
}

/// A run of digits spells no negative number.
pub proof fn lemma_digits_value_nonnegative(s: Seq<char>)
    requires
        all_digits(s),
    ensures
        digits_value(s) >= 0,
    decreases s.len(),
{
    if s.len() > 0 {
        lemma_digits_value_nonnegative(s.drop_last());
    }
}

/// Reads `s` as a 32-bit decimal integer.
pub fn parse_i32(s: &str) -> (r: Option<i32>)
    ensures
        r == i32_literal(s@),
{
    let v = chars_of(s);
    let n = v.len();
    if n == 0 {
        return None;
    }
    let signed = v[0] == '+' || v[0] == '-';
    let negative = v[0] == '-';
    let start: usize = if signed { 1 } else { 0 };
    let ghost digits = if signed { v@.skip(1) } else { v@ };
    if start == n {
        return None;
    }
    let mut acc: i64 = 0;
    let mut overflow = false;
    let mut i: usize = start;
    while i < n
        invariant
            start <= i <= n,
            n == v@.len(),
            v@ == s@,
            signed == (v@.len() > 0 && is_sign(v@[0])),
            digits == (if signed { v@.skip(1) } else { v@ }),
            digits.len() == n - start,
            forall|k: int| 0 <= k < digits.len() ==> digits[k] == v@[k + start],
            all_digits(digits.take(i - start)),
            !overflow ==> acc == digits_value(digits.take(i - start)),
            !overflow ==> 0 <= acc <= 2147483648,
            overflow ==> digits_value(digits.take(i - start)) > 2147483648,
        decreases n - i,
    {
        let c = v[i];
        if !(c >= '0' && c <= '9') {
            assert(!is_digit(digits[i - start]));
            return None;
        }
        let d: i64 = (c as u32 - '0' as u32) as i64;
        proof {
            let next = digits.take(i - start + 1);
            assert(next.drop_last() =~= digits.take(i - start));
            assert(next.last() == c);
            assert forall|k: int| 0 <= k < next.len() implies is_digit(#[trigger] next[k]) by {
                if k < i - start {
                    assert(next[k] == digits.take(i - start)[k]);
                }
            }
            lemma_digits_value_nonnegative(digits.take(i - start));
        }
        if !overflow {
            acc = acc * 10 + d;
            if acc > 2147483648 {
                overflow = true;
            }
        }
        i += 1;
    }
    proof {
        assert(digits.take(n - start) =~= digits);
    }
    if overflow {
        return None;
    }
    if negative {
        Some((-acc) as i32)
    } else if acc == 2147483648 {
        None
    } else {
        Some(acc as i32)
    }
}

/// The truth value that `s` names: `1` and `true` stand for true, `0` and
/// `false` for false, the words in any mix of upper and lower case.
pub open spec fn bool_token(s: Seq<char>) -> Option<bool> {
    if s == "1"@ || same_ignoring_case(s, "true"@) {
        Some(true)
    } else if s == "0"@ || same_ignoring_case(s, "false"@) {
        Some(false)
    } else {
        None
    }
}

/// Reads `s` as a boolean token.
pub fn parse_bool(s: &str) -> (r: Option<bool>)
    ensures
        r == bool_token(s@),
{
    let v = chars_of(s);
    assert(v@.skip(0) =~= v@);
    if str_eq(s, "1") || tail_matches_ignoring_case(&v, 0, "true") {
        Some(true)
    } else if str_eq(s, "0") || tail_matches_ignoring_case(&v, 0, "false") {
        Some(false)
    } else {
        None
    }
}

/// `s` is the digits of a real number before any exponent: digits with at
/// most one point among them, and at least one digit.
pub open spec fn is_mantissa(s: Seq<char>) -> bool {
    ||| (s.len() >= 1 && all_digits(s))
    ||| exists|k: int|
        0 <= k < s.len() && s.len() >= 2 && (#[trigger] s[k]) == '.' && all_digits(s.take(k))
            && all_digits(s.skip(k + 1))
}

/// `s` is an exponent: the letter `e` in either case, an optional sign, and
/// one or more digits.
pub open spec fn is_exponent(s: Seq<char>) -> bool {
    &&& s.len() >= 2
    &&& (s[0] == 'e' || s[0] == 'E')
    &&& {
        let digits = if is_sign(s[1]) { s.skip(2) } else { s.skip(1) };
        digits.len() >= 1 && all_digits(digits)
    }
}

/// `s` is an unsigned decimal number: a mantissa, then an optional exponent.
pub open spec fn is_number(s: Seq<char>) -> bool {
    exists|k: int|
        0 <= k <= s.len() && is_mantissa(#[trigger] s.take(k)) && (k == s.len() || is_exponent(
            s.skip(k),
        ))
}

/// `s` names infinity or not-a-number, in any mix of upper and lower case.
pub open spec fn is_special_real(s: Seq<char>) -> bool {
    ||| same_ignoring_case(s, "inf"@)
    ||| same_ignoring_case(s, "infinity"@)
    ||| same_ignoring_case(s, "nan"@)
}

/// `s` is a real-number literal: an optional sign, then a decimal number
/// or one of the special names.
pub open spec fn is_real_literal(s: Seq<char>) -> bool {
    let body = if s.len() > 0 && is_sign(s[0]) { s.skip(1) } else { s };
    is_special_real(body) || is_number(body)
}

/// The first position at or after `from` at which `s` holds no digit.
pub open spec fn digits_end(s: Seq<char>, from: int) -> int
    decreases s.len() - from,
{
    if from < 0 || from >= s.len() || !is_digit(s[from]) {
        from
    } else {
        digits_end(s, from + 1)
    }
}

/// What `digits_end` returns closes the longest run of digits from `from`.
pub proof fn lemma_digits_end(s: Seq<char>, from: int)
    requires
        0 <= from <= s.len(),
    ensures
        from <= digits_end(s, from) <= s.len(),
        forall|i: int| from <= i < digits_end(s, from) ==> is_digit(#[trigger] s[i]),
        digits_end(s, from) < s.len() ==> !is_digit(s[digits_end(s, from)]),
    decreases s.len() - from,
{
    if from < s.len() && is_digit(s[from]) {
        lemma_digits_end(s, from + 1);
    }
}

/// A run of digits that starts at `from` and reaches up to `to` ends no
/// earlier than `to`.
pub proof fn lemma_digits_end_covers(s: Seq<char>, from: int, to: int)
    requires
        0 <= from <= to <= s.len(),
        forall|i: int| from <= i < to ==> is_digit(#[trigger] s[i]),
    ensures
        digits_end(s, from) >= to,
    decreases to - from,
{
    if from < to {
        assert(is_digit(s[from]));
        lemma_digits_end_covers(s, from + 1, to);
    } else {
        lemma_digits_end(s, from);
    }
}

/// Reading `s` from the left as an exponent that starts at `m` and fills
/// the rest of `s`.
pub open spec fn exponent_scan(s: Seq<char>, m: int) -> bool {
    &&& 0 <= m < s.len()
    &&& (s[m] == 'e' || s[m] == 'E')
    &&& {
        let c = if m + 1 < s.len() && is_sign(s[m + 1]) { m + 2 } else { m + 1 };
        c < s.len() && digits_end(s, c) == s.len()
    }
}

/// Reading `s` from the left as an unsigned decimal number.
pub open spec fn number_scan(s: Seq<char>) -> bool {
    let a = digits_end(s, 0);
    let dotted = a < s.len() && s[a] == '.';
    let m = if dotted { digits_end(s, a + 1) } else { a };
    &&& if dotted { m >= 2 } else { a >= 1 }
    &&& (m == s.len() || exponent_scan(s, m))
}

proof fn lemma_exponent_scan(s: Seq<char>, m: int)
    requires
        0 <= m < s.len(),
    ensures
        exponent_scan(s, m) <==> is_exponent(s.skip(m)),
{
    let t = s.skip(m);
    let c = if m + 1 < s.len() && is_sign(s[m + 1]) { m + 2 } else { m + 1 };
    if m + 1 < s.len() {
        assert(t[1] == s[m + 1]);
        let digits = if is_sign(t[1]) { t.skip(2) } else { t.skip(1) };
        assert(digits =~= s.skip(c));
        assert forall|i: int| 0 <= i < digits.len() implies digits[i] == s[c + i] by {}
        if c <= s.len() {
            lemma_digits_end(s, c);
        }
        if exponent_scan(s, m) {
            assert forall|i: int| 0 <= i < digits.len() implies is_digit(#[trigger] digits[i]) by {
                assert(digits[i] == s[c + i]);
            }
        }
        if is_exponent(t) {
            assert forall|i: int| c <= i < s.len() implies is_digit(#[trigger] s[i]) by {
                assert(digits[i - c] == s[i]);
            }
            lemma_digits_end_covers(s, c, s.len() as int);
        }
    }
}

/// The left-to-right reading accepts exactly the unsigned decimal numbers.
pub proof fn lemma_number_scan(s: Seq<char>)
    ensures
        number_scan(s) <==> is_number(s),
{
    let a = digits_end(s, 0);
    lemma_digits_end(s, 0);
    let dotted = a < s.len() && s[a] == '.';
    let m = if dotted { digits_end(s, a + 1) } else { a };
    if dotted {
        lemma_digits_end(s, a + 1);
    }
    if m < s.len() {
        lemma_exponent_scan(s, m);
    }
    if number_scan(s) {
        let t = s.take(m);
        if dotted {
            assert(t[a] == '.');
            assert(all_digits(t.take(a))) by {
                assert forall|i: int| 0 <= i < t.take(a).len() implies is_digit(
                    #[trigger] t.take(a)[i],
                ) by {
                    assert(t.take(a)[i] == s[i]);
                }
            }
            assert(all_digits(t.skip(a + 1))) by {
                assert forall|i: int| 0 <= i < t.skip(a + 1).len() implies is_digit(
                    #[trigger] t.skip(a + 1)[i],
                ) by {
                    assert(t.skip(a + 1)[i] == s[a + 1 + i]);
                }
            }
            assert(is_mantissa(t));
        } else {
            assert(all_digits(t)) by {
                assert forall|i: int| 0 <= i < t.len() implies is_digit(#[trigger] t[i]) by {
                    assert(t[i] == s[i]);
                }
            }
            assert(is_mantissa(t));
        }
        assert(is_number(s));
    }
    if is_number(s) {
        let k = choose|k: int|
            0 <= k <= s.len() && is_mantissa(#[trigger] s.take(k)) && (k == s.len()
                || is_exponent(s.skip(k)));
        let t = s.take(k);
        assert forall|i: int| 0 <= i < k implies t[i] == s[i] by {}
        if k < s.len() {
            assert(s.skip(k)[0] == s[k]);
            assert(!is_digit(s[k]) && s[k] != '.');
        }
        if t.len() >= 1 && all_digits(t) {
            assert forall|i: int| 0 <= i < k implies is_digit(#[trigger] s[i]) by {
                assert(t[i] == s[i]);
            }
            lemma_digits_end_covers(s, 0, k);
            if a > k {
                assert(is_digit(s[k]));
            }
            assert(a == k);
            assert(!dotted);
            assert(number_scan(s));
        } else {
            let j = choose|j: int|
                0 <= j < t.len() && t.len() >= 2 && (#[trigger] t[j]) == '.' && all_digits(
                    t.take(j),
                ) && all_digits(t.skip(j + 1));
            assert(s[j] == '.');
            assert forall|i: int| 0 <= i < j implies is_digit(#[trigger] s[i]) by {
                assert(t.take(j)[i] == s[i]);
            }
            lemma_digits_end_covers(s, 0, j);
            assert(a == j);
            assert(dotted);
            assert forall|i: int| j + 1 <= i < k implies is_digit(#[trigger] s[i]) by {
                assert(t.skip(j + 1)[i - j - 1] == s[i]);
            }
            lemma_digits_end_covers(s, j + 1, k);
            if m > k {
                assert(is_digit(s[k]));
            }
            assert(m == k);
            assert(number_scan(s));
        }
    }
}

/// The position at which the run of digits that starts at `from` ends.
fn scan_digits(v: &Vec<char>, from: usize) -> (r: usize)
    requires
        from <= v.len(),
    ensures
        r == digits_end(v@, from as int),
        from <= r <= v.len(),
{
    let mut i: usize = from;
    while i < v.len() && v[i] >= '0' && v[i] <= '9'
        invariant
            from <= i <= v.len(),
            digits_end(v@, from as int) == digits_end(v@, i as int),
        decreases v.len() - i,
    {
        i += 1;
    }
    i
}

/// Whether `s` is a real-number literal.
pub fn is_real(s: &str) -> (r: bool)
    ensures
        r == is_real_literal(s@),
{
    let whole = chars_of(s);
    let signed = whole.len() > 0 && (whole[0] == '+' || whole[0] == '-');
    let start: usize = if signed { 1 } else { 0 };
    let ghost body = whole@.skip(start as int);
    assert(whole@.skip(0) =~= whole@);
    if tail_matches_ignoring_case(&whole, start, "inf") || tail_matches_ignoring_case(
        &whole,
        start,
        "infinity",
    ) || tail_matches_ignoring_case(&whole, start, "nan") {
        return true;
    }
    proof {
        lemma_number_scan(body);
    }
    let mut v: Vec<char> = Vec::new();
    let mut i: usize = start;
    while i < whole.len()
        invariant
            start <= i <= whole.len(),
            v@ == whole@.subrange(start as int, i as int),
        decreases whole.len() - i,
    {
        v.push(whole[i]);
        assert(v@ =~= whole@.subrange(start as int, i + 1));
        i += 1;
    }
    assert(v@ =~= body);
    let n = v.len();
    let a = scan_digits(&v, 0);
    let dotted = a < n && v[a] == '.';
    let m = if dotted { scan_digits(&v, a + 1) } else { a };
    let mantissa = if dotted { m >= 2 } else { a >= 1 };
    if !mantissa {
        return false;
    }
    if m == n {
        return true;
    }
    if !(v[m] == 'e' || v[m] == 'E') {
        return false;
    }
    let c = if m + 1 < n && (v[m + 1] == '+' || v[m + 1] == '-') { m + 2 } else { m + 1 };
    if c >= n {
        return false;
    }
    scan_digits(&v, c) == n
}

/// The character of the decimal digit `d`.
pub open spec fn digit_char(d: int) -> char {
    (d + '0' as int) as char
}

/// The digits that spell the natural number `n`, without leading zeros.
pub open spec fn nat_text(n: int) -> Seq<char>
    decreases n,
{
    if n < 10 {
        seq![digit_char(n)]
    } else {
        nat_text(n / 10).push(digit_char(n % 10))
    }
}

/// The text that spells the integer `n` in decimal: a minus sign where it
/// is negative, then its digits.
pub open spec fn decimal_text(n: int) -> Seq<char> {
    if n < 0 {
        seq!['-'] + nat_text(-n)
    } else {
        nat_text(n)
    }
}

/// The one-character text of the decimal digit `d`.
fn digit_text(d: u8) -> (r: &'static str)
    requires
        d < 10,
    ensures
        r@ == seq![digit_char(d as int)],
{
    proof {
        reveal_strlit("0");
        reveal_strlit("1");
        reveal_strlit("2");
        reveal_strlit("3");
        reveal_strlit("4");
        reveal_strlit("5");
        reveal_strlit("6");
        reveal_strlit("7");
        reveal_strlit("8");
        reveal_strlit("9");
    }
    let r = match d {
        0 => "0",
        1 => "1",
        2 => "2",
        3 => "3",
        4 => "4",
        5 => "5",
        6 => "6",
        7 => "7",
        8 => "8",
        _ => "9",
    };
    assert(r@ =~= seq![digit_char(d as int)]);
    r
}

/// Writes `v` in decimal.
pub fn format_i64(v: i64) -> (r: String)
    ensures
        r@ == decimal_text(v as int),
{
    let negative = v < 0;
    let magnitude: u64 = if negative { (-(v as i128)) as u64 } else { v as u64 };
    let mut low: Vec<u8> = Vec::new();
    let mut m: u64 = magnitude;
    let ghost mut tail: Seq<char> = Seq::empty();
    assert(nat_text(magnitude as int) =~= nat_text(m as int) + tail);
    while m >= 10
        invariant
            nat_text(magnitude as int) == nat_text(m as int) + tail,
            tail.len() == low@.len(),
            forall|k: int| 0 <= k < low@.len() ==> low@[k] < 10,
            forall|k: int|
                0 <= k < low@.len() ==> tail[k] == digit_char(low@[low@.len() - 1 - k] as int),
        decreases m,
    {
        let d = (m % 10) as u8;
        proof {
            let next = seq![digit_char(d as int)] + tail;
            assert(nat_text(m as int) == nat_text(m as int / 10).push(digit_char(d as int)));
            assert(nat_text(m as int) + tail =~= nat_text(m as int / 10) + next);
            tail = next;
        }
        low.push(d);
        m = m / 10;
    }
    let mut r = String::new();
    if negative {
        proof {
            reveal_strlit("-");
        }
        r.append("-");
        assert(r@ =~= seq!['-']);
    }
    let ghost sign = r@;
    r.append(digit_text(m as u8));
    assert(nat_text(m as int) =~= seq![digit_char(m as int)]);
    let mut i: usize = low.len();
    while i > 0
        invariant
            i <= low@.len(),
            tail.len() == low@.len(),
            forall|k: int| 0 <= k < low@.len() ==> low@[k] < 10,
            forall|k: int|
                0 <= k < low@.len() ==> tail[k] == digit_char(low@[low@.len() - 1 - k] as int),
            r@ == sign + nat_text(m as int) + tail.take(low@.len() - i),
        decreases i,
    {
        i -= 1;
        let ghost before = r@;
        r.append(digit_text(low[i]));
        assert(tail.take(low@.len() - i) =~= tail.take(low@.len() - i - 1).push(
            digit_char(low@[i as int] as int),
        ));
        assert(r@ =~= sign + nat_text(m as int) + tail.take(low@.len() - i));
    }
    assert(tail.take(low@.len() as int) =~= tail);
    assert(r@ =~= sign + (nat_text(m as int) + tail));
    r
}

} // verus!
