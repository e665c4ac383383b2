//! Decimal text for integers and small text helpers.

use vstd::prelude::*;
use vstd::string::*;
use vstd::std_specs::iter::IteratorSpec;

verus! {

/// The character of the decimal digit `d`.
pub open spec fn digit_char(d: int) -> char {
    if d == 0 {
        '0'
    } else if d == 1 {
        '1'
    } else if d == 2 {
        '2'
    } else if d == 3 {
        '3'
    } else if d == 4 {
        '4'
    } else if d == 5 {
        '5'
    } else if d == 6 {
        '6'
    } else if d == 7 {
        '7'
    } else if d == 8 {
        '8'
    } else {
        '9'
    }
}

/// The decimal digits of `n`, most significant first, without leading zeros.
pub open spec fn decimal_nat(n: nat) -> Seq<char>
    decreases n,
{
    if n < 10 {
        seq![digit_char(n as int)]
    } else {
        decimal_nat(n / 10).push(digit_char((n % 10) as int))
    }
}

/// The decimal text of `n`: a minus sign before the digits of a negative
/// number, the digits alone otherwise.
pub open spec fn decimal(n: int) -> Seq<char> {
    if n < 0 {
        seq!['-'] + decimal_nat((-n) as nat)
    } else {
        decimal_nat(n as nat)
    }
}

/// The one-character text of a decimal digit.
fn digit_str(d: u8) -> (s: &'static str)
    requires
        d < 10,
    ensures
        s@ == seq![digit_char(d as int)],
{
    proof {
        reveal_strlit("0");
        reveal_strlit("1");
        reveal_strlit("2");
        reveal_strlit("3");
        reveal_strlit("4");
        reveal_strlit("5");
        reveal_strlit("6");
        reveal_strlit("7");
        reveal_strlit("8");
        reveal_strlit("9");
    }
    let s = if d == 0 {
        "0"
    } else if d == 1 {
        "1"
    } else if d == 2 {
        "2"
    } else if d == 3 {
        "3"
    } else if d == 4 {
        "4"
    } else if d == 5 {
        "5"
    } else if d == 6 {
        "6"
    } else if d == 7 {
        "7"
    } else if d == 8 {
        "8"
    } else {
        "9"
    };
    assert(s@ =~= seq![digit_char(d as int)]);
    s
}

/// Appends the decimal digits of `n` to `out`.
pub fn push_decimal(out: &mut String, n: u64)
    ensures
        final(out)@ == old(out)@ + decimal_nat(n as nat),
    decreases n,
{
    if n >= 10 {
        push_decimal(out, n / 10);
    }
    out.append(digit_str((n % 10) as u8));
    proof {
        if n >= 10 {
            assert(final(out)@ =~= old(out)@ + decimal_nat(n as nat));
        } else {
            assert(final(out)@ =~= old(out)@ + decimal_nat(n as nat));
        }
    }
}

/// The decimal text of an unsigned integer.
pub fn format_u64(n: u64) -> (s: String)
    ensures
        s@ == decimal(n as int),
{
    let mut s = String::new();
    push_decimal(&mut s, n);
    assert(s@ =~= decimal(n as int));
    s
}

/// The decimal text of a signed integer.
pub fn format_i64(n: i64) -> (s: String)
    ensures
        s@ == decimal(n as int),
{
    let mut s = String::new();
    if n < 0 {
        proof {
            reveal_strlit("-");
        }
        s.append("-");
        let magnitude: u64 = if n == i64::MIN {
            9_223_372_036_854_775_808u64
        } else {
            (-n) as u64
        };
        push_decimal(&mut s, magnitude);
        assert(s@ =~= decimal(n as int));
    } else {
        push_decimal(&mut s, n as u64);
        assert(s@ =~= decimal(n as int));
    }
    s
}

/// The characters of a text, in order.
pub fn chars_of(s: &str) -> (v: Vec<char>)
    ensures
        v@ == s@,
{
    let mut v: Vec<char> = Vec::new();
    for c in it: s.chars()
        invariant
            it.seq() == s@,
            v@ == it.seq().take(it.index() as int),
    {
        v.push(c);
        assert(v@ =~= it.seq().take(it.index() as int + 1));
    }
    assert(s@.take(s@.len() as int) =~= s@);
    v
}

/// `c` is white space: a blank, a tab, a line or page break, or one of the
/// other spacing characters.
pub open spec fn is_whitespace(c: char) -> bool {
    ||| c == ' '
    ||| '\u{9}' <= c <= '\u{d}'
    ||| c == '\u{85}'
    ||| c == '\u{a0}'
    ||| c == '\u{1680}'
    ||| '\u{2000}' <= c <= '\u{200a}'
    ||| c == '\u{2028}'
    ||| c == '\u{2029}'
    ||| c == '\u{202f}'
    ||| c == '\u{205f}'
    ||| c == '\u{3000}'
}

/// The position of the first character of `s` that is not white space, or
/// the length of `s` when there is none.
pub open spec fn trim_start_at(s: Seq<char>) -> int
    decreases s.len(),
{
    if s.len() == 0 || !is_whitespace(s[0]) {
        0
    } else {
        1 + trim_start_at(s.drop_first())
    }
}

/// The position behind the last character of `s` that is not white space,
/// or zero when there is none.
pub open spec fn trim_end_at(s: Seq<char>) -> int
    decreases s.len(),
{
    if s.len() == 0 || !is_whitespace(s.last()) {
        s.len() as int
    } else {
        trim_end_at(s.drop_last())
    }
}

/// `s` without the white space at its start and at its end.
pub open spec fn trimmed(s: Seq<char>) -> Seq<char> {
    if trim_start_at(s) >= trim_end_at(s) {
        Seq::empty()
    } else {
        s.subrange(trim_start_at(s), trim_end_at(s))
    }
}

/// What is cut off at either end is white space, and what is left neither
/// starts nor ends with white space.
pub proof fn lemma_trimmed(s: Seq<char>)
    ensures
        0 <= trim_start_at(s) <= s.len(),
        0 <= trim_end_at(s) <= s.len(),
        forall|i: int| 0 <= i < trim_start_at(s) ==> is_whitespace(s[i]),
        forall|i: int| trim_end_at(s) <= i < s.len() ==> is_whitespace(s[i]),
        trim_start_at(s) < s.len() ==> !is_whitespace(s[trim_start_at(s)]),
        trim_end_at(s) > 0 ==> !is_whitespace(s[trim_end_at(s) - 1]),
        trimmed(s).len() > 0 ==> !is_whitespace(trimmed(s).first()) && !is_whitespace(
            trimmed(s).last(),
        ),
    decreases s.len(),
{
    if s.len() > 0 {
        let tail = s.drop_first();
        let front = s.drop_last();
        lemma_trimmed(tail);
        lemma_trimmed(front);
        if is_whitespace(s[0]) {
            assert forall|i: int| 0 <= i < trim_start_at(s) implies is_whitespace(s[i]) by {
                if i > 0 {
                    assert(tail[i - 1] == s[i]);
                }
            }
            if trim_start_at(s) < s.len() {
                assert(tail[trim_start_at(tail)] == s[trim_start_at(s)]);
            }
        }
        if is_whitespace(s.last()) {
            assert forall|i: int| trim_end_at(s) <= i < s.len() implies is_whitespace(s[i]) by {
                if i < s.len() - 1 {
                    assert(front[i] == s[i]);
                }
            }
            if trim_end_at(s) > 0 {
                assert(front[trim_end_at(front) - 1] == s[trim_end_at(s) - 1]);
            }
        }
    }
}

/// Whether `c` is white space.
pub fn is_whitespace_char(c: char) -> (r: bool)
    ensures
        r == is_whitespace(c),
{
    c == ' ' || (c >= '\u{9}' && c <= '\u{d}') || c == '\u{85}' || c == '\u{a0}' || c
        == '\u{1680}' || (c >= '\u{2000}' && c <= '\u{200a}') || c == '\u{2028}' || c
        == '\u{2029}' || c == '\u{202f}' || c == '\u{205f}' || c == '\u{3000}'
}

/// The part of `s` between its leading and its trailing white space.
pub fn trim(s: &str) -> (r: &str)
    ensures
        r@ == trimmed(s@),
{
    let chars = chars_of(s);
    let n = chars.len();
    let mut start: usize = 0;
    proof {
        assert(chars@.skip(0) =~= chars@);
    }
    while start < n && is_whitespace_char(chars[start])
        invariant
            n == chars@.len(),
            start <= n,
            trim_start_at(chars@) == start + trim_start_at(chars@.skip(start as int)),
        decreases n - start,
    {
        proof {
            assert(chars@.skip(start as int).drop_first() =~= chars@.skip(start as int + 1));
        }
        start = start + 1;
    }
    let mut end: usize = n;
    proof {
        assert(chars@.skip(0) =~= chars@);
        assert(chars@.take(n as int) =~= chars@);
    }
    while end > 0 && is_whitespace_char(chars[end - 1])
        invariant
            n == chars@.len(),
            end <= n,
            trim_end_at(chars@) == trim_end_at(chars@.take(end as int)),
        decreases end,
    {
        proof {
            assert(chars@.take(end as int).drop_last() =~= chars@.take(end as int - 1));
        }
        end = end - 1;
    }
    proof {
        if start < n {
            assert(chars@.skip(start as int)[0] == chars@[start as int]);
        }
        if end > 0 {
            assert(chars@.take(end as int).last() == chars@[end as int - 1]);
        }
    }
    if start >= end {
        let empty = s.substring_char(0, 0);
        assert(empty@ =~= trimmed(s@));
        empty
    } else {
        s.substring_char(start, end)
    }
}

/// `c` is a decimal digit.
pub open spec fn is_digit(c: char) -> bool {
    '0' <= c <= '9'
}

/// The value of the decimal digits `digits`.
pub open spec fn digits_value(digits: Seq<char>) -> nat
    decreases digits.len(),
{
    if digits.len() == 0 {
        0
    } else {
        (digits_value(digits.drop_last()) * 10 + (digits.last() as u32 - '0' as u32)) as nat
    }
}

/// The digits of a number's text: the text without a leading sign.
pub open spec fn digits_part(s: Seq<char>) -> Seq<char> {
    if s.len() > 0 && (s[0] == '-' || s[0] == '+') {
        s.skip(1)
    } else {
        s
    }
}

/// The number that `s` is the text of: an optional sign followed by one or
/// more decimal digits, within the range of `i64`. Any other text is the
/// text of no number.
pub open spec fn spec_parse_i64(s: Seq<char>) -> Option<i64> {
    let digits = digits_part(s);
    let value = if s.len() > 0 && s[0] == '-' {
        -(digits_value(digits) as int)
    } else {
        digits_value(digits) as int
    };
    if digits.len() == 0 || !(forall|i: int| 0 <= i < digits.len() ==> is_digit(#[trigger] digits[i])) {
        None
    } else if i64::MIN <= value <= i64::MAX {
        Some(value as i64)
    } else {
        None
    }
}

/// The value of digits does not fall when more digits follow.
proof fn lemma_digits_value_grows(digits: Seq<char>, k: int)
    requires
        0 <= k <= digits.len(),
        forall|i: int| 0 <= i < digits.len() ==> is_digit(#[trigger] digits[i]),
    ensures
        digits_value(digits.take(k)) <= digits_value(digits),
    decreases digits.len() - k,
{
    if k < digits.len() {
        assert(digits.take(k + 1).drop_last() =~= digits.take(k));
        assert(is_digit(digits[k]));
        lemma_digits_value_grows(digits, k + 1);
    } else {
        assert(digits.take(k) =~= digits);
    }
}

/// The decimal digits of a number are digits, at least one, and their
/// value is the number.
pub proof fn lemma_decimal_nat_value(n: nat)
    ensures
        decimal_nat(n).len() >= 1,
        forall|i: int| 0 <= i < decimal_nat(n).len() ==> is_digit(#[trigger] decimal_nat(n)[i]),
        digits_value(decimal_nat(n)) == n,
        n > 0 ==> decimal_nat(n)[0] != '0',
    decreases n,
{
    if n < 10 {
        let one = seq![digit_char(n as int)];
        assert(one.drop_last() =~= Seq::<char>::empty());
        assert(digits_value(one.drop_last()) == 0);
    } else {
        lemma_decimal_nat_value(n / 10);
        let front = decimal_nat(n / 10);
        let all = front.push(digit_char((n % 10) as int));
        assert(all.drop_last() =~= front);
        assert forall|i: int| 0 <= i < all.len() implies is_digit(#[trigger] all[i]) by {
            if i < front.len() {
                assert(all[i] == front[i]);
            }
        }
        assert(all[0] == front[0]);
    }
}

/// Reading the decimal text of a number gives the number back.
pub proof fn lemma_parse_of_decimal(n: i64)
    ensures
        spec_parse_i64(decimal(n as int)) == Some(n),
{
    let text = decimal(n as int);
    if n < 0 {
        let digits = decimal_nat((-n) as nat);
        lemma_decimal_nat_value((-n) as nat);
        assert(text.skip(1) =~= digits);
        assert(text[0] == '-');
        assert(digits_part(text) == digits);
    } else {
        lemma_decimal_nat_value(n as nat);
        assert(text[0] != '-' && text[0] != '+');
        assert(digits_part(text) == text);
    }
}

/// Reads a number from its text.
pub fn parse_i64(s: &str) -> (r: Option<i64>)
    ensures
        r == spec_parse_i64(s@),
{
    let chars = chars_of(s);
    let n = chars.len();
    if n == 0 {
        return None;
    }
    let negative = chars[0] == '-';
    let first: usize = if chars[0] == '-' || chars[0] == '+' {
        1
    } else {
        0
    };
    let ghost digits = digits_part(s@);
    let limit: u64 = if negative {
        9_223_372_036_854_775_808u64
    } else {
        9_223_372_036_854_775_807u64
    };
    if first == n {
        return None;
    }
    let mut value: u64 = 0;
    let mut i: usize = first;
    proof {
        assert(digits.take(0) =~= Seq::<char>::empty());
    }
    while i < n
        invariant
            n == chars@.len(),
            chars@ == s@,
            digits == digits_part(s@),
            first <= i <= n,
            first <= 1,
            digits.len() == n - first,
            forall|j: int| 0 <= j < digits.len() ==> #[trigger] digits[j] == chars@[j + first],
            forall|j: int| 0 <= j < i - first ==> is_digit(#[trigger] digits[j]),
            value as nat == digits_value(digits.take(i - first)),
            value <= limit,
            9_223_372_036_854_775_807u64 <= limit <= 9_223_372_036_854_775_808u64,
            negative == (s@[0] == '-'),
            negative ==> limit == 9_223_372_036_854_775_808u64,
            !negative ==> limit == 9_223_372_036_854_775_807u64,
        decreases n - i,
    {
        let c = chars[i];
        proof {
            assert(digits[i - first] == c);
            assert(digits.take(i - first + 1).drop_last() =~= digits.take(i - first));
        }
        if !(c >= '0' && c <= '9') {
            return None;
        }
        let d: u64 = (c as u32 - 48) as u64;
        if value > (limit - d) / 10 {
            proof {
                assert(value * 10 + d > limit);
                assert(digits_value(digits.take(i - first + 1)) == value * 10 + d);
                if forall|j: int| 0 <= j < digits.len() ==> is_digit(#[trigger] digits[j]) {
                    lemma_digits_value_grows(digits, i - first + 1);
                }
            }
            return None;
        }
        value = value * 10 + d;
        i = i + 1;
    }
    proof {
        assert(digits.take(n - first) =~= digits);
    }
    if negative {
        if value == 9_223_372_036_854_775_808u64 {
            Some(i64::MIN)
        } else {
            Some(-(value as i64))
        }
    } else {
        Some(value as i64)
    }
}

/// The number that `text` is the text of, or zero when it is the text of
/// none.
pub open spec fn spec_number_or_zero(text: Seq<char>) -> i64 {
    match spec_parse_i64(text) {
        Some(n) => n,
        None => 0,
    }
}

/// Reads a number from its text, or zero.
pub fn number_or_zero(text: &str) -> (n: i64)
    ensures
        n == spec_number_or_zero(text@),
{
    match parse_i64(text) {
        Some(n) => n,
        None => 0,
    }
}

/// `needle` occurs in `hay` as a run of neighbouring characters.
pub open spec fn is_substring(hay: Seq<char>, needle: Seq<char>) -> bool {
    exists|at: int|
        0 <= at && at + needle.len() <= hay.len() && #[trigger] hay.subrange(
            at,
            at + needle.len(),
        ) == needle
}

/// Whether `needle` starts at position `at` of `hay`.
fn occurs_at(hay: &Vec<char>, needle: &Vec<char>, at: usize) -> (r: bool)
    requires
        at + needle@.len() <= hay@.len(),
    ensures
        r == (hay@.subrange(at as int, at + needle@.len()) == needle@),
{
    let mut j: usize = 0;
    while j < needle.len()
        invariant
            at + needle.len() <= hay.len(),
            j <= needle@.len(),
            forall|k: int| 0 <= k < j ==> hay@[at + k] == needle@[k],
        decreases needle.len() - j,
    {
        if hay[at + j] != needle[j] {
            assert(hay@.subrange(at as int, at + needle@.len())[j as int] != needle@[j as int]);
            return false;
        }
        j = j + 1;
    }
    assert(hay@.subrange(at as int, at + needle@.len()) =~= needle@);
    true
}

/// Whether `needle` occurs in `hay`.
pub fn contains_chars(hay: &Vec<char>, needle: &Vec<char>) -> (r: bool)
    ensures
        r == is_substring(hay@, needle@),
{
    if needle.len() > hay.len() {
        return false;
    }
    let last: usize = hay.len() - needle.len();
    let mut at: usize = 0;
    loop
        invariant
            last == hay@.len() - needle@.len(),
            at <= last,
            forall|k: int|
                0 <= k < at ==> #[trigger] hay@.subrange(k, k + needle@.len()) != needle@,
        decreases last - at,
    {
        if occurs_at(hay, needle, at) {
            return true;
        }
        if at == last {
            return false;
        }
        at = at + 1;
    }
}

/// Whether `needle` occurs in `hay`.
pub fn contains_text(hay: &str, needle: &str) -> (r: bool)
    ensures
        r == is_substring(hay@, needle@),
{
    let hay_chars = chars_of(hay);
    let needle_chars = chars_of(needle);
    contains_chars(&hay_chars, &needle_chars)
}

/// The lower-case form of a text.
pub uninterp spec fn lowercase(s: Seq<char>) -> Seq<char>;

/// Calls `str::to_lowercase`, which maps each character to its lower-case
/// form by the character tables alone; the result is named, not described.
#[verifier::external_body]
pub(crate) fn to_lowercase(s: &str) -> (r: String)
    ensures
        r@ == lowercase(s@),
{
    s.to_lowercase()
}

/// `a` stands before `b` in dictionary order by character code: at the
/// first position where they differ `a` has the smaller character, or `a`
/// ends there and `b` goes on.
pub open spec fn text_before(a: Seq<char>, b: Seq<char>) -> bool {
    exists|k: int| differs_less_at(a, b, k)
}

/// `a` and `b` agree before position `k`, where `a` ends or has the smaller
/// character.
pub open spec fn differs_less_at(a: Seq<char>, b: Seq<char>, k: int) -> bool {
    &&& 0 <= k <= a.len()
    &&& k < b.len()
    &&& a.take(k) == b.take(k)
    &&& (k == a.len() || a[k] < b[k])
}

/// Dictionary order is transitive.
pub proof fn lemma_text_before_transitive(a: Seq<char>, b: Seq<char>, c: Seq<char>)
    requires
        text_before(a, b),
        text_before(b, c),
    ensures
        text_before(a, c),
{
    let k1 = choose|k: int| differs_less_at(a, b, k);
    let k2 = choose|k: int| differs_less_at(b, c, k);
    let k = if k1 <= k2 {
        k1
    } else {
        k2
    };
    assert(a.take(k) =~= c.take(k)) by {
        assert forall|i: int| 0 <= i < k implies a[i] == c[i] by {
            assert(a.take(k1)[i] == b.take(k1)[i]);
            assert(b.take(k2)[i] == c.take(k2)[i]);
        }
    }
    if k1 < k2 {
        assert(b.take(k2)[k1] == c.take(k2)[k1]);
    } else if k2 < k1 {
        assert(a.take(k1)[k2] == b.take(k1)[k2]);
    }
    assert(differs_less_at(a, c, k));
}

/// No text stands before itself, and of two texts at most one stands
/// before the other.
pub proof fn lemma_text_before_asymmetric(a: Seq<char>, b: Seq<char>)
    requires
        text_before(a, b),
    ensures
        a != b,
        !text_before(b, a),
{
    let k1 = choose|k: int| differs_less_at(a, b, k);
    if a == b {
        assert(false);
    }
    if text_before(b, a) {
        let k2 = choose|k: int| differs_less_at(b, a, k);
        if k1 < k2 {
            assert(b.take(k2)[k1] == a.take(k2)[k1]);
        } else if k2 < k1 {
            assert(a.take(k1)[k2] == b.take(k1)[k2]);
        }
        assert(false);
    }
}

/// How two texts stand to each other in dictionary order.
#[derive(Debug, Clone, Copy, PartialEq, Eq)]
pub enum TextOrder {
    Before,
    Same,
    After,
}

/// Tells how `a` stands to `b` in dictionary order by character code.
pub fn order_chars(a: &Vec<char>, b: &Vec<char>) -> (r: TextOrder)
    ensures
        r == TextOrder::Before <==> text_before(a@, b@),
        r == TextOrder::Same <==> a@ == b@,
        r == TextOrder::After <==> text_before(b@, a@),
{
    let mut k: usize = 0;
    let mut result = TextOrder::Same;
    let mut decided = false;
    while !decided && k < a.len() && k < b.len()
        invariant
            k <= a@.len(),
            k <= b@.len(),
            a@.take(k as int) == b@.take(k as int),
            !decided ==> result == TextOrder::Same,
            decided ==> (result == TextOrder::Before && differs_less_at(a@, b@, k as int))
                || (result == TextOrder::After && differs_less_at(b@, a@, k as int)),
        decreases a.len() - k + if decided { 0int } else { 1int },
    {
        if a[k] < b[k] {
            result = TextOrder::Before;
            decided = true;
        } else if a[k] > b[k] {
            result = TextOrder::After;
            decided = true;
        } else {
            assert(a@.take(k as int + 1) =~= b@.take(k as int + 1)) by {
                assert forall|i: int| 0 <= i < k + 1 implies a@[i] == b@[i] by {
                    if i < k {
                        assert(a@.take(k as int)[i] == b@.take(k as int)[i]);
                    }
                }
            }
            k = k + 1;
        }
    }
    if !decided {
        if k < b.len() {
            result = TextOrder::Before;
            assert(differs_less_at(a@, b@, k as int));
        } else if k < a.len() {
            result = TextOrder::After;
            assert(differs_less_at(b@, a@, k as int));
        } else {
            assert(a@.take(k as int) =~= a@);
            assert(b@.take(k as int) =~= b@);
        }
    }
    proof {
        if text_before(a@, b@) {
            lemma_text_before_asymmetric(a@, b@);
        }
        if text_before(b@, a@) {
            lemma_text_before_asymmetric(b@, a@);
        }
    }
    result
}

/// Tells how `a` stands to `b` in dictionary order by character code.
pub fn order_text(a: &str, b: &str) -> (r: TextOrder)
    ensures
        r == TextOrder::Before <==> text_before(a@, b@),
        r == TextOrder::Same <==> a@ == b@,
        r == TextOrder::After <==> text_before(b@, a@),
{
    let a_chars = chars_of(a);
    let b_chars = chars_of(b);
    order_chars(&a_chars, &b_chars)
}

} // verus!
