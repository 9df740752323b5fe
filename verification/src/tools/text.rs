//! Character-level helpers on text: whitespace, trimming, and decimal
//! numbers read from and written to text.

use vstd::prelude::*;
use vstd::std_specs::iter::IteratorSpec;

verus! {

broadcast use vstd::string::group_string_axioms;

/// `String::push` of the standard library appends one character to the end
/// of the string and leaves what was there in place.
pub assume_specification[ String::push ](s: &mut String, c: char)
    ensures
        final(s)@ == old(s)@.push(c),
;

/// The characters with the Unicode property `White_Space`.
pub open spec fn is_whitespace(c: char) -> bool {
    ||| '\u{9}' <= c <= '\u{D}'
    ||| c == ' '
    ||| c == '\u{85}'
    ||| c == '\u{A0}'
    ||| c == '\u{1680}'
    ||| '\u{2000}' <= c <= '\u{200A}'
    ||| c == '\u{2028}'
    ||| c == '\u{2029}'
    ||| c == '\u{202F}'
    ||| c == '\u{205F}'
    ||| c == '\u{3000}'
}

/// Whether `c` is a whitespace character.
pub fn char_is_whitespace(c: char) -> (b: bool)
    ensures
        b == is_whitespace(c),
{
    ('\u{9}' <= c && c <= '\u{D}') || c == ' ' || c == '\u{85}' || c == '\u{A0}' || c == '\u{1680}'
        || ('\u{2000}' <= c && c <= '\u{200A}') || c == '\u{2028}' || c == '\u{2029}' || c
        == '\u{202F}' || c == '\u{205F}' || c == '\u{3000}'
}

/// A text is blank when it holds nothing but whitespace; the empty text is blank.
pub open spec fn is_blank(s: Seq<char>) -> bool {
    forall|i: int| 0 <= i < s.len() ==> is_whitespace(#[trigger] s[i])
}

/// How many whitespace characters stand at the front of `s`.
pub open spec fn leading_whitespace(s: Seq<char>) -> nat
    decreases s.len(),
{
    if s.len() > 0 && is_whitespace(s.first()) {
        1 + leading_whitespace(s.drop_first())
    } else {
        0
    }
}

/// How many whitespace characters stand at the end of `s`.
pub open spec fn trailing_whitespace(s: Seq<char>) -> nat
    decreases s.len(),
{
    if s.len() > 0 && is_whitespace(s.last()) {
        1 + trailing_whitespace(s.drop_last())
    } else {
        0
    }
}

/// `s` without its leading whitespace.
pub open spec fn trimmed_start(s: Seq<char>) -> Seq<char> {
    s.skip(leading_whitespace(s) as int)
}

/// `s` without its trailing whitespace.
pub open spec fn trimmed_end(s: Seq<char>) -> Seq<char> {
    s.take(s.len() - trailing_whitespace(s))
}

/// `s` without leading and trailing whitespace.
pub open spec fn trimmed(s: Seq<char>) -> Seq<char> {
    trimmed_end(trimmed_start(s))
}

/// The leading whitespace of `s` is its longest prefix of whitespace
/// characters: `k` is that count as soon as the first `k` characters are
/// whitespace and the next one, if any, is not.
pub proof fn lemma_leading_whitespace(s: Seq<char>, k: int)
    requires
        0 <= k <= s.len(),
        forall|j: int| 0 <= j < k ==> is_whitespace(#[trigger] s[j]),
        k == s.len() || !is_whitespace(s[k]),
    ensures
        leading_whitespace(s) == k,
    decreases k,
{
    if k > 0 {
        let rest = s.drop_first();
        assert forall|j: int| 0 <= j < k - 1 implies is_whitespace(#[trigger] rest[j]) by {
            assert(rest[j] == s[j + 1]);
        }
        lemma_leading_whitespace(rest, k - 1);
    }
}

/// What `leading_whitespace` counts: a prefix of whitespace that ends at the
/// first visible character or at the end of the text.
pub proof fn lemma_leading_whitespace_is_prefix(s: Seq<char>)
    ensures
        leading_whitespace(s) <= s.len(),
        forall|j: int| 0 <= j < leading_whitespace(s) ==> is_whitespace(#[trigger] s[j]),
        leading_whitespace(s) == s.len() || !is_whitespace(s[leading_whitespace(s) as int]),
    decreases s.len(),
{
    if s.len() > 0 && is_whitespace(s.first()) {
        let rest = s.drop_first();
        lemma_leading_whitespace_is_prefix(rest);
        assert forall|j: int| 0 <= j < leading_whitespace(s) implies is_whitespace(
            #[trigger] s[j],
        ) by {
            if j > 0 {
                assert(s[j] == rest[j - 1]);
            }
        }
    }
}

/// What `trailing_whitespace` counts: a suffix of whitespace that begins
/// after the last visible character or at the start of the text.
pub proof fn lemma_trailing_whitespace_is_suffix(s: Seq<char>)
    ensures
        trailing_whitespace(s) <= s.len(),
        forall|j: int|
            s.len() - trailing_whitespace(s) <= j < s.len() ==> is_whitespace(#[trigger] s[j]),
        trailing_whitespace(s) == s.len() || !is_whitespace(
            s[s.len() - trailing_whitespace(s) - 1],
        ),
    decreases s.len(),
{
    if s.len() > 0 && is_whitespace(s.last()) {
        let rest = s.drop_last();
        lemma_trailing_whitespace_is_suffix(rest);
        assert forall|j: int|
            s.len() - trailing_whitespace(s) <= j < s.len() implies is_whitespace(
            #[trigger] s[j],
        ) by {
            if j < s.len() - 1 {
                assert(s[j] == rest[j]);
            }
        }
        if trailing_whitespace(s) < s.len() {
            assert(s[s.len() - trailing_whitespace(s) - 1] == rest[rest.len()
                - trailing_whitespace(rest) - 1]);
        }
    }
}

/// Counts the whitespace characters at the front of `s`.
pub fn leading_whitespace_len(s: &str) -> (k: usize)
    ensures
        k == leading_whitespace(s@),
        k <= s@.len(),
{
    let n: usize = s.unicode_len();
    let mut it = s.chars();
    let mut k: usize = 0;
    loop
        invariant
            n == s@.len(),
            k <= n,
            it.remaining() == s@.skip(k as int),
            forall|j: int| 0 <= j < k ==> is_whitespace(#[trigger] s@[j]),
        decreases n - k,
    {
        match it.next() {
            Some(c) => {
                if char_is_whitespace(c) {
                    k = k + 1;
                } else {
                    proof {
                        lemma_leading_whitespace(s@, k as int);
                    }
                    return k;
                }
            },
            None => {
                proof {
                    lemma_leading_whitespace(s@, k as int);
                }
                return k;
            },
        }
    }
}

/// Counts the whitespace characters at the end of `s`.
pub fn trailing_whitespace_len(s: &str) -> (k: usize)
    ensures
        k == trailing_whitespace(s@),
        k <= s@.len(),
{
    let n: usize = s.unicode_len();
    let mut it = s.chars();
    let mut i: usize = 0;
    let mut k: usize = 0;
    loop
        invariant
            n == s@.len(),
            i <= n,
            k <= i,
            it.remaining() == s@.skip(i as int),
            k == trailing_whitespace(s@.take(i as int)),
        decreases n - i,
    {
        match it.next() {
            Some(c) => {
                assert(s@.take(i + 1).drop_last() == s@.take(i as int));
                if char_is_whitespace(c) {
                    k = k + 1;
                } else {
                    k = 0;
                }
                i = i + 1;
            },
            None => {
                assert(s@.take(i as int) == s@);
                return k;
            },
        }
    }
}

/// Whether `s` holds nothing but whitespace.
pub fn str_is_blank(s: &str) -> (b: bool)
    ensures
        b == is_blank(s@),
{
    let n: usize = s.unicode_len();
    let k: usize = leading_whitespace_len(s);
    proof {
        lemma_leading_whitespace_is_prefix(s@);
    }
    k == n
}

/// Whether a line feed occurs in `s`.
pub fn has_line_feed(s: &str) -> (b: bool)
    ensures
        b == s@.contains('\n'),
{
    let n: usize = s.unicode_len();
    let mut it = s.chars();
    let mut i: usize = 0;
    loop
        invariant
            n == s@.len(),
            i <= n,
            it.remaining() == s@.skip(i as int),
            forall|j: int| 0 <= j < i ==> s@[j] != '\n',
        decreases n - i,
    {
        match it.next() {
            Some(c) => {
                if c == '\n' {
                    return true;
                }
                i = i + 1;
            },
            None => {
                return false;
            },
        }
    }
}

/// `s` without its leading whitespace.
pub fn trim_start(s: &str) -> (r: &str)
    ensures
        r@ == trimmed_start(s@),
{
    let n: usize = s.unicode_len();
    let k: usize = leading_whitespace_len(s);
    s.substring_char(k, n)
}

/// In a text that begins with a visible character, the trailing whitespace
/// ends before the end of that character's position.
proof fn lemma_trailing_whitespace_after_visible(s: Seq<char>, k: int)
    requires
        0 <= k < s.len(),
        !is_whitespace(s[k]),
    ensures
        trailing_whitespace(s.skip(k)) == trailing_whitespace(s),
        k + trailing_whitespace(s) < s.len(),
    decreases s.len(),
{
    if is_whitespace(s.last()) {
        assert(s.skip(k).drop_last() == s.drop_last().skip(k));
        lemma_trailing_whitespace_after_visible(s.drop_last(), k);
    }
}

/// `s` without leading and trailing whitespace.
pub fn trim(s: &str) -> (r: &str)
    ensures
        r@ == trimmed(s@),
{
    let n: usize = s.unicode_len();
    let k: usize = leading_whitespace_len(s);
    proof {
        lemma_leading_whitespace_is_prefix(s@);
    }
    if k == n {
        s.substring_char(n, n)
    } else {
        let t: usize = trailing_whitespace_len(s);
        proof {
            lemma_trailing_whitespace_after_visible(s@, k as int);
        }
        s.substring_char(k, n - t)
    }
}

/// The decimal digit that stands for `d`, for `d` below ten.
pub open spec fn digit(d: int) -> char {
    (d + 48) as char
}

/// The decimal digits of `n`, most significant first, without leading zeros.
pub open spec fn decimal_digits(n: nat) -> Seq<char>
    decreases n,
{
    if n < 10 {
        seq![digit(n as int)]
    } else {
        decimal_digits(n / 10).push(digit(n as int % 10))
    }
}

/// `n` written in decimal, with a minus sign in front of a negative number.
pub open spec fn decimal(n: int) -> Seq<char> {
    if n < 0 {
        seq!['-'] + decimal_digits((-n) as nat)
    } else {
        decimal_digits(n as nat)
    }
}

/// The character for one decimal digit.
fn digit_char(d: u64) -> (c: char)
    requires
        d < 10,
    ensures
        c == digit(d as int),
{
    if d == 0 {
        '0'
    } else if d == 1 {
        '1'
    } else if d == 2 {
        '2'
    } else if d == 3 {
        '3'
    } else if d == 4 {
        '4'
    } else if d == 5 {
        '5'
    } else if d == 6 {
        '6'
    } else if d == 7 {
        '7'
    } else if d == 8 {
        '8'
    } else {
        '9'
    }
}

/// Appends the decimal digits of `n` to `out`.
fn push_decimal_digits(out: &mut String, n: u64)
    ensures
        final(out)@ == old(out)@ + decimal_digits(n as nat),
    decreases n,
{
    if n >= 10 {
        push_decimal_digits(out, n / 10);
    }
    out.push(digit_char(n % 10));
}

/// Appends `n`, written in decimal, to `out`.
pub fn push_decimal(out: &mut String, n: i32)
    ensures
        final(out)@ == old(out)@ + decimal(n as int),
{
    if n < 0 {
        out.push('-');
        let magnitude: u64 = (-(n as i64)) as u64;
        push_decimal_digits(out, magnitude);
    } else {
        push_decimal_digits(out, n as u64);
    }
}

/// Whether `c` is one of the ten decimal digits.
pub open spec fn is_digit(c: char) -> bool {
    '0' <= c <= '9'
}

/// The number that a text of decimal digits stands for.
pub open spec fn digits_value(s: Seq<char>) -> int
    decreases s.len(),
{
    if s.len() == 0 {
        0
    } else {
        10 * digits_value(s.drop_last()) + (s.last() as int - 48)
    }
}

/// Whether `s` holds decimal digits only.
pub open spec fn all_digits(s: Seq<char>) -> bool {
    forall|i: int| 0 <= i < s.len() ==> is_digit(#[trigger] s[i])
}

/// The 32-bit integer that `s` denotes: an optional sign, then at least one
/// decimal digit and nothing else, with a value in range. Any other text
/// denotes none.
pub open spec fn parsed_i32(s: Seq<char>) -> Option<i32> {
    let signed = s.len() > 0 && (s[0] == '-' || s[0] == '+');
    let negative = s.len() > 0 && s[0] == '-';
    let digits = if signed {
        s.skip(1)
    } else {
        s
    };
    let value = if negative {
        -digits_value(digits)
    } else {
        digits_value(digits)
    };
    if digits.len() > 0 && all_digits(digits) && i32::MIN <= value <= i32::MAX {
        Some(value as i32)
    } else {
        None
    }
}

/// More digits never make the number smaller.
proof fn lemma_digits_value_grows(s: Seq<char>, i: int)
    requires
        0 <= i <= s.len(),
        all_digits(s),
    ensures
        0 <= digits_value(s.take(i)) <= digits_value(s),
    decreases s.len() - i,
{
    if i == s.len() {
        assert(s.take(i) == s);
        lemma_digits_value_nonnegative(s);
    } else {
        assert(s.take(i + 1).drop_last() == s.take(i));
        lemma_digits_value_nonnegative(s.take(i));
        lemma_digits_value_grows(s, i + 1);
    }
}

/// A text of digits stands for a number that is not negative.
proof fn lemma_digits_value_nonnegative(s: Seq<char>)
    requires
        all_digits(s),
    ensures
        0 <= digits_value(s),
    decreases s.len(),
{
    if s.len() > 0 {
        lemma_digits_value_nonnegative(s.drop_last());
    }
}

/// Reads `s` as a 32-bit integer in decimal.
pub fn parse_i32(s: &str) -> (r: Option<i32>)
    ensures
        r == parsed_i32(s@),
{
    let n: usize = s.unicode_len();
    if n == 0 {
        return None;
    }
    let first: char = s.get_char(0);
    let negative: bool = first == '-';
    let signed: bool = negative || first == '+';
    let digits: &str = if signed {
        s.substring_char(1, n)
    } else {
        s
    };
    let m: usize = digits.unicode_len();
    if m == 0 {
        return None;
    }
    let mut it = digits.chars();
    let mut i: usize = 0;
    let mut acc: u64 = 0;
    loop
        invariant
            s@.len() > 0,
            negative == (s@[0] == '-'),
            signed == (s@[0] == '-' || s@[0] == '+'),
            digits@ == if signed {
                s@.skip(1)
            } else {
                s@
            },
            0 < m == digits@.len(),
            i <= m,
            it.remaining() == digits@.skip(i as int),
            forall|j: int| 0 <= j < i ==> is_digit(#[trigger] digits@[j]),
            acc == digits_value(digits@.take(i as int)),
            acc <= 2147483648,
        decreases m - i,
    {
        match it.next() {
            Some(c) => {
                if !('0' <= c && c <= '9') {
                    return None;
                }
                assert(digits@.take(i + 1).drop_last() == digits@.take(i as int));
                let d: u64 = (c as u32 - '0' as u32) as u64;
                acc = acc * 10 + d;
                i = i + 1;
                if acc > 2147483648 {
                    proof {
                        if all_digits(digits@) {
                            lemma_digits_value_grows(digits@, i as int);
                        }
                    }
                    return None;
                }
            },
            None => {
                assert(digits@.take(i as int) == digits@);
                if negative {
                    return Some((-(acc as i64)) as i32);
                } else if acc <= 2147483647 {
                    return Some(acc as i32);
                } else {
                    return None;
                }
            },
        }
    }
}

/// The decimal digits of a number are digits, at least one, and stand for
/// the number.
proof fn lemma_decimal_digits_value(n: nat)
    ensures
        decimal_digits(n).len() > 0,
        all_digits(decimal_digits(n)),
        digits_value(decimal_digits(n)) == n,
    decreases n,
{
    let digits = decimal_digits(n);
    if n < 10 {
        assert(digits_value(digits.drop_last()) == 0);
    } else {
        let head = decimal_digits(n / 10);
        lemma_decimal_digits_value(n / 10);
        assert(digits.drop_last() == head);
        assert forall|i: int| 0 <= i < digits.len() implies is_digit(#[trigger] digits[i]) by {
            if i < head.len() {
                assert(digits[i] == head[i]);
            }
        }
    }
}

/// A number written in decimal reads back as the same number: what is
/// printed as an exit code is parsed as that exit code.
pub proof fn lemma_decimal_parses_back(n: i32)
    ensures
        parsed_i32(decimal(n as int)) == Some(n),
{
    if n < 0 {
        lemma_decimal_digits_value((-n) as nat);
        assert(decimal(n as int).skip(1) == decimal_digits((-n) as nat));
    } else {
        lemma_decimal_digits_value(n as nat);
    }
}

} // verus!
