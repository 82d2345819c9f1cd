//! Decimal text of integers: how a whole number is written out and read
//! back.

use vstd::prelude::*;
use vstd::string::*;

verus! {

/// The character of the digit `d`.
pub open spec fn digit_char(d: int) -> char {
    if d == 0 {
        '0'
    } else if d == 1 {
        '1'
    } else if d == 2 {
        '2'
    } else if d == 3 {
        '3'
    } else if d == 4 {
        '4'
    } else if d == 5 {
        '5'
    } else if d == 6 {
        '6'
    } else if d == 7 {
        '7'
    } else if d == 8 {
        '8'
    } else {
        '9'
    }
}

/// Whether `c` is one of the ten digits.
pub open spec fn is_digit(c: char) -> bool {
    '0' <= c <= '9'
}

/// The number that the digit `c` stands for.
pub open spec fn digit_value(c: char) -> int {
    c as int - '0' as int
}

/// The digits of `n`, most significant first, without leading zeros.
pub open spec fn spec_digits(n: nat) -> Seq<char>
    decreases n,
{
    if n < 10 {
        seq![digit_char(n as int)]
    } else {
        spec_digits(n / 10).push(digit_char((n % 10) as int))
    }
}

/// The decimal text of `v`: its digits, behind a minus sign where it is
/// negative.
pub open spec fn spec_decimal(v: int) -> Seq<char> {
    if v < 0 {
        seq!['-'] + spec_digits((-v) as nat)
    } else {
        spec_digits(v as nat)
    }
}

/// Whether every character of `s` is a digit.
pub open spec fn all_digits(s: Seq<char>) -> bool {
    forall|i: int| 0 <= i < s.len() ==> is_digit(#[trigger] s[i])
}

/// The number that a run of digits stands for; leading zeros count for
/// nothing.
pub open spec fn digits_value(s: Seq<char>) -> nat
    decreases s.len(),
{
    if s.len() == 0 {
        0
    } else {
        (digits_value(s.drop_last()) * 10 + digit_value(s.last())) as nat
    }
}

/// The whole number that `s` is the decimal text of: an optional sign, then
/// at least one digit and nothing else. `None` for any other text.
pub open spec fn spec_parse_int(s: Seq<char>) -> Option<int> {
    if s.len() > 0 && s[0] == '-' {
        let body = s.subrange(1, s.len() as int);
        if body.len() > 0 && all_digits(body) {
            Some(-(digits_value(body) as int))
        } else {
            None
        }
    } else if s.len() > 0 && s[0] == '+' {
        let body = s.subrange(1, s.len() as int);
        if body.len() > 0 && all_digits(body) {
            Some(digits_value(body) as int)
        } else {
            None
        }
    } else if s.len() > 0 && all_digits(s) {
        Some(digits_value(s) as int)
    } else {
        None
    }
}

/// The 64-bit signed integer that `s` is the decimal text of, if it is one
/// and fits.
pub open spec fn spec_parse_i64(s: Seq<char>) -> Option<i64> {
    match spec_parse_int(s) {
        Some(v) => if i64::MIN <= v <= i64::MAX {
            Some(v as i64)
        } else {
            None
        },
        None => None,
    }
}

/// The digits of a number are digits, and stand for that number.
pub proof fn lemma_digits_round_trip(n: nat)
    ensures
        spec_digits(n).len() > 0,
        all_digits(spec_digits(n)),
        digits_value(spec_digits(n)) == n,
    decreases n,
{
    if n < 10 {
        let s = spec_digits(n);
        assert(s.drop_last() =~= Seq::<char>::empty());
        assert(digits_value(s.drop_last()) == 0);
        assert(digit_value(s.last()) == n);
    } else {
        lemma_digits_round_trip(n / 10);
        let head = spec_digits(n / 10);
        let s = spec_digits(n);
        assert(s.drop_last() =~= head);
        assert(digit_value(s.last()) == n % 10);
        assert forall|i: int| 0 <= i < s.len() implies is_digit(#[trigger] s[i]) by {
            if i < head.len() {
                assert(s[i] == head[i]);
            }
        }
    }
}

/// Reading the decimal text of a whole number gives the number back.
pub proof fn lemma_decimal_round_trip(v: int)
    ensures
        spec_parse_int(spec_decimal(v)) == Some(v),
{
    if v < 0 {
        let n = (-v) as nat;
        lemma_digits_round_trip(n);
        let s = spec_decimal(v);
        assert(s.subrange(1, s.len() as int) =~= spec_digits(n));
    } else {
        lemma_digits_round_trip(v as nat);
        let s = spec_decimal(v);
        assert(is_digit(s[0]));
    }
}

/// Reading the decimal text of a 64-bit integer gives the integer back.
pub proof fn lemma_i64_round_trip(v: i64)
    ensures
        spec_parse_i64(spec_decimal(v as int)) == Some(v),
{
    lemma_decimal_round_trip(v as int);
}

/// The text of one digit.
fn digit_text(d: u64) -> (text: &'static str)
    requires
        d < 10,
    ensures
        text@ == seq![digit_char(d as int)],
{
    proof {
        reveal_strlit("0");
        reveal_strlit("1");
        reveal_strlit("2");
        reveal_strlit("3");
        reveal_strlit("4");
        reveal_strlit("5");
        reveal_strlit("6");
        reveal_strlit("7");
        reveal_strlit("8");
        reveal_strlit("9");
    }
    let text = if d == 0 {
        "0"
    } else if d == 1 {
        "1"
    } else if d == 2 {
        "2"
    } else if d == 3 {
        "3"
    } else if d == 4 {
        "4"
    } else if d == 5 {
        "5"
    } else if d == 6 {
        "6"
    } else if d == 7 {
        "7"
    } else if d == 8 {
        "8"
    } else {
        "9"
    };
    assert(text@ =~= seq![digit_char(d as int)]);
    text
}

/// Writes `n` in decimal.
pub fn decimal_of_u64(n: u64) -> (text: String)
    ensures
        text@ == spec_digits(n as nat),
        text@ == spec_decimal(n as int),
    decreases n,
{
    if n < 10 {
        String::from_str(digit_text(n))
    } else {
        let mut text = decimal_of_u64(n / 10);
        text.append(digit_text(n % 10));
        assert(text@ =~= spec_digits((n / 10) as nat).push(digit_char((n % 10) as int)));
        text
    }
}

/// Writes `v` in decimal, with a minus sign where it is negative.
pub fn decimal_of_i64(v: i64) -> (text: String)
    ensures
        text@ == spec_decimal(v as int),
{
    if v >= 0 {
        decimal_of_u64(v as u64)
    } else {
        let magnitude: u64 = if v == i64::MIN {
            9223372036854775808u64
        } else {
            (-v) as u64
        };
        proof {
            reveal_strlit("-");
        }
        let mut text = String::from_str("-");
        let digits = decimal_of_u64(magnitude);
        text.append(digits.as_str());
        assert(text@ =~= seq!['-'] + spec_digits((-(v as int)) as nat));
        text
    }
}

/// A longer run of digits stands for no smaller a number.
proof fn lemma_value_grows(s: Seq<char>, k: int)
    requires
        0 <= k <= s.len(),
        all_digits(s),
    ensures
        digits_value(s.subrange(0, k)) <= digits_value(s),
    decreases s.len() - k,
{
    if k < s.len() {
        let longer = s.subrange(0, k + 1);
        assert(longer.drop_last() =~= s.subrange(0, k));
        assert(is_digit(s[k]));
        assert(longer.last() == s[k]);
        assert(digits_value(longer) == digits_value(s.subrange(0, k)) * 10 + digit_value(s[k]));
        lemma_value_grows(s, k + 1);
    } else {
        assert(s.subrange(0, k) =~= s);
    }
}

/// Reads the digits of `s` from `from` on. `None` where there is no digit,
/// where a character is not a digit, or where the number exceeds `limit`.
fn parse_digits(s: &Vec<char>, from: usize, limit: u64) -> (value: Option<u64>)
    requires
        from <= s.len(),
        9223372036854775807u64 <= limit <= 9223372036854775808u64,
    ensures
        ({
            let body = s@.subrange(from as int, s.len() as int);
            match value {
                Some(v) => body.len() > 0 && all_digits(body) && digits_value(body) == v && v
                    <= limit,
                None => !(body.len() > 0 && all_digits(body) && digits_value(body) <= limit),
            }
        }),
{
    let ghost body = s@.subrange(from as int, s.len() as int);
    if from == s.len() {
        return None;
    }
    let mut acc: u64 = 0;
    let mut i: usize = from;
    while i < s.len()
        invariant
            from <= i <= s.len(),
            9223372036854775807u64 <= limit <= 9223372036854775808u64,
            body == s@.subrange(from as int, s.len() as int),
            all_digits(body.subrange(0, i - from)),
            digits_value(body.subrange(0, i - from)) == acc,
            acc <= limit,
        decreases s.len() - i,
    {
        let c: char = s[i];
        let ghost prefix = body.subrange(0, i - from);
        let ghost longer = body.subrange(0, i - from + 1);
        assert(body[i - from] == c);
        assert(longer.drop_last() =~= prefix);
        assert(longer.last() == c);
        if !('0' <= c && c <= '9') {
            assert(!is_digit(body[i - from]));
            return None;
        }
        let d: u64 = (c as u64) - ('0' as u64);
        assert(d == digit_value(c));
        assert forall|j: int| 0 <= j < longer.len() implies is_digit(#[trigger] longer[j]) by {
            if j < prefix.len() {
                assert(longer[j] == prefix[j]);
            }
        }
        if acc > (limit - d) / 10 {
            proof {
                assert(acc * 10 + d > limit) by (nonlinear_arith)
                    requires
                        acc > (limit - d) / 10,
                        d <= limit,
                        0 <= d < 10,
                ;
                if all_digits(body) {
                    lemma_value_grows(body, i - from + 1);
                }
            }
            return None;
        }
        assert(acc * 10 + d <= limit) by (nonlinear_arith)
            requires
                acc <= (limit - d) / 10,
                d <= limit,
                0 <= d < 10,
        ;
        acc = acc * 10 + d;
        i = i + 1;
    }
    assert(body.subrange(0, i - from) =~= body);
    Some(acc)
}

/// Reads a 64-bit signed integer from its decimal text.
pub fn parse_i64(text: &str) -> (value: Option<i64>)
    ensures
        value == spec_parse_i64(text@),
{
    let chars = crate::text::chars_of(text);
    if chars.len() == 0 {
        return None;
    }
    let first: char = chars[0];
    if first == '-' {
        match parse_digits(&chars, 1, 9223372036854775808u64) {
            Some(v) => {
                if v == 9223372036854775808u64 {
                    Some(i64::MIN)
                } else {
                    Some(-(v as i64))
                }
            },
            None => None,
        }
    } else if first == '+' {
        match parse_digits(&chars, 1, 9223372036854775807u64) {
            Some(v) => Some(v as i64),
            None => None,
        }
    } else {
        assert(chars@.subrange(0, chars.len() as int) =~= chars@);
        match parse_digits(&chars, 0, 9223372036854775807u64) {
            Some(v) => Some(v as i64),
            None => None,
        }
    }
}

/// Index of the first character of `s` at or after `from` that is no
/// digit, or the length of `s`.
pub open spec fn spec_digits_end(s: Seq<char>, from: int) -> int
    decreases s.len() - from,
{
    if from < 0 || from >= s.len() {
        s.len() as int
    } else if !is_digit(s[from]) {
        from
    } else {
        spec_digits_end(s, from + 1)
    }
}

/// The run of digits that begins at `from` ends where [`spec_digits_end`]
/// says.
pub proof fn lemma_digits_end(s: Seq<char>, from: int)
    requires
        0 <= from <= s.len(),
    ensures
        from <= spec_digits_end(s, from) <= s.len(),
        forall|j: int| from <= j < spec_digits_end(s, from) ==> is_digit(#[trigger] s[j]),
        spec_digits_end(s, from) < s.len() ==> !is_digit(s[spec_digits_end(s, from)]),
    decreases s.len() - from,
{
    if from < s.len() && is_digit(s[from]) {
        lemma_digits_end(s, from + 1);
    }
}

/// A letter of ASCII in lower case, any other character as it is.
pub open spec fn spec_lower(c: char) -> char {
    if 'A' <= c <= 'Z' {
        ((c as u8) + 32) as char
    } else {
        c
    }
}

/// `s` with its ASCII letters in lower case.
pub open spec fn spec_lowered(s: Seq<char>) -> Seq<char> {
    Seq::new(s.len(), |i: int| spec_lower(s[i]))
}

/// Whether `c` is a sign.
pub open spec fn is_sign(c: char) -> bool {
    c == '+' || c == '-'
}

/// Whether the characters of `s` from `from` on are an exponent: the letter
/// `e` in either case, an optional sign, and at least one digit up to the
/// end.
pub open spec fn spec_is_exponent(s: Seq<char>, from: int) -> bool {
    &&& 0 <= from < s.len()
    &&& (s[from] == 'e' || s[from] == 'E')
    &&& {
        let digits = if from + 1 < s.len() && is_sign(s[from + 1]) {
            from + 2
        } else {
            from + 1
        };
        spec_digits_end(s, digits) > digits && spec_digits_end(s, digits) == s.len()
    }
}

/// Whether the characters of `s` from `from` on are a number without sign:
/// digits with at most one point among them and at least one digit in all,
/// and then nothing or an exponent.
pub open spec fn spec_is_unsigned_number(s: Seq<char>, from: int) -> bool {
    let whole_end = spec_digits_end(s, from);
    let fraction_from = if whole_end < s.len() && s[whole_end] == '.' {
        whole_end + 1
    } else {
        whole_end
    };
    let end = if fraction_from > whole_end {
        spec_digits_end(s, fraction_from)
    } else {
        whole_end
    };
    &&& (whole_end - from) + (end - fraction_from) > 0
    &&& (end == s.len() || spec_is_exponent(s, end))
}

/// Whether `s` is the decimal text of a number: an optional sign, and then
/// a number without sign or one of the words `inf`, `infinity` and `nan` in
/// any case.
pub open spec fn spec_is_number(s: Seq<char>) -> bool {
    let from: int = if s.len() > 0 && is_sign(s[0]) {
        1
    } else {
        0
    };
    let word = spec_lowered(s.subrange(from, s.len() as int));
    word == "inf"@ || word == "infinity"@ || word == "nan"@ || spec_is_unsigned_number(s, from)
}

/// Index of the first character at or after `from` that is no digit.
fn digits_end(s: &Vec<char>, from: usize) -> (end: usize)
    requires
        from <= s.len(),
    ensures
        end == spec_digits_end(s@, from as int),
        from <= end <= s.len(),
{
    proof {
        lemma_digits_end(s@, from as int);
    }
    let mut i: usize = from;
    while i < s.len()
        invariant
            from <= i <= s.len(),
            spec_digits_end(s@, from as int) == spec_digits_end(s@, i as int),
        decreases s.len() - i,
    {
        let c: char = s[i];
        if !('0' <= c && c <= '9') {
            return i;
        }
        i = i + 1;
    }
    i
}

/// Whether the characters from `from` on spell `word` in any case; `word`
/// is in lower case.
fn spells(s: &Vec<char>, from: usize, word: &Vec<char>) -> (same: bool)
    requires
        from <= s.len(),
    ensures
        same == (spec_lowered(s@.subrange(from as int, s.len() as int)) == word@),
{
    let rest: usize = s.len() - from;
    let ghost tail = spec_lowered(s@.subrange(from as int, s.len() as int));
    if rest != word.len() {
        return false;
    }
    let mut i: usize = 0;
    while i < rest
        invariant
            from <= s.len(),
            rest == s.len() - from,
            rest == word.len(),
            i <= rest,
            tail == spec_lowered(s@.subrange(from as int, s.len() as int)),
            forall|j: int| 0 <= j < i ==> tail[j] == word@[j],
        decreases rest - i,
    {
        let c: char = s[from + i];
        let lowered: char = if 'A' <= c && c <= 'Z' {
            ((c as u8) + 32) as char
        } else {
            c
        };
        assert(tail[i as int] == spec_lower(s@[from + i]));
        if lowered != word[i] {
            return false;
        }
        i = i + 1;
    }
    assert(tail =~= word@);
    true
}

/// Whether `text` is the decimal text of a number.
pub fn is_number(text: &str) -> (valid: bool)
    ensures
        valid == spec_is_number(text@),
{
    let s = crate::text::chars_of(text);
    let n: usize = s.len();
    let from: usize = if n > 0 && (s[0] == '+' || s[0] == '-') {
        1
    } else {
        0
    };
    proof {
        reveal_strlit("inf");
        reveal_strlit("infinity");
        reveal_strlit("nan");
    }
    let inf = crate::text::chars_of("inf");
    let infinity = crate::text::chars_of("infinity");
    let nan = crate::text::chars_of("nan");
    if spells(&s, from, &inf) || spells(&s, from, &infinity) || spells(&s, from, &nan) {
        return true;
    }
    let whole_end = digits_end(&s, from);
    let fraction_from: usize = if whole_end < n && s[whole_end] == '.' {
        whole_end + 1
    } else {
        whole_end
    };
    let end: usize = if fraction_from > whole_end {
        digits_end(&s, fraction_from)
    } else {
        whole_end
    };
    if (whole_end - from) + (end - fraction_from) == 0 {
        return false;
    }
    if end == n {
        return true;
    }
    if !(s[end] == 'e' || s[end] == 'E') {
        return false;
    }
    let digits: usize = if end + 1 < n && (s[end + 1] == '+' || s[end + 1] == '-') {
        end + 2
    } else {
        end + 1
    };
    let last = digits_end(&s, digits);
    last > digits && last == n
}

} // verus!
