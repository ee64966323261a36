//! Unsigned numbers written in base ten.
//!
//! A numeral is an optional `+` followed by one or more of the digits `0` to
//! `9`. This module says what number such a text denotes, reads numerals into
//! `u32` values, and writes numbers back as digits, with or without leading
//! zeros.

use vstd::prelude::*;

verus! {

/// Whether `c` is one of the ten digits `0` to `9`.
pub open spec fn is_digit(c: char) -> bool {
    '0' <= c <= '9'
}

/// The number that the digit `c` stands for.
pub open spec fn digit_value(c: char) -> nat
    recommends
        is_digit(c),
{
    (c as nat - '0' as nat) as nat
}

/// The digit that stands for `d`.
pub open spec fn digit_char(d: nat) -> char
    recommends
        d < 10,
{
    (d + '0' as nat) as char
}

/// Whether every character of `s` is a digit.
pub open spec fn all_digits(s: Seq<char>) -> bool {
    forall|i: int| 0 <= i < s.len() ==> is_digit(#[trigger] s[i])
}

/// The number that the digits `s` denote in base ten, the first digit being
/// the most significant one. The empty sequence denotes zero.
pub open spec fn digits_value(s: Seq<char>) -> nat
    recommends
        all_digits(s),
    decreases s.len(),
{
    if s.len() == 0 {
        0
    } else {
        digits_value(s.drop_last()) * 10 + digit_value(s.last())
    }
}

/// The digits of a numeral: `text` without its leading `+`, if it has one.
pub open spec fn numeral_digits(text: Seq<char>) -> Seq<char> {
    if text.len() > 0 && text[0] == '+' {
        text.drop_first()
    } else {
        text
    }
}

/// Whether `text` is a numeral: an optional `+`, then at least one digit and
/// nothing but digits.
pub open spec fn is_numeral(text: Seq<char>) -> bool {
    numeral_digits(text).len() > 0 && all_digits(numeral_digits(text))
}

/// The value of `text` as a `u32`: the number it denotes if it is a numeral
/// and that number fits into 32 bits, and nothing otherwise.
pub open spec fn parse_u32_spec(text: Seq<char>) -> Option<u32> {
    if is_numeral(text) && digits_value(numeral_digits(text)) <= u32::MAX {
        Some(digits_value(numeral_digits(text)) as u32)
    } else {
        None
    }
}

/// The digits of `n` in base ten, without leading zeros; zero is written `0`.
pub open spec fn decimal(n: nat) -> Seq<char>
    decreases n,
{
    if n < 10 {
        seq![digit_char(n)]
    } else {
        decimal(n / 10).push(digit_char(n % 10))
    }
}

/// `count` zeros in a row.
pub open spec fn zeros(count: nat) -> Seq<char> {
    Seq::new(count, |i: int| '0')
}

/// The digits of `n`, with zeros put in front until there are at least `width`
/// characters.
pub open spec fn decimal_padded(n: nat, width: nat) -> Seq<char> {
    if decimal(n).len() < width {
        zeros((width - decimal(n).len()) as nat) + decimal(n)
    } else {
        decimal(n)
    }
}

/// Appending a character to a sequence of digits multiplies its value by ten
/// and adds the value of the character.
pub proof fn lemma_digits_value_push(s: Seq<char>, c: char)
    ensures
        digits_value(s.push(c)) == digits_value(s) * 10 + digit_value(c),
{
    assert(s.push(c).drop_last() =~= s);
}

/// The first `k` characters of a sequence denote no more than the whole
/// sequence does.
pub proof fn lemma_digits_value_prefix(s: Seq<char>, k: int)
    requires
        0 <= k <= s.len(),
    ensures
        digits_value(s.take(k)) <= digits_value(s),
    decreases s.len(),
{
    if k == s.len() {
        assert(s.take(k) =~= s);
    } else {
        assert(s.drop_last().take(k) =~= s.take(k));
        lemma_digits_value_prefix(s.drop_last(), k);
    }
}

/// Unless the character is a leading `+`, the digits of a text with one more
/// character are the digits of the text with that character appended.
pub proof fn lemma_numeral_digits_push(text: Seq<char>, c: char)
    requires
        text.len() > 0 || c != '+',
    ensures
        numeral_digits(text.push(c)) == numeral_digits(text).push(c),
{
    assert(numeral_digits(text.push(c)) =~= numeral_digits(text).push(c));
}

/// The digits of the first `k` characters of a text are the first digits of
/// the whole text.
pub proof fn lemma_numeral_digits_prefix(text: Seq<char>, k: int)
    requires
        0 <= k <= text.len(),
    ensures
        numeral_digits(text.take(k)).is_prefix_of(numeral_digits(text)),
{
    let part = numeral_digits(text.take(k));
    assert(part =~= numeral_digits(text).subrange(0, part.len() as int));
}

/// A numeral holds nothing but digits and, in the first place only, a `+`.
pub proof fn lemma_numeral_chars(text: Seq<char>, i: int)
    requires
        is_numeral(text),
        0 <= i < text.len(),
    ensures
        is_digit(text[i]) || (i == 0 && text[i] == '+'),
{
    if text[0] == '+' {
        if i > 0 {
            assert(numeral_digits(text)[i - 1] == text[i]);
        }
    } else {
        assert(numeral_digits(text)[i] == text[i]);
    }
}

/// The digits of a number are digits, there is at least one of them, and
/// they denote the number.
pub proof fn lemma_decimal_denotes(n: nat)
    ensures
        decimal(n).len() > 0,
        all_digits(decimal(n)),
        digits_value(decimal(n)) == n,
    decreases n,
{
    if n < 10 {
        assert(decimal(n) =~= Seq::<char>::empty().push(digit_char(n)));
        lemma_digits_value_push(Seq::<char>::empty(), digit_char(n));
    } else {
        lemma_decimal_denotes(n / 10);
        lemma_digits_value_push(decimal(n / 10), digit_char(n % 10));
    }
}

/// Zeros in front of a sequence of digits do not change what it denotes.
pub proof fn lemma_leading_zeros(count: nat, s: Seq<char>)
    ensures
        digits_value(zeros(count) + s) == digits_value(s),
        all_digits(s) ==> all_digits(zeros(count) + s),
    decreases s.len(), count,
{
    let padded = zeros(count) + s;
    if s.len() > 0 {
        assert(padded.drop_last() =~= zeros(count) + s.drop_last());
        lemma_leading_zeros(count, s.drop_last());
    } else if count > 0 {
        assert(padded.drop_last() =~= zeros((count - 1) as nat) + s);
        lemma_leading_zeros((count - 1) as nat, s);
    } else {
        assert(padded =~= s);
    }
}

/// Reading what was written gives the number back: the digits of a number
/// that fits into 32 bits, with any number of zeros in front, are a numeral
/// for that number.
pub proof fn lemma_parse_decimal_padded(n: nat, width: nat)
    requires
        n <= u32::MAX,
    ensures
        parse_u32_spec(decimal_padded(n, width)) == Some(n as u32),
        parse_u32_spec(decimal(n)) == Some(n as u32),
{
    lemma_decimal_denotes(n);
    if decimal(n).len() < width {
        lemma_leading_zeros((width - decimal(n).len()) as nat, decimal(n));
    }
    assert(is_digit(decimal(n)[0]));
    assert(is_digit(decimal_padded(n, width)[0]));
}

/// Reads `text` as a `u32`.
///
/// The text has to be a numeral, an optional `+` followed by one or more
/// digits and nothing else, and the number has to fit into 32 bits. Leading
/// zeros are accepted and do not count towards the size of the number.
pub fn parse_u32(text: &str) -> (r: Option<u32>)
    ensures
        r == parse_u32_spec(text@),
{
    let mut value: u32 = 0;
    let mut first: bool = true;
    let mut any_digit: bool = false;
    for c in it: text.chars()
        invariant
            it.seq() == text@,
            first == (it.index() == 0),
            any_digit == (numeral_digits(text@.take(it.index())).len() > 0),
            all_digits(numeral_digits(text@.take(it.index()))),
            value == digits_value(numeral_digits(text@.take(it.index()))),
    {
        let ghost read = text@.take(it.index());
        let ghost digits = numeral_digits(text@.take(it.index() + 1));
        proof {
            assert(text@.take(it.index() + 1) =~= read.push(c));
            lemma_numeral_digits_prefix(text@, it.index() + 1);
            if !(first && c == '+') {
                lemma_numeral_digits_push(read, c);
                lemma_digits_value_push(numeral_digits(read), c);
                assert(numeral_digits(text@)[digits.len() - 1] == c);
            }
        }
        if first && c == '+' {
            assert(digits =~= Seq::<char>::empty());
        } else if '0' <= c && c <= '9' {
            let digit: u32 = c as u32 - '0' as u32;
            let shifted: u32 = match value.checked_mul(10) {
                Some(shifted) => shifted,
                None => {
                    proof {
                        lemma_digits_value_prefix(numeral_digits(text@), digits.len() as int);
                    }
                    return None;
                },
            };
            value = match shifted.checked_add(digit) {
                Some(sum) => sum,
                None => {
                    proof {
                        lemma_digits_value_prefix(numeral_digits(text@), digits.len() as int);
                    }
                    return None;
                },
            };
            any_digit = true;
        } else {
            return None;
        }
        first = false;
    }
    assert(text@.take(text@.len() as int) =~= text@);
    if any_digit {
        Some(value)
    } else {
        None
    }
}

/// The text of the digit that stands for `d`.
fn digit_str(d: u32) -> (s: &'static str)
    requires
        d < 10,
    ensures
        s@ == seq![digit_char(d as nat)],
{
    proof {
        reveal_strlit("0");
        reveal_strlit("1");
        reveal_strlit("2");
        reveal_strlit("3");
        reveal_strlit("4");
        reveal_strlit("5");
        reveal_strlit("6");
        reveal_strlit("7");
        reveal_strlit("8");
        reveal_strlit("9");
    }
    let s = match d {
        0 => "0",
        1 => "1",
        2 => "2",
        3 => "3",
        4 => "4",
        5 => "5",
        6 => "6",
        7 => "7",
        8 => "8",
        _ => "9",
    };
    assert(s@ =~= seq![digit_char(d as nat)]);
    s
}

/// The number of digits that `n` is written with.
fn decimal_len(n: u32) -> (len: usize)
    ensures
        len == decimal(n as nat).len(),
{
    let mut len: usize = 1;
    let mut rest: u32 = n;
    while rest >= 10
        invariant
            decimal(n as nat).len() == decimal(rest as nat).len() + len - 1,
            1 <= len,
            len + rest <= n + 1,
        decreases rest,
    {
        rest = rest / 10;
        len = len + 1;
    }
    len
}

/// Appends the digits of `n` to `out`, without leading zeros.
pub fn append_decimal(out: &mut String, n: u32)
    ensures
        final(out)@ == old(out)@ + decimal(n as nat),
    decreases n,
{
    if n >= 10 {
        append_decimal(out, n / 10);
    }
    out.append(digit_str(n % 10));
    assert(out@ =~= old(out)@ + decimal(n as nat));
}

/// Appends the digits of `n` to `out`, with zeros in front of them where `n`
/// has fewer than `width` digits.
pub fn append_decimal_padded(out: &mut String, n: u32, width: usize)
    ensures
        final(out)@ == old(out)@ + decimal_padded(n as nat, width as nat),
{
    let len: usize = decimal_len(n);
    let mut written: usize = len;
    while written < width
        invariant
            len <= written,
            written <= width || written == len,
            out@ == old(out)@ + zeros((written - len) as nat),
        decreases width - written,
    {
        proof {
            reveal_strlit("0");
        }
        out.append("0");
        written = written + 1;
        assert(out@ =~= old(out)@ + zeros((written - len) as nat));
    }
    append_decimal(out, n);
    assert(out@ =~= old(out)@ + decimal_padded(n as nat, width as nat));
}

} // verus!
