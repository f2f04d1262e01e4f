//! Which text may be handed to the felt parser.
//!
//! The parser reads hex text with `0x` in front and decimal text with an optional
//! `-` in front. Reading decimal text it holds the digits read so far in 256
//! bits, so the text is kept away from it where the digits that it starts with
//! stand for 2^256 or more. Leading zeros do not count: only the number does.

use vstd::prelude::*;
use vstd::string::StrSliceExecFns;

verus! {

/// 2^256, the first number that 256 bits cannot hold.
pub open spec fn two_to_256() -> nat {
    0x10000000000000000000000000000000000000000000000000000000000000000nat
}

/// Whether `c` is one of `0` to `9`.
pub open spec fn is_decimal_digit(c: char) -> bool {
    '0' <= c <= '9'
}

/// The number that the digit `c` stands for.
pub open spec fn digit_value(c: char) -> nat {
    (c as int - '0' as int) as nat
}

/// The number that `digits` stands for in decimal notation.
pub open spec fn decimal_value(digits: Seq<char>) -> nat
    decreases digits.len(),
{
    if digits.len() == 0 {
        0
    } else {
        10 * decimal_value(digits.drop_last()) + digit_value(digits.last())
    }
}

/// How many decimal digits `text` starts with.
pub open spec fn decimal_prefix_len(text: Seq<char>) -> nat
    decreases text.len(),
{
    if text.len() > 0 && is_decimal_digit(text.first()) {
        1 + decimal_prefix_len(text.drop_first())
    } else {
        0
    }
}

/// The decimal digits that `text` starts with.
pub open spec fn decimal_prefix(text: Seq<char>) -> Seq<char> {
    text.subrange(0, decimal_prefix_len(text) as int)
}

/// Whether `text` is read as hex: it starts with `0x`.
pub open spec fn is_hex_text(text: Seq<char>) -> bool {
    text.len() >= 2 && text[0] == '0' && text[1] == 'x'
}

/// `text` without the `-` in front of it, if there is one.
pub open spec fn unsigned_text(text: Seq<char>) -> Seq<char> {
    if text.len() > 0 && text[0] == '-' {
        text.drop_first()
    } else {
        text
    }
}

/// Whether `text` may be handed to the felt parser: it is hex text, or the
/// decimal digits that follow its sign stand for less than 2^256.
pub open spec fn felt_text_in_range(text: Seq<char>) -> bool {
    is_hex_text(text) || decimal_value(decimal_prefix(unsigned_text(text))) < two_to_256()
}

/// Ten to the power `n`.
spec fn pow10(n: nat) -> nat
    decreases n,
{
    if n == 0 {
        1
    } else {
        10 * pow10((n - 1) as nat)
    }
}

proof fn lemma_pow10_add(a: nat, b: nat)
    ensures
        pow10(a + b) == pow10(a) * pow10(b),
    decreases a,
{
    if a == 0 {
        assert(pow10(0) == 1);
        assert(1 * pow10(b) == pow10(b)) by (nonlinear_arith);
    } else {
        lemma_pow10_add((a - 1) as nat, b);
        let x = pow10((a - 1) as nat);
        let y = pow10(b);
        assert(pow10(a + b) == 10 * pow10((a - 1 + b) as nat));
        assert(10 * (x * y) == (10 * x) * y) by (nonlinear_arith);
    }
}

proof fn lemma_pow10_grows(a: nat, b: nat)
    requires
        a <= b,
    ensures
        0 < pow10(a) <= pow10(b),
    decreases b,
{
    if b == 0 {
    } else if a == b {
        lemma_pow10_grows((a - 1) as nat, (b - 1) as nat);
    } else {
        lemma_pow10_grows(a, (b - 1) as nat);
    }
}

proof fn lemma_pow10_values()
    ensures
        pow10(13) == 10000000000000,
        pow10(25) == 10000000000000000000000000,
        pow10(26) == 100000000000000000000000000,
        pow10(77) == 100000000000000000000000000 * 100000000000000000000000000
            * 10000000000000000000000000,
        pow10(78) == 100000000000000000000000000 * 100000000000000000000000000
            * 100000000000000000000000000,
{
    assert(pow10(13) == 10000000000000) by {
        reveal_with_fuel(pow10, 14);
    }
    lemma_pow10_add(13, 13);
    lemma_pow10_add(25, 1);
    assert(pow10(1) == 10) by {
        reveal_with_fuel(pow10, 2);
    }
    lemma_pow10_add(26, 26);
    lemma_pow10_add(52, 25);
    lemma_pow10_add(52, 26);
}

proof fn lemma_value_push(digits: Seq<char>, c: char)
    ensures
        decimal_value(digits.push(c)) == 10 * decimal_value(digits) + digit_value(c),
{
    assert(digits.push(c).drop_last() =~= digits);
}

proof fn lemma_value_concat(a: Seq<char>, b: Seq<char>)
    ensures
        decimal_value(a + b) == decimal_value(a) * pow10(b.len()) + decimal_value(b),
    decreases b.len(),
{
    if b.len() == 0 {
        assert(a + b =~= a);
        assert(decimal_value(a) * 1 == decimal_value(a)) by (nonlinear_arith);
    } else {
        lemma_value_concat(a, b.drop_last());
        assert((a + b).drop_last() =~= a + b.drop_last());
        let va = decimal_value(a) as int;
        let p = pow10((b.len() - 1) as nat) as int;
        let vb = decimal_value(b.drop_last()) as int;
        assert(10 * (va * p + vb) == va * (10 * p) + 10 * vb) by (nonlinear_arith);
    }
}

proof fn lemma_value_of_zeros(digits: Seq<char>)
    requires
        forall|k: int| 0 <= k < digits.len() ==> digits[k] == '0',
    ensures
        decimal_value(digits) == 0,
    decreases digits.len(),
{
    if digits.len() > 0 {
        lemma_value_of_zeros(digits.drop_last());
    }
}

proof fn lemma_value_below(digits: Seq<char>)
    requires
        forall|k: int| 0 <= k < digits.len() ==> is_decimal_digit(digits[k]),
    ensures
        decimal_value(digits) < pow10(digits.len()),
    decreases digits.len(),
{
    if digits.len() > 0 {
        lemma_value_below(digits.drop_last());
    }
}

proof fn lemma_value_at_least(digits: Seq<char>)
    requires
        digits.len() > 0,
        forall|k: int| 0 <= k < digits.len() ==> is_decimal_digit(digits[k]),
        digits[0] != '0',
    ensures
        decimal_value(digits) >= pow10((digits.len() - 1) as nat),
    decreases digits.len(),
{
    if digits.len() == 1 {
        assert(digits.drop_last().len() == 0);
    } else {
        lemma_value_at_least(digits.drop_last());
    }
}

proof fn lemma_prefix_len(text: Seq<char>, end: int)
    requires
        0 <= end <= text.len(),
        forall|k: int| 0 <= k < end ==> is_decimal_digit(text[k]),
        end == text.len() || !is_decimal_digit(text[end]),
    ensures
        decimal_prefix_len(text) == end,
    decreases end,
{
    if end > 0 {
        lemma_prefix_len(text.drop_first(), end - 1);
    }
}

/// The character at place `i`, read in constant time where the text is ASCII.
fn char_at(text: &str, ascii: bool, i: usize) -> (c: char)
    requires
        i < text@.len(),
        ascii ==> text.is_ascii(),
    ensures
        c == text@[i as int],
{
    if ascii {
        let b: u8 = text.get_ascii(i);
        b as char
    } else {
        text.get_char(i)
    }
}

/// The digit at place `i`, or `None` where no digit stands there.
fn digit_at(text: &str, ascii: bool, i: usize) -> (digit: Option<u8>)
    requires
        i < text@.len(),
        ascii ==> text.is_ascii(),
    ensures
        match digit {
            Some(d) => is_decimal_digit(text@[i as int]) && d == digit_value(text@[i as int]),
            None => !is_decimal_digit(text@[i as int]),
        },
{
    let c: char = char_at(text, ascii, i);
    if '0' <= c && c <= '9' {
        Some((c as u8) - 48)
    } else {
        None
    }
}

/// The number that the `len` digits from place `from` on stand for.
fn chunk_value(text: &str, ascii: bool, from: usize, len: usize) -> (value: u128)
    requires
        len <= 26,
        from + len <= text@.len(),
        from + len <= usize::MAX,
        ascii ==> text.is_ascii(),
        forall|k: int| from <= k < from + len ==> is_decimal_digit(text@[k]),
    ensures
        value == decimal_value(text@.subrange(from as int, from + len)),
        value < pow10(len as nat),
{
    let mut value: u128 = 0;
    let mut k: usize = 0;
    proof {
        assert(text@.subrange(from as int, from as int).len() == 0);
    }
    while k < len
        invariant
            k <= len <= 26,
            from + len <= text@.len(),
            from + len <= usize::MAX,
            ascii ==> text.is_ascii(),
            forall|j: int| from <= j < from + len ==> is_decimal_digit(text@[j]),
            value == decimal_value(text@.subrange(from as int, from + k)),
            value < pow10(k as nat),
        decreases len - k,
    {
        let digit: Option<u8> = digit_at(text, ascii, from + k);
        let d: u8 = match digit {
            Some(d) => d,
            None => 0,
        };
        proof {
            lemma_pow10_grows(k as nat, 25);
            lemma_pow10_values();
            lemma_value_push(text@.subrange(from as int, from + k), text@[from + k]);
            assert(text@.subrange(from as int, from + k).push(text@[from + k]) =~= text@.subrange(
                from as int,
                from + k + 1,
            ));
        }
        value = value * 10 + d as u128;
        k = k + 1;
    }
    value
}

/// Decimal text by its digits: where zeros stand from `start` to `first` and
/// digits from there to `end`, where the digits stop, the text from `start` on
/// stands for the number of the digits after the zeros. Up to 77 such digits
/// stay below 2^256 and 79 or more reach it, however many zeros stand in front.
pub proof fn lemma_decimal_text_value(text: Seq<char>, start: int, first: int, end: int)
    requires
        0 <= start <= first <= end <= text.len(),
        forall|k: int| start <= k < first ==> text[k] == '0',
        forall|k: int| first <= k < end ==> is_decimal_digit(text[k]),
        first < end ==> text[first] != '0',
        end == text.len() || !is_decimal_digit(text[end]),
    ensures
        decimal_value(decimal_prefix(text.subrange(start, text.len() as int))) == decimal_value(
            text.subrange(first, end),
        ),
        end - first <= 77 ==> decimal_value(text.subrange(first, end)) < two_to_256(),
        end - first >= 79 ==> decimal_value(text.subrange(first, end)) >= two_to_256(),
{
    let body = text.subrange(start, text.len() as int);
    let zeros = text.subrange(start, first);
    let significant = text.subrange(first, end);
    lemma_prefix_len(body, end - start);
    assert(decimal_prefix(body) =~= zeros + significant);
    lemma_value_concat(zeros, significant);
    lemma_value_of_zeros(zeros);
    assert(0 * pow10(significant.len()) == 0) by (nonlinear_arith);
    lemma_value_below(significant);
    lemma_pow10_values();
    if end - first <= 77 {
        lemma_pow10_grows(significant.len(), 77);
    }
    if end - first >= 79 {
        lemma_value_at_least(significant);
        lemma_pow10_grows(78, (significant.len() - 1) as nat);
    }
}

/// A number of 78 digits is made of three numbers of 26 digits.
proof fn lemma_three_chunks(digits: Seq<char>)
    requires
        digits.len() == 78,
    ensures
        decimal_value(digits) == (decimal_value(digits.subrange(0, 26))
            * 100000000000000000000000000 + decimal_value(digits.subrange(26, 52)))
            * 100000000000000000000000000 + decimal_value(digits.subrange(52, 78)),
{
    let a = digits.subrange(0, 26);
    let b = digits.subrange(26, 52);
    let c = digits.subrange(52, 78);
    assert(digits =~= (a + b) + c);
    lemma_value_concat(a + b, c);
    lemma_value_concat(a, b);
    lemma_pow10_values();
}

/// Tests whether `text` may be handed to the felt parser.
pub fn felt_text_fits(text: &str) -> (fits: bool)
    ensures
        fits == felt_text_in_range(text@),
{
    let n: usize = text.unicode_len();
    let ascii: bool = text.is_ascii();
    if n >= 2 && char_at(text, ascii, 0) == '0' && char_at(text, ascii, 1) == 'x' {
        return true;
    }
    let start: usize = if n > 0 && char_at(text, ascii, 0) == '-' {
        1
    } else {
        0
    };
    let mut first: usize = start;
    while first < n && char_at(text, ascii, first) == '0'
        invariant
            start <= first <= n == text@.len(),
            ascii ==> text.is_ascii(),
            forall|k: int| start <= k < first ==> text@[k] == '0',
        decreases n - first,
    {
        first = first + 1;
    }
    let mut end: usize = first;
    while end < n && digit_at(text, ascii, end).is_some()
        invariant
            first <= end <= n == text@.len(),
            ascii ==> text.is_ascii(),
            forall|k: int| first <= k < end ==> is_decimal_digit(text@[k]),
        decreases n - end,
    {
        end = end + 1;
    }
    proof {
        assert(unsigned_text(text@) =~= text@.subrange(start as int, n as int));
        lemma_decimal_text_value(text@, start as int, first as int, end as int);
    }
    let digits: usize = end - first;
    if digits <= 77 {
        true
    } else if digits >= 79 {
        false
    } else {
        let high: u128 = chunk_value(text, ascii, first, 26);
        let middle: u128 = chunk_value(text, ascii, first + 26, 26);
        let low: u128 = chunk_value(text, ascii, first + 52, 26);
        proof {
            let significant = text@.subrange(first as int, end as int);
            assert(significant.subrange(0, 26) =~= text@.subrange(first as int, first + 26));
            assert(significant.subrange(26, 52) =~= text@.subrange(first + 26, first + 52));
            assert(significant.subrange(52, 78) =~= text@.subrange(first + 52, first + 78));
            lemma_three_chunks(significant);
            lemma_pow10_values();
        }
        high < 11579208923731619542357098 || (high == 11579208923731619542357098 && (middle
            < 50086879078532699846656405 || (middle == 50086879078532699846656405 && low
            < 64039457584007913129639936)))
    }
}

} // verus!
