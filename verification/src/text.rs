//! Character-level building blocks: numerals in a given base, zero padding,
//! splitting, trimming and comparison of texts.
//!
//! Every text is modelled as a `Seq<char>`; the executable functions work on
//! `String`, `&str` and `Vec<char>` and are specified through their views.
use vstd::prelude::*;

verus! {

/// The character that stands for the digit `d` (0 to 35 make sense; the
/// formatters here use up to 15). Letters are upper case when `upper` holds.
pub open spec fn numeral_char(d: int, upper: bool) -> char {
    if d < 10 {
        (('0' as int) + d) as char
    } else if upper {
        (('A' as int) + d - 10) as char
    } else {
        (('a' as int) + d - 10) as char
    }
}

/// `n` written in base `base` without leading zeros (zero itself is one digit).
pub open spec fn numeral(n: nat, base: nat, upper: bool) -> Seq<char>
    decreases n,
{
    if base < 2 || n < base {
        seq![numeral_char(n as int, upper)]
    } else {
        proof {
            lemma_quotient_smaller(n, base);
        }
        numeral(n / base, base, upper).push(numeral_char((n % base) as int, upper))
    }
}

/// The decimal numeral of `n`.
pub open spec fn decimal(n: nat) -> Seq<char> {
    numeral(n, 10, false)
}

/// The decimal numeral of `i`, with a leading `-` when `i` is negative.
pub open spec fn signed_decimal(i: int) -> Seq<char> {
    if i < 0 {
        seq!['-'] + decimal((-i) as nat)
    } else {
        decimal(i as nat)
    }
}

/// `count` zeros, none where `count` is not positive.
pub open spec fn zeros(count: int) -> Seq<char> {
    Seq::new(
        if count > 0 {
            count as nat
        } else {
            0
        },
        |i: int| '0',
    )
}

/// `n` in base `base`, padded on the left with zeros to at least `width` digits.
pub open spec fn padded_numeral(n: nat, base: nat, upper: bool, width: nat) -> Seq<char> {
    zeros(width - numeral(n, base, upper).len()) + numeral(n, base, upper)
}

/// The decimal numeral of `n`, at least two digits wide.
pub open spec fn two_digits(n: nat) -> Seq<char> {
    padded_numeral(n, 10, false, 2)
}

/// A sign, always written, and at least two decimal digits: `+00`, `-05`, `+127`.
pub open spec fn signed_two_digits(i: int) -> Seq<char> {
    if i < 0 {
        seq!['-'] + two_digits((-i) as nat)
    } else {
        seq!['+'] + two_digits(i as nat)
    }
}

/// A field two characters wide where the sign counts: `05`, `12`, `-5`, `-12`.
pub open spec fn sign_padded_two(i: int) -> Seq<char> {
    if i < 0 {
        seq!['-'] + decimal((-i) as nat)
    } else {
        two_digits(i as nat)
    }
}

/// Dividing by a base of at least two makes a positive number smaller.
pub proof fn lemma_quotient_smaller(n: nat, base: nat)
    requires
        base >= 2,
        n >= 1,
    ensures
        n / base < n,
{
    assert(n / base < n) by (nonlinear_arith)
        requires
            base >= 2,
            n >= 1,
    ;
}

/// The executable digit: `numeral_char` for a digit below 16.
pub(crate) fn digit_to_char(d: u8, upper: bool) -> (c: char)
    requires
        d < 16,
    ensures
        c == numeral_char(d as int, upper),
{
    if d < 10 {
        (48u8 + d) as char
    } else if upper {
        (55u8 + d) as char
    } else {
        (87u8 + d) as char
    }
}

/// Appends one character to a string. Wraps `String::push`, of which the
/// standard library says that it appends the given `char` to the end of the
/// string.
#[verifier::external_body]
pub(crate) fn push_char(s: &mut String, c: char)
    ensures
        final(s)@ == old(s)@.push(c),
{
    s.push(c);
}

/// Appends the digits of `n` in base `base` to `out`.
pub(crate) fn push_numeral_chars(out: &mut Vec<char>, n: u64, base: u64, upper: bool)
    requires
        2 <= base <= 16,
    ensures
        final(out)@ == old(out)@ + numeral(n as nat, base as nat, upper),
    decreases n,
{
    let digit: u64 = if n >= base {
        proof {
            lemma_quotient_smaller(n as nat, base as nat);
        }
        push_numeral_chars(out, n / base, base, upper);
        n % base
    } else {
        n
    };
    let last: char = digit_to_char(digit as u8, upper);
    out.push(last);
    proof {
        let whole = numeral(n as nat, base as nat, upper);
        if n >= base {
            assert(whole == numeral((n / base) as nat, base as nat, upper).push(last));
        } else {
            assert(whole == seq![last]);
        }
    }
}

/// The digits of `n` in base `base`.
pub(crate) fn numeral_chars(n: u64, base: u64, upper: bool) -> (v: Vec<char>)
    requires
        2 <= base <= 16,
    ensures
        v@ == numeral(n as nat, base as nat, upper),
{
    let mut v: Vec<char> = Vec::new();
    push_numeral_chars(&mut v, n, base, upper);
    v
}

/// Appends the characters of `v` to `s`.
pub fn push_chars(s: &mut String, v: &Vec<char>)
    ensures
        final(s)@ == old(s)@ + v@,
{
    let mut i: usize = 0;
    while i < v.len()
        invariant
            i <= v.len(),
            s@ == old(s)@ + v@.take(i as int),
        decreases v.len() - i,
    {
        push_char(s, v[i]);
        i = i + 1;
    }
}

/// The text made of the characters of `v`.
pub fn text_of(v: &Vec<char>) -> (s: String)
    ensures
        s@ == v@,
{
    let mut s = String::new();
    push_chars(&mut s, v);
    s
}

/// Appends `n` in base `base`, padded with zeros to at least `width` digits.
pub(crate) fn push_padded_numeral(s: &mut String, n: u64, base: u64, upper: bool, width: usize)
    requires
        2 <= base <= 16,
    ensures
        final(s)@ == old(s)@ + padded_numeral(n as nat, base as nat, upper, width as nat),
{
    let digits = numeral_chars(n, base, upper);
    let mut k: usize = digits.len();
    while k < width
        invariant
            digits.len() <= k,
            k <= width || k == digits.len(),
            s@ == old(s)@ + zeros(k - digits.len()),
        decreases width - k,
    {
        push_char(s, '0');
        k = k + 1;
    }
    assert(zeros(k - digits.len()) =~= zeros(width - digits.len()));
    push_chars(s, &digits);
}

/// Appends the decimal numeral of `n`.
pub fn push_decimal(s: &mut String, n: u64)
    ensures
        final(s)@ == old(s)@ + decimal(n as nat),
{
    let digits = numeral_chars(n, 10, false);
    push_chars(s, &digits);
}

/// The absolute value of `i`, which always fits in a `u64`.
pub fn magnitude(i: i64) -> (m: u64)
    ensures
        m == if i < 0 {
            -(i as int)
        } else {
            i as int
        },
{
    if i < 0 {
        ((-(i + 1)) as u64) + 1
    } else {
        i as u64
    }
}

/// Appends the decimal numeral of `i`, with `-` in front of a negative one.
pub fn push_signed_decimal(s: &mut String, i: i64)
    ensures
        final(s)@ == old(s)@ + signed_decimal(i as int),
{
    if i < 0 {
        push_char(s, '-');
    }
    push_decimal(s, magnitude(i));
}

/// Appends the decimal numeral of `n`, at least two digits wide.
pub fn push_two_digits(s: &mut String, n: u64)
    ensures
        final(s)@ == old(s)@ + two_digits(n as nat),
{
    push_padded_numeral(s, n, 10, false, 2);
}

/// Appends a sign and at least two decimal digits.
pub fn push_signed_two_digits(s: &mut String, i: i64)
    ensures
        final(s)@ == old(s)@ + signed_two_digits(i as int),
{
    if i < 0 {
        push_char(s, '-');
    } else {
        push_char(s, '+');
    }
    push_two_digits(s, magnitude(i));
}

/// Appends `i` in a field two characters wide in which the sign counts.
pub fn push_sign_padded_two(s: &mut String, i: i64)
    ensures
        final(s)@ == old(s)@ + sign_padded_two(i as int),
{
    if i < 0 {
        push_char(s, '-');
        push_decimal(s, magnitude(i));
    } else {
        push_two_digits(s, magnitude(i));
    }
}

/// Whether two texts hold the same characters.
pub fn same_text(a: &str, b: &str) -> (same: bool)
    ensures
        same == (a@ == b@),
{
    let x = a.to_owned();
    let y = b.to_owned();
    x == y
}

/// The characters of a text.
pub fn chars_of(s: &str) -> (v: Vec<char>)
    ensures
        v@ == s@,
{
    broadcast use vstd::string::group_string_axioms;

    let mut v: Vec<char> = Vec::new();
    for c in it: s.chars()
        invariant
            it.seq() == s@,
            v@ == it.seq().take(it.index()),
    {
        v.push(c);
    }
    v
}

/// The view of an optional text.
pub open spec fn text_view(s: Option<String>) -> Option<Seq<char>> {
    match s {
        Some(s) => Some(s@),
        None => None,
    }
}

/// The lower-case form that Unicode gives a text, as `str::to_lowercase`
/// computes it.
pub uninterp spec fn lowercased(s: Seq<char>) -> Seq<char>;

/// The lower-case form of a text. Wraps `str::to_lowercase`; the contract only
/// names the result.
#[verifier::external_body]
pub(crate) fn to_lowercase(s: &str) -> (r: String)
    ensures
        r@ == lowercased(s@),
{
    s.to_lowercase()
}

/// Whether Unicode counts a character as white space, as
/// `char::is_whitespace` tells it.
pub uninterp spec fn white_space(c: char) -> bool;

/// Whether a character is white space. Wraps `char::is_whitespace`; the
/// contract only names the result.
#[verifier::external_body]
pub(crate) fn is_white_space(c: char) -> (r: bool)
    ensures
        r == white_space(c),
{
    c.is_whitespace()
}

/// A text without the white space at its start.
pub open spec fn trim_start(s: Seq<char>) -> Seq<char>
    decreases s.len(),
{
    if s.len() > 0 && white_space(s[0]) {
        trim_start(s.skip(1))
    } else {
        s
    }
}

/// A text without the white space at its end.
pub open spec fn trim_end(s: Seq<char>) -> Seq<char>
    decreases s.len(),
{
    if s.len() > 0 && white_space(s.last()) {
        trim_end(s.drop_last())
    } else {
        s
    }
}

/// A text without the white space at its start and at its end.
pub open spec fn trimmed(s: Seq<char>) -> Seq<char> {
    trim_end(trim_start(s))
}

/// The characters of `v` without the white space at both ends.
pub fn trimmed_chars(v: &Vec<char>) -> (r: Vec<char>)
    ensures
        r@ == trimmed(v@),
{
    let mut start: usize = 0;
    proof {
        assert(v@.skip(0) =~= v@);
    }
    while start < v.len() && is_white_space(v[start])
        invariant
            start <= v@.len(),
            trim_start(v@) == trim_start(v@.skip(start as int)),
        decreases v.len() - start,
    {
        proof {
            assert(v@.skip(start as int).skip(1) =~= v@.skip(start + 1));
        }
        start = start + 1;
    }
    let mut end: usize = v.len();
    while end > start && is_white_space(v[end - 1])
        invariant
            start <= end <= v@.len(),
            trimmed(v@) == trim_end(v@.subrange(start as int, end as int)),
        decreases end,
    {
        proof {
            assert(v@.subrange(start as int, end as int).drop_last() =~= v@.subrange(
                start as int,
                end - 1,
            ));
        }
        end = end - 1;
    }
    let mut r: Vec<char> = Vec::new();
    let mut i: usize = start;
    while i < end
        invariant
            start <= i <= end <= v@.len(),
            r@ == v@.subrange(start as int, i as int),
        decreases end - i,
    {
        r.push(v[i]);
        i = i + 1;
    }
    r
}

/// A text without the white space at both ends.
pub fn trim(s: &str) -> (r: String)
    ensures
        r@ == trimmed(s@),
{
    let all = chars_of(s);
    let kept = trimmed_chars(&all);
    text_of(&kept)
}

/// The text that a run of bytes encodes in UTF-8, if it encodes one. Wraps
/// `std::str::from_utf8`, which accepts exactly the well-formed encodings
/// and hands back the same bytes as a text.
#[verifier::external_body]
pub(crate) fn utf8_text<'a>(bytes: &'a [u8]) -> (r: Option<&'a str>)
    ensures
        r is Some <==> vstd::utf8::valid_utf8(bytes@),
        r matches Some(s) ==> s@ == vstd::utf8::decode_utf8(bytes@),
{
    match std::str::from_utf8(bytes) {
        Ok(s) => Some(s),
        Err(_) => None,
    }
}

/// The fields of a text that `sep` separates, one more than `sep` occurs:
/// the empty text has one empty field.
pub open spec fn split(s: Seq<char>, sep: char) -> Seq<Seq<char>>
    decreases s.len(),
{
    if s.len() == 0 {
        seq![Seq::<char>::empty()]
    } else {
        let front = split(s.drop_last(), sep);
        if s.last() == sep {
            front.push(Seq::<char>::empty())
        } else {
            front.drop_last().push(front.last().push(s.last()))
        }
    }
}

/// The texts that a list of character vectors holds.
pub open spec fn texts(fields: Seq<Vec<char>>) -> Seq<Seq<char>> {
    Seq::new(fields.len(), |i: int| fields[i]@)
}

/// The fields of `v` that `sep` separates.
pub fn split_chars(v: &Vec<char>, sep: char) -> (fields: Vec<Vec<char>>)
    ensures
        texts(fields@) == split(v@, sep),
        fields@.len() >= 1,
{
    let mut fields: Vec<Vec<char>> = Vec::new();
    let mut current: Vec<char> = Vec::new();
    let mut i: usize = 0;
    while i < v.len()
        invariant
            i <= v@.len(),
            texts(fields@).push(current@) == split(v@.take(i as int), sep),
        decreases v.len() - i,
    {
        let c: char = v[i];
        proof {
            let next = v@.take(i + 1);
            assert(next.drop_last() =~= v@.take(i as int));
        }
        if c == sep {
            fields.push(current);
            current = Vec::new();
        } else {
            current.push(c);
        }
        i = i + 1;
    }
    proof {
        assert(v@.take(v@.len() as int) =~= v@);
    }
    fields.push(current);
    fields
}

/// The digit that a character stands for, if it is one of `0` to `9`.
pub open spec fn digit_value(c: char) -> Option<nat> {
    if '0' <= c <= '9' {
        Some((c as int - '0' as int) as nat)
    } else {
        None
    }
}

/// The number that a run of decimal digits stands for; `None` for the empty
/// text and for one that holds anything but digits.
pub open spec fn decimal_value(s: Seq<char>) -> Option<nat>
    decreases s.len(),
{
    if s.len() == 0 {
        None
    } else {
        match digit_value(s.last()) {
            None => None,
            Some(d) => if s.len() == 1 {
                Some(d)
            } else {
                match decimal_value(s.drop_last()) {
                    None => None,
                    Some(front) => Some(10 * front + d),
                }
            },
        }
    }
}

/// The number that a run of decimal digits stands for, where it fits in 64
/// bits with a sign.
pub open spec fn parsed_i64(s: Seq<char>) -> Option<i64> {
    match decimal_value(s) {
        Some(v) => if v <= i64::MAX {
            Some(v as i64)
        } else {
            None
        },
        None => None,
    }
}

/// Reads a run of decimal digits as a number.
pub fn parse_i64(v: &Vec<char>) -> (r: Option<i64>)
    ensures
        r == parsed_i64(v@),
{
    if v.len() == 0 {
        return None;
    }
    let mut acc: u64 = 0;
    let mut i: usize = 0;
    while i < v.len()
        invariant
            i <= v@.len(),
            v@.len() > 0,
            i > 0 ==> decimal_value(v@.take(i as int)) == Some(acc as nat),
            i == 0 ==> acc == 0,
            acc <= i64::MAX,
        decreases v.len() - i,
    {
        let c: char = v[i];
        proof {
            let next = v@.take(i + 1);
            assert(next.drop_last() =~= v@.take(i as int));
        }
        if c < '0' || c > '9' {
            proof {
                lemma_decimal_value_prefix(v@, i + 1);
            }
            return None;
        }
        let d: u64 = (c as u32 - '0' as u32) as u64;
        if acc > (0x7FFF_FFFF_FFFF_FFFFu64 - d) / 10 {
            proof {
                lemma_decimal_value_grows(v@, i + 1);
            }
            return None;
        }
        acc = acc * 10 + d;
        i = i + 1;
    }
    proof {
        assert(v@.take(v@.len() as int) =~= v@);
    }
    Some(acc as i64)
}

/// A text whose start is no run of digits is none either.
pub proof fn lemma_decimal_value_prefix(s: Seq<char>, k: int)
    requires
        1 <= k <= s.len(),
        decimal_value(s.take(k)) is None,
    ensures
        decimal_value(s) is None,
    decreases s.len() - k,
{
    if k < s.len() {
        assert(s.take(k + 1).drop_last() =~= s.take(k));
        lemma_decimal_value_prefix(s, k + 1);
    } else {
        assert(s.take(k) =~= s);
    }
}

/// A run of digits stands for no less than its start does.
pub proof fn lemma_decimal_value_grows(s: Seq<char>, k: int)
    requires
        1 <= k <= s.len(),
    ensures
        decimal_value(s) matches Some(v) ==> decimal_value(s.take(k)) matches Some(w) && w <= v,
    decreases s.len() - k,
{
    if k < s.len() {
        assert(s.take(k + 1).drop_last() =~= s.take(k));
        lemma_decimal_value_grows(s, k + 1);
    } else {
        assert(s.take(k) =~= s);
    }
}

/// The number that a decimal numeral with an optional `-` in front stands
/// for.
pub open spec fn signed_decimal_value(s: Seq<char>) -> Option<int> {
    if s.len() > 0 && s[0] == '-' {
        match decimal_value(s.skip(1)) {
            Some(v) => Some(-(v as int)),
            None => None,
        }
    } else {
        match decimal_value(s) {
            Some(v) => Some(v as int),
            None => None,
        }
    }
}

/// The decimal numeral of a number stands for that number.
pub proof fn lemma_decimal_reads_back(n: nat)
    ensures
        decimal_value(decimal(n)) == Some(n),
        decimal(n).len() >= 1,
        decimal(n)[0] != '-',
    decreases n,
{
    if n >= 10 {
        lemma_decimal_reads_back(n / 10);
        let front = decimal(n / 10);
        let all = decimal(n);
        assert(all.drop_last() =~= front);
    }
}

/// The decimal numeral of a number, signed where it is negative, stands for
/// that number.
pub proof fn lemma_signed_decimal_reads_back(i: int)
    ensures
        signed_decimal_value(signed_decimal(i)) == Some(i),
{
    if i < 0 {
        lemma_decimal_reads_back((-i) as nat);
        assert(signed_decimal(i).skip(1) =~= decimal((-i) as nat));
    } else {
        lemma_decimal_reads_back(i as nat);
    }
}

} // verus!
