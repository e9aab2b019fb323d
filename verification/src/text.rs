//! Texts: building them symbol by symbol, reading numbers from them and
//! writing numbers into them, and what is asked of other crates about them.

use itertools::Itertools;
use std::num::ParseIntError;
use vstd::prelude::*;
use vstd::string::StringExecFns;

verus! {

/// `String::push`: appends one `char` to the end of the string and leaves
/// what was there before as it was.
#[verifier::external_body]
pub(crate) fn push_char(text: &mut String, symbol: char)
    ensures
        final(text)@ == old(text)@.push(symbol),
{
    text.push(symbol);
}

/// What `sanitize_filename::sanitize_with_options` makes of `name`, with the
/// options `windows` and `truncate` and its default replacement.
pub uninterp spec fn sanitized(name: Seq<char>, windows: bool, truncate: bool) -> Seq<char>;

/// `sanitize_filename::sanitize_with_options` with the default replacement:
/// the file name that the crate makes of `name`. Its rules fill several
/// regular expressions, so the result is named, not spelled out.
#[verifier::external_body]
pub(crate) fn sanitize(name: &str, windows: bool, truncate: bool) -> (clean: String)
    ensures
        clean@ == sanitized(name@, windows, truncate),
{
    sanitize_filename::sanitize_with_options(
        name,
        sanitize_filename::Options { windows, truncate, ..Default::default() },
    )
}

/// `sanitize_filename::Options::default`, its field `windows`: whether the
/// crate applies the rules of Windows when it is not told. It does where the
/// program was built for Windows, so nothing is stated of the answer.
#[verifier::external_body]
pub(crate) fn windows_rules_by_default() -> bool {
    sanitize_filename::Options::default().windows
}

/// What `str::to_lowercase` makes of `text`.
pub uninterp spec fn lowercase_of(text: Seq<char>) -> Seq<char>;

/// `str::to_lowercase`: the text with every symbol in its lower-case form,
/// as Unicode defines it. The tables behind that are long, so the result is
/// named, not spelled out.
#[verifier::external_body]
pub(crate) fn to_lowercase(text: &str) -> (lower: String)
    ensures
        lower@ == lowercase_of(text@),
{
    text.to_lowercase()
}

/// Whether two texts are the same.
pub(crate) fn same_text(left: &str, right: &str) -> (same: bool)
    ensures
        same == (left@ == right@),
{
    left.to_owned() == right.to_owned()
}

/// `text` between double quotes, followed by `rest`.
pub open spec fn quoted_then(text: Seq<char>, rest: Seq<char>) -> Seq<char> {
    seq!['"'] + text + seq!['"'] + rest
}

/// `text` between double quotes, followed by `rest`.
pub(crate) fn quote_then(text: &str, rest: &str) -> (out: String)
    ensures
        out@ == quoted_then(text@, rest@),
{
    let mut out = String::new();
    push_char(&mut out, '"');
    out.append(text);
    push_char(&mut out, '"');
    out.append(rest);
    assert(out@ =~= quoted_then(text@, rest@));
    out
}

/// The texts of a list of strings, in order.
pub open spec fn texts(strings: Seq<String>) -> Seq<Seq<char>> {
    Seq::new(strings.len(), |k: int| strings[k]@)
}

/// The parts in a row, with `separator` between each two.
pub open spec fn joined_with(parts: Seq<Seq<char>>, separator: Seq<char>) -> Seq<char>
    decreases parts.len(),
{
    if parts.len() == 0 {
        Seq::empty()
    } else if parts.len() == 1 {
        parts[0]
    } else {
        joined_with(parts.drop_last(), separator) + separator + parts.last()
    }
}

/// `Itertools::join` over the strings of a list: the strings in a row, in
/// order, with `separator` between each two; the empty string for no
/// strings.
#[verifier::external_body]
pub(crate) fn join_texts(parts: &Vec<String>, separator: &str) -> (joined: String)
    ensures
        joined@ == joined_with(texts(parts@), separator@),
{
    parts.iter().join(separator)
}

/// The symbols as a string.
pub fn string_of(symbols: &[char]) -> (text: String)
    ensures
        text@ == symbols@,
{
    let mut text = String::new();
    let mut at: usize = 0;
    while at < symbols.len()
        invariant
            at <= symbols@.len(),
            text@ == symbols@.take(at as int),
        decreases symbols.len() - at,
    {
        push_char(&mut text, symbols[at]);
        at = at + 1;
        assert(text@ =~= symbols@.take(at as int));
    }
    assert(symbols@.take(at as int) =~= symbols@);
    text
}

/// The ten digits, in order.
pub const DIGITS: [char; 10] = ['0', '1', '2', '3', '4', '5', '6', '7', '8', '9'];

/// A number in decimal digits, without leading zeros.
pub open spec fn decimal_text(n: nat) -> Seq<char>
    decreases n,
{
    if n < 10 {
        seq![DIGITS@[n as int]]
    } else {
        decimal_text(n / 10).push(DIGITS@[(n % 10) as int])
    }
}

/// The digits of a number from the last to the first.
pub open spec fn decimal_backwards(n: nat) -> Seq<char>
    decreases n,
{
    if n < 10 {
        seq![DIGITS@[n as int]]
    } else {
        seq![DIGITS@[(n % 10) as int]] + decimal_backwards(n / 10)
    }
}

proof fn lemma_decimal_backwards(n: nat)
    ensures
        decimal_backwards(n).len() > 0,
        decimal_text(n) == decimal_backwards(n).reverse(),
    decreases n,
{
    if n < 10 {
        assert(seq![DIGITS@[n as int]].reverse() =~= seq![DIGITS@[n as int]]);
    } else {
        lemma_decimal_backwards(n / 10);
        let last = DIGITS@[(n % 10) as int];
        let rest = decimal_backwards(n / 10);
        assert((seq![last] + rest).reverse() =~= rest.reverse().push(last));
    }
}

/// A number in decimal digits.
pub fn usize_text(n: usize) -> (text: String)
    ensures
        text@ == decimal_text(n as nat),
{
    let mut backwards: Vec<char> = Vec::new();
    let mut rest = n;
    while rest >= 10
        invariant
            decimal_backwards(n as nat) == backwards@ + decimal_backwards(rest as nat),
        decreases rest,
    {
        let ghost before = backwards@;
        let ghost tail = decimal_backwards((rest / 10) as nat);
        let digit = DIGITS[rest % 10];
        backwards.push(digit);
        assert(before + (seq![digit] + tail) =~= backwards@ + tail);
        rest = rest / 10;
    }
    let ghost before = backwards@;
    backwards.push(DIGITS[rest]);
    assert(backwards@ =~= before + seq![DIGITS@[rest as int]]);
    let mut text = String::new();
    let mut left = backwards.len();
    while left > 0
        invariant
            left <= backwards@.len(),
            text@ == backwards@.subrange(left as int, backwards@.len() as int).reverse(),
        decreases left,
    {
        left = left - 1;
        push_char(&mut text, backwards[left]);
        assert(text@ =~= backwards@.subrange(left as int, backwards@.len() as int).reverse());
    }
    proof {
        assert(backwards@.subrange(0, backwards@.len() as int) =~= backwards@);
        lemma_decimal_backwards(n as nat);
    }
    text
}

#[verifier::external_type_specification]
#[verifier::external_body]
pub struct ExParseIntError(ParseIntError);

/// Whether `symbol` is one of the ten digits.
pub open spec fn is_digit(symbol: char) -> bool {
    '0' <= symbol <= '9'
}

/// The number that a row of digits stands for.
pub open spec fn digits_value(digits: Seq<char>) -> nat
    decreases digits.len(),
{
    if digits.len() == 0 {
        0
    } else {
        (digits_value(digits.drop_last()) * 10 + (digits.last() as nat - '0' as nat)) as nat
    }
}

/// The part of a text that is to be digits when it is read as a number:
/// all of it but a plus sign at its start.
pub open spec fn digits_of(text: Seq<char>) -> Seq<char> {
    if text.len() > 0 && text[0] == '+' {
        text.skip(1)
    } else {
        text
    }
}

/// Every symbol is a digit.
pub open spec fn all_digits(digits: Seq<char>) -> bool {
    forall|i: int| 0 <= i < digits.len() ==> is_digit(#[trigger] digits[i])
}

/// The number that a text stands for when read as a `usize`: digits, and
/// before them a plus sign or nothing. No number where the text is anything
/// else, has no digit, or stands for more than a `usize` holds.
pub open spec fn parsed_usize(text: Seq<char>) -> Option<nat> {
    if digits_of(text).len() > 0 && all_digits(digits_of(text)) && digits_value(digits_of(text))
        <= usize::MAX {
        Some(digits_value(digits_of(text)))
    } else {
        None
    }
}

/// `str::parse` to a `usize`: the number that the decimal digits of the text
/// stand for, with a plus sign before them or none. An error where the text
/// is empty, holds anything but digits after that sign, or stands for more
/// than a `usize` holds.
#[verifier::external_body]
pub(crate) fn parse_usize(text: &str) -> (res: Result<usize, ParseIntError>)
    ensures
        match res {
            Ok(n) => parsed_usize(text@) == Some(n as nat),
            Err(_) => parsed_usize(text@) is None,
        },
{
    text.parse::<usize>()
}

/// The symbols of `text`, in order.
pub fn symbols_of(text: &str) -> (symbols: Vec<char>)
    ensures
        symbols@ == text@,
{
    let mut symbols: Vec<char> = Vec::new();
    for symbol in it: text.chars()
        invariant
            it.seq() == text@,
            symbols@ == text@.take(it.index() as int),
    {
        symbols.push(symbol);
        assert(symbols@ =~= text@.take(it.index() + 1));
    }
    assert(text@.take(text@.len() as int) =~= text@);
    symbols
}

} // verus!
