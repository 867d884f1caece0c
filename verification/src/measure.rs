//! Body measurements as exact decimal numbers, and their written form.
//!
//! A measurement is written as digits with at most one decimal point: `80`, `80.5`,
//! `.5` and `80.` are all read, the lone point and the empty text are not.

use crate::text::chars_of;
use vstd::prelude::*;

verus! {

/// A weight in kilograms or a girth in centimetres, held as a whole number of
/// thousandths of the unit so that sums and means are exact.
///
/// `Measurement { milli: 80_500 }` stands for 80.5.
#[derive(Clone, Copy, Debug, PartialEq, Eq, Structural, PartialOrd, Ord, Hash)]
pub struct Measurement {
    pub milli: u32,
}

impl View for Measurement {
    type V = nat;

    open spec fn view(&self) -> nat {
        self.milli as nat
    }
}

/// The thousandths of an optional measurement.
pub open spec fn measured(m: Option<Measurement>) -> Option<nat> {
    match m {
        Some(m) => Some(m@),
        None => None,
    }
}

/// Whether `c` is one of the ten decimal digits.
pub open spec fn is_digit(c: char) -> bool {
    '0' <= c && c <= '9'
}

/// The number that a decimal digit stands for.
pub open spec fn digit_value(c: char) -> nat {
    (c as int - 48) as nat
}

/// The decimal digit that stands for `d`, for `d` below 10.
pub open spec fn digit_char(d: nat) -> char {
    (d + 48) as char
}

/// Whether every character of `s` is a decimal digit.
pub open spec fn all_digits(s: Seq<char>) -> bool {
    forall|i: int| 0 <= i < s.len() ==> is_digit(#[trigger] s[i])
}

/// The number that a run of decimal digits writes; zero for the empty run.
pub open spec fn digits_value(s: Seq<char>) -> nat
    decreases s.len(),
{
    if s.len() == 0 {
        0
    } else {
        10 * digits_value(s.drop_last()) + digit_value(s.last())
    }
}

/// The number of characters before the first decimal point, or in all of `s` where it
/// has none.
pub open spec fn whole_len(s: Seq<char>) -> nat
    decreases s.len(),
{
    if s.len() == 0 || s.first() == '.' {
        0
    } else {
        1 + whole_len(s.drop_first())
    }
}

/// The part of `s` before the first decimal point.
pub open spec fn whole_part(s: Seq<char>) -> Seq<char> {
    s.take(whole_len(s) as int)
}

/// The part of `s` after the first decimal point; empty where it has none.
pub open spec fn fraction_part(s: Seq<char>) -> Seq<char> {
    if whole_len(s) < s.len() {
        s.skip(whole_len(s) as int + 1)
    } else {
        Seq::empty()
    }
}

/// The value of the digit at place `i` of a fraction; zero past its end.
pub open spec fn digit_at(frac: Seq<char>, i: int) -> nat {
    if 0 <= i < frac.len() {
        digit_value(frac[i])
    } else {
        0
    }
}

/// The thousandths that a fraction's digits write. Digits after the third are
/// dropped.
pub open spec fn fraction_milli(frac: Seq<char>) -> nat {
    100 * digit_at(frac, 0) + 10 * digit_at(frac, 1) + digit_at(frac, 2)
}

/// The thousandths that `s` writes, where `s` is a decimal number: digits, at most
/// one decimal point among them, and at least one digit.
pub open spec fn parsed(s: Seq<char>) -> Option<nat> {
    let whole = whole_part(s);
    let frac = fraction_part(s);
    if all_digits(whole) && all_digits(frac) && whole.len() + frac.len() > 0 {
        Some(1000 * digits_value(whole) + fraction_milli(frac))
    } else {
        None
    }
}

/// The measurement that `s` writes, in thousandths: its value as a decimal number,
/// where it is one and the value fits the type.
pub open spec fn read(s: Seq<char>) -> Option<nat> {
    match parsed(s) {
        Some(v) => if v <= u32::MAX {
            Some(v)
        } else {
            None
        },
        None => None,
    }
}

/// The decimal digits of `n`, without leading zeros.
pub open spec fn decimal(n: nat) -> Seq<char>
    decreases n,
{
    if n < 10 {
        seq![digit_char(n)]
    } else {
        decimal(n / 10).push(digit_char(n % 10))
    }
}

/// The digits that write `milli` thousandths after the decimal point, without
/// trailing zeros, for `milli` from 1 to 999.
pub open spec fn fraction_digits(milli: nat) -> Seq<char> {
    let a = digit_char(milli / 100);
    let b = digit_char(milli / 10 % 10);
    let c = digit_char(milli % 10);
    if milli % 10 != 0 {
        seq![a, b, c]
    } else if milli / 10 % 10 != 0 {
        seq![a, b]
    } else {
        seq![a]
    }
}

/// The written form of `milli` thousandths: the whole part, and where the value is not
/// whole a decimal point and the fraction without trailing zeros.
pub open spec fn formatted(milli: nat) -> Seq<char> {
    if milli % 1000 == 0 {
        decimal(milli / 1000)
    } else {
        decimal(milli / 1000).push('.') + fraction_digits(milli % 1000)
    }
}

/// How a measurement is shown beside an entry: its written form, or two dashes where
/// it was not taken.
pub open spec fn labelled(m: Option<nat>) -> Seq<char> {
    match m {
        Some(v) => formatted(v),
        None => seq!['-', '-'],
    }
}

/// Whether a numeric field that holds `text` takes the typed character `c`: a digit
/// always, a decimal point only where the text has none yet.
pub open spec fn accepts(text: Seq<char>, c: char) -> bool {
    is_digit(c) || (c == '.' && !text.contains('.'))
}

/// Whether `s` could have been typed into a numeric field: digits, and at most one
/// decimal point among them.
pub open spec fn numeric(s: Seq<char>) -> bool {
    &&& forall|i: int| 0 <= i < s.len() ==> is_digit(#[trigger] s[i]) || s[i] == '.'
    &&& forall|i: int, j: int|
        0 <= i < s.len() && 0 <= j < s.len() && s[i] == '.' && s[j] == '.' ==> i == j
}

/// Whether `c` is a decimal digit.
pub fn char_is_digit(c: char) -> (b: bool)
    ensures
        b == is_digit(c),
{
    '0' <= c && c <= '9'
}

/// The number that the decimal digit `c` stands for.
fn digit_of(c: char) -> (d: u64)
    requires
        is_digit(c),
    ensures
        d == digit_value(c),
        d <= 9,
{
    c as u64 - 48
}

/// The decimal digit that stands for `d`.
fn digit_for(d: u32) -> (c: char)
    requires
        d < 10,
    ensures
        c == digit_char(d as nat),
{
    (48 + d as u8) as char
}

/// Appends the decimal digits of `n` to `out`.
fn push_decimal(out: &mut String, n: u32)
    ensures
        final(out)@ == old(out)@ + decimal(n as nat),
    decreases n,
{
    if n >= 10 {
        push_decimal(out, n / 10);
    }
    out.push(digit_for(n % 10));
}

/// The saturation bound of the whole part while reading: no measurement has a whole
/// part this large.
const WHOLE_CAP: u64 = 10_000_000;

/// `n`, or the saturation bound where `n` reaches it.
spec fn capped(n: nat) -> nat {
    if n < WHOLE_CAP {
        n
    } else {
        WHOLE_CAP as nat
    }
}

/// Reads the part of `chars` before the first decimal point: its length and its
/// value, saturated. `None` where that part holds anything but digits.
fn read_whole(chars: &Vec<char>) -> (r: Option<(usize, u64)>)
    ensures
        match r {
            Some((len, value)) => {
                &&& len == whole_len(chars@)
                &&& len == whole_part(chars@).len()
                &&& all_digits(whole_part(chars@))
                &&& value == capped(digits_value(whole_part(chars@)))
            },
            None => !all_digits(whole_part(chars@)),
        },
{
    let ghost s = chars@;
    let mut value: u64 = 0;
    let mut i: usize = 0;
    while i < chars.len() && chars[i] != '.'
        invariant
            s == chars@,
            i <= chars.len(),
            forall|k: int| 0 <= k < i ==> s[k] != '.',
            all_digits(s.take(i as int)),
            value == capped(digits_value(s.take(i as int))),
        decreases chars.len() - i,
    {
        let c = chars[i];
        if !char_is_digit(c) {
            proof {
                lemma_whole_len(s, i + 1);
                assert(whole_part(s)[i as int] == c);
            }
            return None;
        }
        proof {
            assert(s.take(i + 1).drop_last() =~= s.take(i as int));
        }
        let next = value * 10 + digit_of(c);
        value = if next < WHOLE_CAP {
            next
        } else {
            WHOLE_CAP
        };
        i += 1;
    }
    proof {
        lemma_whole_len(s, i as int);
    }
    Some((i, value))
}

/// Reads the part of `chars` after the decimal point that follows its first
/// `whole` characters: the number of its digits and the thousandths that they write.
/// `None` where that part holds anything but digits.
fn read_fraction(chars: &Vec<char>, whole: usize) -> (r: Option<(usize, u32)>)
    requires
        whole == whole_len(chars@),
    ensures
        match r {
            Some((len, milli)) => {
                &&& len == fraction_part(chars@).len()
                &&& all_digits(fraction_part(chars@))
                &&& milli == fraction_milli(fraction_part(chars@))
                &&& milli <= 999
            },
            None => !all_digits(fraction_part(chars@)),
        },
{
    let ghost frac = fraction_part(chars@);
    let n = chars.len();
    if whole >= n {
        return Some((0, 0));
    }
    let first = whole + 1;
    let mut milli: u32 = 0;
    let mut j: usize = first;
    while j < n
        invariant
            n == chars.len(),
            first == whole + 1,
            first <= j <= n,
            frac == fraction_part(chars@),
            frac == chars@.skip(first as int),
            forall|k: int| 0 <= k < j - first ==> is_digit(#[trigger] frac[k]),
            milli == if j - first >= 3 {
                fraction_milli(frac)
            } else if j - first == 2 {
                100 * digit_at(frac, 0) + 10 * digit_at(frac, 1)
            } else if j - first == 1 {
                100 * digit_at(frac, 0)
            } else {
                0
            },
            milli <= 999,
        decreases n - j,
    {
        let c = chars[j];
        assert(frac[j - first] == c);
        if !char_is_digit(c) {
            return None;
        }
        let place = j - first;
        if place == 0 {
            milli = 100 * digit_of(c) as u32;
        } else if place == 1 {
            milli = milli + 10 * digit_of(c) as u32;
        } else if place == 2 {
            milli = milli + digit_of(c) as u32;
        }
        j += 1;
    }
    Some((n - first, milli))
}

impl Measurement {
    /// The measurement of `milli` thousandths.
    pub fn from_milli(milli: u32) -> (m: Measurement)
        ensures
            m@ == milli,
    {
        Measurement { milli }
    }

    /// The measurement in thousandths of its unit.
    pub fn milli(self) -> (n: u32)
        ensures
            n == self@,
    {
        self.milli
    }

    /// Reads a measurement. The text must be a decimal number, and its value in
    /// thousandths must fit the type; digits after the third decimal place are
    /// dropped. Anything else gives `None`.
    pub fn parse(text: &str) -> (r: Option<Measurement>)
        ensures
            measured(r) == read(text@),
    {
        let chars = chars_of(text);
        let (whole_len, whole) = match read_whole(&chars) {
            Some(found) => found,
            None => {
                return None;
            },
        };
        let (fraction_len, fraction) = match read_fraction(&chars, whole_len) {
            Some(found) => found,
            None => {
                return None;
            },
        };
        if whole_len == 0 && fraction_len == 0 {
            return None;
        }
        if whole >= WHOLE_CAP {
            return None;
        }
        let total: u64 = whole * 1000 + fraction as u64;
        if total > u32::MAX as u64 {
            None
        } else {
            Some(Measurement { milli: total as u32 })
        }
    }

    /// The written form of the measurement, which [`Measurement::parse`] reads back.
    pub fn to_text(self) -> (text: String)
        ensures
            text@ == formatted(self@),
    {
        let mut text = String::new();
        push_decimal(&mut text, self.milli / 1000);
        let rest = self.milli % 1000;
        if rest != 0 {
            text.push('.');
            text.push(digit_for(rest / 100));
            if rest % 10 != 0 {
                text.push(digit_for(rest / 10 % 10));
                text.push(digit_for(rest % 10));
            } else if rest / 10 % 10 != 0 {
                text.push(digit_for(rest / 10 % 10));
            }
        }
        text
    }
}

/// The text that shows a measurement beside an entry.
pub fn label(m: Option<Measurement>) -> (text: String)
    ensures
        text@ == labelled(measured(m)),
{
    match m {
        Some(m) => m.to_text(),
        None => {
            let mut text = String::new();
            text.push('-');
            text.push('-');
            text
        },
    }
}

/// The whole part is no longer than the text.
pub proof fn lemma_whole_len_within(s: Seq<char>)
    ensures
        whole_len(s) <= s.len(),
    decreases s.len(),
{
    if s.len() > 0 && s.first() != '.' {
        lemma_whole_len_within(s.drop_first());
    }
}

/// Where no decimal point stands among the first `i` characters, the whole part is at
/// least `i` long, and exactly `i` long where the text ends there or a point follows.
pub proof fn lemma_whole_len(s: Seq<char>, i: int)
    requires
        0 <= i <= s.len(),
        forall|k: int| 0 <= k < i ==> s[k] != '.',
    ensures
        i <= whole_len(s) <= s.len(),
        (i == s.len() || s[i] == '.') ==> whole_len(s) == i,
    decreases i,
{
    lemma_whole_len_within(s);
    if i > 0 {
        let t = s.drop_first();
        assert forall|k: int| 0 <= k < i - 1 implies t[k] != '.' by {
            assert(t[k] == s[k + 1]);
        }
        assert(s.first() == s[0]);
        lemma_whole_len(t, i - 1);
        if i < s.len() {
            assert(t[i - 1] == s[i]);
        }
    }
}

/// The decimal digits of a number are digits, at least one, and write that number.
pub proof fn lemma_decimal(n: nat)
    ensures
        decimal(n).len() >= 1,
        all_digits(decimal(n)),
        digits_value(decimal(n)) == n,
    decreases n,
{
    if n < 10 {
        let s = decimal(n);
        assert(s.drop_last() =~= Seq::<char>::empty());
        assert(digits_value(s.drop_last()) == 0);
    } else {
        lemma_decimal(n / 10);
        let s = decimal(n);
        assert(s.drop_last() =~= decimal(n / 10));
        assert(s.last() == digit_char(n % 10));
    }
}

/// The digits that write a fraction are digits, at most three, and write that
/// fraction.
pub proof fn lemma_fraction_digits(milli: nat)
    requires
        1 <= milli <= 999,
    ensures
        1 <= fraction_digits(milli).len() <= 3,
        all_digits(fraction_digits(milli)),
        fraction_milli(fraction_digits(milli)) == milli,
{
    let a = milli / 100;
    let b = milli / 10 % 10;
    let c = milli % 10;
    assert(milli == 100 * a + 10 * b + c);
    assert(digit_value(digit_char(a)) == a && is_digit(digit_char(a)));
    assert(digit_value(digit_char(b)) == b && is_digit(digit_char(b)));
    assert(digit_value(digit_char(c)) == c && is_digit(digit_char(c)));
}

/// Reading the written form of a measurement gives the measurement back.
pub proof fn lemma_parsed_formatted(milli: nat)
    ensures
        parsed(formatted(milli)) == Some(milli),
        milli <= u32::MAX ==> read(formatted(milli)) == Some(milli),
{
    let q = milli / 1000;
    let r = milli % 1000;
    let s = formatted(milli);
    let d = decimal(q);
    lemma_decimal(q);
    if r == 0 {
        lemma_whole_len(s, s.len() as int);
        assert(whole_part(s) =~= d);
        assert(fraction_part(s) =~= Seq::<char>::empty());
    } else {
        let f = fraction_digits(r);
        lemma_fraction_digits(r);
        assert(s =~= d.push('.') + f);
        assert(s[d.len() as int] == '.');
        assert forall|k: int| 0 <= k < d.len() implies s[k] != '.' by {
            assert(s[k] == d[k]);
            assert(is_digit(d[k]));
        }
        lemma_whole_len(s, d.len() as int);
        assert(whole_part(s) =~= d);
        assert(fraction_part(s) =~= f);
    }
}

/// The empty text writes no measurement.
pub proof fn lemma_nothing_read_from_nothing()
    ensures
        read(Seq::<char>::empty()) is None,
{
}

/// A numeric field stays numeric whatever is typed into it, wherever its cursor
/// stands: with `c` taken in between `before` and `after`, the text is still digits and
/// at most one decimal point.
pub proof fn lemma_numeric_stays(before: Seq<char>, after: Seq<char>, c: char)
    requires
        numeric(before + after),
        accepts(before + after, c),
    ensures
        numeric(before.push(c) + after),
{
    let old_text = before + after;
    let new_text = before.push(c) + after;
    let at = before.len() as int;
    assert forall|i: int| 0 <= i < new_text.len() implies is_digit(#[trigger] new_text[i])
        || new_text[i] == '.' by {
        if i < at {
            assert(new_text[i] == old_text[i]);
        } else if i > at {
            assert(new_text[i] == old_text[i - 1]);
        }
    }
    assert forall|i: int, j: int|
        0 <= i < new_text.len() && 0 <= j < new_text.len() && new_text[i] == '.' && new_text[j]
            == '.' implies i == j by {
        let oi = if i < at { i } else { i - 1 };
        let oj = if j < at { j } else { j - 1 };
        if i != at {
            assert(new_text[i] == old_text[oi]);
        }
        if j != at {
            assert(new_text[j] == old_text[oj]);
        }
        if c == '.' {
            assert(!old_text.contains('.'));
            assert(i != at ==> old_text.contains(old_text[oi]));
            assert(j != at ==> old_text.contains(old_text[oj]));
        }
    }
}

/// What was typed into a numeric field is a decimal number as soon as it holds a
/// digit: it is read unless its value is too large for the type.
pub proof fn lemma_numeric_is_parsed(s: Seq<char>)
    requires
        numeric(s),
    ensures
        parsed(s) is Some <==> exists|i: int| 0 <= i < s.len() && is_digit(s[i]),
{
    lemma_whole_len_within(s);
    let w = whole_len(s) as int;
    let whole = whole_part(s);
    let frac = fraction_part(s);
    assert forall|k: int| 0 <= k < w implies s[k] != '.' by {
        lemma_no_point_in_whole(s, k);
    }
    assert(all_digits(whole)) by {
        assert forall|k: int| 0 <= k < whole.len() implies is_digit(#[trigger] whole[k]) by {
            assert(whole[k] == s[k]);
        }
    }
    if w < s.len() {
        lemma_whole_len(s, w);
        assert(s[w] == '.') by {
            lemma_point_after_whole(s);
        }
        assert(all_digits(frac)) by {
            assert forall|k: int| 0 <= k < frac.len() implies is_digit(#[trigger] frac[k]) by {
                assert(frac[k] == s[w + 1 + k]);
            }
        }
    }
    if exists|i: int| 0 <= i < s.len() && is_digit(s[i]) {
        assert(whole.len() + frac.len() > 0);
    }
    if parsed(s) is Some {
        if whole.len() > 0 {
            assert(is_digit(whole[0]));
            assert(whole[0] == s[0]);
        } else {
            assert(is_digit(frac[0]));
            assert(frac[0] == s[w + 1]);
        }
    }
}

/// No decimal point stands in the whole part.
pub proof fn lemma_no_point_in_whole(s: Seq<char>, k: int)
    requires
        0 <= k < whole_len(s),
    ensures
        k < s.len(),
        s[k] != '.',
    decreases k,
{
    if k > 0 {
        lemma_no_point_in_whole(s.drop_first(), k - 1);
    }
}

/// Where the whole part is not all of the text, a decimal point follows it.
pub proof fn lemma_point_after_whole(s: Seq<char>)
    requires
        whole_len(s) < s.len(),
    ensures
        s[whole_len(s) as int] == '.',
    decreases s.len(),
{
    if s.first() != '.' {
        lemma_point_after_whole(s.drop_first());
    }
}

} // verus!
