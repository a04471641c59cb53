//! Amounts of money as exact decimals.
//!
//! An amount is a whole number of hundredths, never negative. Text is read
//! as a decimal number and rounded to the nearest hundredth, halves away
//! from zero; sums and differences of amounts are then exact.

use crate::text::{chars_of, string_of};
use vstd::prelude::*;

verus! {

/// The largest amount, in hundredths.
pub const MAX_HUNDREDTHS: u64 = 1_000_000_000_000_000_000;

/// A decimal digit.
pub open spec fn is_digit(c: char) -> bool {
    0x30 <= c as u32 <= 0x39
}

/// The value of a decimal digit.
pub open spec fn digit_value(c: char) -> nat {
    (c as u32 - 0x30) as nat
}

/// The digit that stands for `d`, for `d` below ten.
pub open spec fn digit_char(d: nat) -> char {
    if d == 0 {
        '0'
    } else if d == 1 {
        '1'
    } else if d == 2 {
        '2'
    } else if d == 3 {
        '3'
    } else if d == 4 {
        '4'
    } else if d == 5 {
        '5'
    } else if d == 6 {
        '6'
    } else if d == 7 {
        '7'
    } else if d == 8 {
        '8'
    } else {
        '9'
    }
}

/// The characters that survive scrubbing: digits, the point and the minus.
pub open spec fn is_amount_char(c: char) -> bool {
    is_digit(c) || c == '.' || c == '-'
}

/// `s` with every character removed that is not a digit, `.` or `-`.
pub open spec fn scrubbed(s: Seq<char>) -> Seq<char>
    decreases s.len(),
{
    if s.len() == 0 {
        s
    } else if is_amount_char(s.last()) {
        scrubbed(s.drop_last()).push(s.last())
    } else {
        scrubbed(s.drop_last())
    }
}

/// Every character of `s` is a digit.
pub open spec fn all_digits(s: Seq<char>) -> bool {
    forall|i: int| 0 <= i < s.len() ==> is_digit(#[trigger] s[i])
}

/// The number that the digits `s` write in base ten; 0 for no digits.
pub open spec fn digits_value(s: Seq<char>) -> nat
    decreases s.len(),
{
    if s.len() == 0 {
        0
    } else {
        digits_value(s.drop_last()) * 10 + digit_value(s.last())
    }
}

/// The index of the first `.` in `s`, or the length of `s` when it has none.
pub open spec fn point_index(s: Seq<char>) -> int
    decreases s.len(),
{
    if s.len() == 0 {
        0
    } else if s[0] == '.' {
        0
    } else {
        1 + point_index(s.drop_first())
    }
}

/// The digits before the point.
pub open spec fn whole_part(s: Seq<char>) -> Seq<char> {
    s.take(point_index(s))
}

/// The characters after the first point; none when there is no point.
pub open spec fn fraction_part(s: Seq<char>) -> Seq<char> {
    if point_index(s) < s.len() {
        s.skip(point_index(s) + 1)
    } else {
        Seq::empty()
    }
}

/// The hundredths that the fraction digits `f` stand for, rounded on the
/// third digit: five and above round up.
pub open spec fn fraction_hundredths(f: Seq<char>) -> nat {
    let tenths = if f.len() > 0 {
        digit_value(f[0])
    } else {
        0
    };
    let hundredths = if f.len() > 1 {
        digit_value(f[1])
    } else {
        0
    };
    let carry: nat = if f.len() > 2 && digit_value(f[2]) >= 5 {
        1
    } else {
        0
    };
    tenths * 10 + hundredths + carry
}

/// The hundredths that the unsigned decimal `s` stands for. `s` is a
/// decimal when it is digits, at most one point among them, and at least one
/// digit: `12`, `12.`, `.5` and `12.50` are, `.` and the empty text are not.
pub open spec fn magnitude(s: Seq<char>) -> Option<nat> {
    let whole = whole_part(s);
    let fraction = fraction_part(s);
    if all_digits(whole) && all_digits(fraction) && whole.len() + fraction.len() > 0 {
        Some(digits_value(whole) * 100 + fraction_hundredths(fraction))
    } else {
        None
    }
}

/// The hundredths that the decimal `s` stands for: an unsigned decimal,
/// or one with a single leading minus.
pub open spec fn decimal_hundredths(s: Seq<char>) -> Option<int> {
    if s.len() > 0 && s[0] == '-' {
        match magnitude(s.skip(1)) {
            Some(m) => Some(-(m as int)),
            None => None,
        }
    } else {
        match magnitude(s) {
            Some(m) => Some(m as int),
            None => None,
        }
    }
}

/// The amount, in hundredths, that the text `raw` holds: `raw` is scrubbed,
/// what is left must be a decimal, and once rounded it must be neither
/// negative nor beyond `MAX_HUNDREDTHS`.
pub open spec fn parsed_amount(raw: Seq<char>) -> Option<nat> {
    match decimal_hundredths(scrubbed(raw)) {
        Some(h) => if 0 <= h <= MAX_HUNDREDTHS {
            Some(h as nat)
        } else {
            None
        },
        None => None,
    }
}

/// The digits of `n` in base ten, most significant first; none for 0.
pub open spec fn digits_of(n: nat) -> Seq<char>
    decreases n,
{
    if n == 0 {
        Seq::empty()
    } else {
        digits_of(n / 10).push(digit_char(n % 10))
    }
}

/// `n` written in base ten.
pub open spec fn decimal_text(n: nat) -> Seq<char> {
    if n == 0 {
        seq!['0']
    } else {
        digits_of(n)
    }
}

/// `m` hundredths written with two decimals: `1250` reads `12.50`.
pub open spec fn magnitude_text(m: nat) -> Seq<char> {
    decimal_text(m / 100) + seq!['.', digit_char(m % 100 / 10), digit_char(m % 10)]
}

/// An amount of money: a whole number of hundredths, at most
/// `MAX_HUNDREDTHS`.
#[derive(Debug, Clone, Copy, PartialEq, Eq)]
pub struct Amount {
    hundredths: u64,
}

impl View for Amount {
    type V = nat;

    closed spec fn view(&self) -> nat {
        self.hundredths as nat
    }
}

impl Amount {
    #[verifier::type_invariant]
    spec fn in_range(self) -> bool {
        self.hundredths <= MAX_HUNDREDTHS
    }

    /// The amount of `hundredths` hundredths, if that is within the limit.
    pub fn new(hundredths: u64) -> (amount: Option<Amount>)
        ensures
            amount is Some <==> hundredths <= MAX_HUNDREDTHS,
            amount matches Some(a) ==> a@ == hundredths,
    {
        if hundredths <= MAX_HUNDREDTHS {
            Some(Amount { hundredths })
        } else {
            None
        }
    }

    /// The amount in hundredths.
    pub fn hundredths(&self) -> (h: u64)
        ensures
            h == self@,
            h <= MAX_HUNDREDTHS,
    {
        proof {
            use_type_invariant(self);
        }
        self.hundredths
    }

    /// The amount written with two decimals.
    pub fn to_text(&self) -> (text: String)
        ensures
            text@ == magnitude_text(self@),
    {
        format_magnitude(self.hundredths as u128)
    }
}

/// `point_index(s)` is within `s`, no point comes before it, and a point
/// stands at it unless it is the length of `s`.
pub proof fn lemma_point_index(s: Seq<char>)
    ensures
        0 <= point_index(s) <= s.len(),
        forall|k: int| 0 <= k < point_index(s) ==> s[k] != '.',
        point_index(s) < s.len() ==> s[point_index(s)] == '.',
    decreases s.len(),
{
    if s.len() > 0 && s[0] != '.' {
        let rest = s.drop_first();
        lemma_point_index(rest);
        assert forall|k: int| 0 <= k < point_index(s) implies s[k] != '.' by {
            if k > 0 {
                assert(s[k] == rest[k - 1]);
            }
        }
    }
}

/// The only index that no point comes before and that holds a point, or is
/// the length of `s`, is `point_index(s)`.
pub proof fn lemma_point_index_is(s: Seq<char>, p: int)
    requires
        0 <= p <= s.len(),
        forall|k: int| 0 <= k < p ==> s[k] != '.',
        p < s.len() ==> s[p] == '.',
    ensures
        point_index(s) == p,
{
    lemma_point_index(s);
}

/// A prefix of digits is worth no more than the whole.
pub proof fn lemma_digits_value_prefix(s: Seq<char>, k: int)
    requires
        0 <= k <= s.len(),
    ensures
        digits_value(s.take(k)) <= digits_value(s),
    decreases s.len(),
{
    if k == s.len() {
        assert(s.take(k) == s);
    } else {
        lemma_digits_value_prefix(s.drop_last(), k);
        assert(s.drop_last().take(k) == s.take(k));
    }
}

/// A digit character stands for the value it was made from.
pub proof fn lemma_digit_char(d: nat)
    requires
        d < 10,
    ensures
        is_digit(digit_char(d)),
        digit_value(digit_char(d)) == d,
        is_amount_char(digit_char(d)),
        digit_char(d) != '.',
        digit_char(d) != '-',
{
}

/// The digits of a number are digits, and they write that number.
pub proof fn lemma_digits_of(n: nat)
    ensures
        all_digits(digits_of(n)),
        digits_value(digits_of(n)) == n,
        n > 0 ==> digits_of(n).len() > 0,
    decreases n,
{
    if n > 0 {
        lemma_digits_of(n / 10);
        let head = digits_of(n / 10);
        let all = digits_of(n);
        assert(all.drop_last() == head);
    }
}

/// Scrubbing leaves a text of digits, points and minus signs as it is.
pub proof fn lemma_scrubbed_keeps(s: Seq<char>)
    requires
        forall|i: int| 0 <= i < s.len() ==> is_amount_char(#[trigger] s[i]),
    ensures
        scrubbed(s) == s,
    decreases s.len(),
{
    if s.len() > 0 {
        let head = s.drop_last();
        lemma_scrubbed_keeps(head);
    }
}

/// A magnitude written with two decimals reads as that magnitude.
pub proof fn lemma_magnitude_text(m: nat)
    ensures
        magnitude(magnitude_text(m)) == Some(m),
        forall|i: int|
            0 <= i < magnitude_text(m).len() ==> is_amount_char(#[trigger] magnitude_text(m)[i]),
        magnitude_text(m).len() > 0,
        magnitude_text(m)[0] != '-',
{
    let whole = decimal_text(m / 100);
    let tenths = digit_char(m % 100 / 10);
    let hundredths = digit_char(m % 10);
    let t = magnitude_text(m);
    lemma_digits_of(m / 100);
    lemma_digit_char(0);
    lemma_digit_char(m % 100 / 10);
    lemma_digit_char(m % 10);
    assert(all_digits(whole) && digits_value(whole) == m / 100 && whole.len() > 0) by {
        if m / 100 == 0 {
            assert(whole.drop_last() == Seq::<char>::empty());
            assert(digits_value(whole.drop_last()) == 0);
            assert(whole.last() == '0');
        }
    }
    assert forall|k: int| 0 <= k < whole.len() implies t[k] != '.' by {
        assert(t[k] == whole[k]);
        assert(is_digit(whole[k]));
    }
    assert(t[whole.len() as int] == '.');
    lemma_point_index_is(t, whole.len() as int);
    assert(whole_part(t) == whole);
    let fraction = fraction_part(t);
    assert(fraction == seq![tenths, hundredths]);
    assert(all_digits(fraction)) by {
        assert forall|i: int| 0 <= i < fraction.len() implies is_digit(#[trigger] fraction[i]) by {
            if i == 0 {
                assert(fraction[i] == tenths);
            } else {
                assert(fraction[i] == hundredths);
            }
        }
    }
    assert(fraction_hundredths(fraction) == m % 100) by {
        assert(fraction[0] == tenths);
        assert(fraction[1] == hundredths);
    }
    assert forall|i: int| 0 <= i < t.len() implies is_amount_char(#[trigger] t[i]) by {
        if i < whole.len() {
            assert(t[i] == whole[i]);
            assert(is_digit(whole[i]));
        } else if i == whole.len() {
        } else if i == whole.len() + 1 {
            assert(t[i] == tenths);
        } else {
            assert(t[i] == hundredths);
        }
    }
    assert(t[0] == whole[0]);
    assert(is_digit(whole[0]));
}

/// What is written is read back: an amount within the limit, written with
/// two decimals, reads as that amount.
pub proof fn lemma_amount_text_round_trip(h: nat)
    requires
        h <= MAX_HUNDREDTHS,
    ensures
        parsed_amount(magnitude_text(h)) == Some(h),
{
    lemma_magnitude_text(h);
    lemma_scrubbed_keeps(magnitude_text(h));
}

fn is_digit_char(c: char) -> (b: bool)
    ensures
        b == is_digit(c),
{
    let u: u32 = c as u32;
    0x30 <= u && u <= 0x39
}

fn value_of_digit(c: char) -> (d: u64)
    requires
        is_digit(c),
    ensures
        d == digit_value(c),
        d < 10,
{
    let u: u32 = c as u32;
    (u - 0x30) as u64
}

/// The characters of `raw` that are digits, `.` or `-`.
fn scrub(raw: &Vec<char>) -> (out: Vec<char>)
    ensures
        out@ == scrubbed(raw@),
{
    let mut out: Vec<char> = Vec::new();
    let mut i: usize = 0;
    while i < raw.len()
        invariant
            i <= raw.len(),
            out@ == scrubbed(raw@.take(i as int)),
        decreases raw.len() - i,
    {
        let c = raw[i];
        proof {
            assert(raw@.take(i + 1).drop_last() == raw@.take(i as int));
        }
        if is_digit_char(c) || c == '.' || c == '-' {
            out.push(c);
        }
        i += 1;
    }
    assert(raw@.take(raw.len() as int) == raw@);
    out
}

/// Reads the unsigned decimal `t[start..]`.
#[verifier::loop_isolation(false)]
fn read_magnitude(t: &Vec<char>, start: usize) -> (r: Option<u64>)
    requires
        start <= t.len(),
    ensures
        r == match magnitude(t@.skip(start as int)) {
            Some(m) => if m <= MAX_HUNDREDTHS {
                Some(m as u64)
            } else {
                None
            },
            None => None,
        },
{
    let ghost s = t@.skip(start as int);
    let n = t.len();
    let mut i: usize = start;
    let mut whole: u64 = 0;
    while i < n && t[i] != '.'
        invariant
            start <= i <= n,
            n == t.len(),
            s == t@.skip(start as int),
            forall|k: int| 0 <= k < i - start ==> s[k] != '.' && is_digit(s[k]),
            whole == digits_value(s.take(i - start)),
            whole <= 10_000_000_000_000_000,
        decreases n - i,
    {
        let c = t[i];
        proof {
            lemma_point_index(s);
            assert(s.take(i - start + 1).drop_last() == s.take(i - start));
            assert(s.take(i - start + 1).last() == c);
        }
        if !is_digit_char(c) {
            return None;
        }
        whole = whole * 10 + value_of_digit(c);
        if whole > 10_000_000_000_000_000 {
            proof {
                lemma_digits_value_prefix(whole_part(s), i - start + 1);
                assert(whole_part(s).take(i - start + 1) == s.take(i - start + 1));
            }
            return None;
        }
        i += 1;
    }
    proof {
        lemma_point_index_is(s, i - start);
    }
    let mut tenths: u64 = 0;
    let mut hundredths: u64 = 0;
    let mut carry: u64 = 0;
    let mut fraction_len: usize = 0;
    if i < n {
        let first = i + 1;
        let ghost f = fraction_part(s);
        let mut j: usize = first;
        while j < n
            invariant
                first <= j <= n,
                n == t.len(),
                f == t@.subrange(first as int, n as int),
                forall|k: int| 0 <= k < j - first ==> is_digit(#[trigger] f[k]),
                tenths == if j > first {
                    digit_value(f[0])
                } else {
                    0
                },
                hundredths == if j > first + 1 {
                    digit_value(f[1])
                } else {
                    0
                },
                carry == if j > first + 2 && digit_value(f[2]) >= 5 {
                    1nat
                } else {
                    0nat
                },
                tenths < 10,
                hundredths < 10,
            decreases n - j,
        {
            let c = t[j];
            assert(f[j - first] == c);
            if !is_digit_char(c) {
                return None;
            }
            let d = value_of_digit(c);
            if j == first {
                tenths = d;
            } else if j == first + 1 {
                hundredths = d;
            } else if j == first + 2 {
                if d >= 5 {
                    carry = 1;
                }
            }
            j += 1;
        }
        fraction_len = n - first;
    }
    if i - start == 0 && fraction_len == 0 {
        return None;
    }
    let m: u64 = whole * 100 + tenths * 10 + hundredths + carry;
    if m > 1_000_000_000_000_000_000 {
        None
    } else {
        Some(m)
    }
}

/// Reads an amount, in hundredths, out of `raw`.
///
/// Every character but digits, `.` and `-` is dropped first. What is left
/// must be a decimal number, which a single `-` may lead; it is rounded to
/// the nearest hundredth, halves away from zero. The result is `None` when
/// the text holds no such number, and when the rounded number is negative or
/// beyond `MAX_HUNDREDTHS`.
pub fn parse_hundredths(raw: &str) -> (r: Option<u64>)
    ensures
        r == match parsed_amount(raw@) {
            Some(h) => Some(h as u64),
            None => None,
        },
{
    let chars = chars_of(raw);
    let t = scrub(&chars);
    if t.len() > 0 && t[0] == '-' {
        match read_magnitude(&t, 1) {
            Some(m) => if m == 0 {
                Some(0)
            } else {
                None
            },
            None => None,
        }
    } else {
        assert(t@.skip(0) == t@);
        match read_magnitude(&t, 0) {
            Some(m) => Some(m),
            None => None,
        }
    }
}

/// Reads an amount out of `raw`, as [`parse_hundredths`] does.
pub fn parse_amount(raw: &str) -> (r: Option<Amount>)
    ensures
        r is Some <==> parsed_amount(raw@) is Some,
        r matches Some(a) ==> parsed_amount(raw@) == Some(a@),
{
    match parse_hundredths(raw) {
        Some(h) => Some(Amount { hundredths: h }),
        None => None,
    }
}

fn digit_of(d: u8) -> (c: char)
    requires
        d < 10,
    ensures
        c == digit_char(d as nat),
{
    if d == 0 {
        '0'
    } else if d == 1 {
        '1'
    } else if d == 2 {
        '2'
    } else if d == 3 {
        '3'
    } else if d == 4 {
        '4'
    } else if d == 5 {
        '5'
    } else if d == 6 {
        '6'
    } else if d == 7 {
        '7'
    } else if d == 8 {
        '8'
    } else {
        '9'
    }
}

/// Appends `n` in base ten to `out`.
pub fn push_decimal(out: &mut Vec<char>, n: u128)
    ensures
        final(out)@ == old(out)@ + decimal_text(n as nat),
{
    if n == 0 {
        out.push('0');
        return ;
    }
    // The digits come out lowest first; they are pushed in reverse.
    let mut low_first: Vec<char> = Vec::new();
    let mut m: u128 = n;
    while m > 0
        invariant
            digits_of(n as nat) == digits_of(m as nat) + low_first@.reverse(),
        decreases m,
    {
        let ghost before = low_first@;
        let d: u8 = (m % 10) as u8;
        low_first.push(digit_of(d));
        assert(low_first@.reverse() == seq![digit_char(d as nat)] + before.reverse());
        m = m / 10;
    }
    let ghost digits = low_first@.reverse();
    let mut i: usize = low_first.len();
    while i > 0
        invariant
            i <= low_first.len(),
            digits == low_first@.reverse(),
            out@ == old(out)@ + digits.take(low_first.len() - i),
        decreases i,
    {
        i -= 1;
        out.push(low_first[i]);
    }
    assert(digits.take(low_first.len() as int) == digits);
}

/// `n` written in base ten.
pub fn decimal_string(n: usize) -> (text: String)
    ensures
        text@ == decimal_text(n as nat),
{
    let mut out: Vec<char> = Vec::new();
    push_decimal(&mut out, n as u128);
    string_of(out)
}

/// Appends `m` hundredths, written with two decimals, to `out`.
fn push_magnitude(out: &mut Vec<char>, m: u128)
    ensures
        final(out)@ == old(out)@ + magnitude_text(m as nat),
{
    push_decimal(out, m / 100);
    out.push('.');
    out.push(digit_of((m % 100 / 10) as u8));
    out.push(digit_of((m % 10) as u8));
}

/// The distance of `h` from zero.
pub fn distance(h: i128) -> (m: u128)
    ensures
        m == if h < 0 {
            -h
        } else {
            h as int
        },
{
    if h >= 0 {
        h as u128
    } else if h == i128::MIN {
        i128::MAX as u128 + 1
    } else {
        (-h) as u128
    }
}

/// `m` hundredths written with two decimals.
pub fn format_magnitude(m: u128) -> (text: String)
    ensures
        text@ == magnitude_text(m as nat),
{
    let mut out: Vec<char> = Vec::new();
    push_magnitude(&mut out, m);
    string_of(out)
}

} // verus!
