//! Decimal literals. A number of a scene description is kept as the literal
//! that the text holds, so that nothing is rounded before a renderer reads
//! it; an integer parameter is read to its value.

use crate::text::{byte_at, copy_bytes, digit, is_digit, same_bytes};
use vstd::prelude::*;

verus! {

/// The first index at or after `i` that holds no digit.
pub open spec fn digits_end(s: Seq<u8>, i: int) -> int
    decreases s.len() - i,
{
    if 0 <= i < s.len() && is_digit(s[i]) {
        digits_end(s, i + 1)
    } else {
        i
    }
}

/// The index after an optional sign at `i`.
pub open spec fn after_sign(s: Seq<u8>, i: int) -> int {
    if byte_at(s, i) == 43 || byte_at(s, i) == 45 {
        i + 1
    } else {
        i
    }
}

/// The end of the mantissa that starts at `start`: an optional sign, then
/// digits with an optional dot and further digits, or a dot and at least one
/// digit. `None` where no mantissa starts there.
pub open spec fn mantissa_end(s: Seq<u8>, start: int) -> Option<int> {
    let i0 = after_sign(s, start);
    let i1 = digits_end(s, i0);
    if i1 > i0 {
        if byte_at(s, i1) == 46 {
            Some(digits_end(s, i1 + 1))
        } else {
            Some(i1)
        }
    } else if byte_at(s, i0) == 46 && digits_end(s, i0 + 1) > i0 + 1 {
        Some(digits_end(s, i0 + 1))
    } else {
        None
    }
}

/// The end of the optional exponent at `i`: `e` or `E`, an optional sign and
/// at least one digit. Where no complete exponent stands there, `i` itself.
pub open spec fn exponent_end(s: Seq<u8>, i: int) -> int {
    if byte_at(s, i) == 101 || byte_at(s, i) == 69 {
        let j = after_sign(s, i + 1);
        let k = digits_end(s, j);
        if k > j {
            k
        } else {
            i
        }
    } else {
        i
    }
}

/// The end of the longest number literal that starts at `start`, or `None`
/// where none starts there.
pub open spec fn number_end(s: Seq<u8>, start: int) -> Option<int> {
    match mantissa_end(s, start) {
        Some(m) => Some(exponent_end(s, m)),
        None => None,
    }
}

/// Whether all of `s` is one number literal: a signed decimal, with or
/// without a fraction and an exponent.
pub open spec fn is_number(s: Seq<u8>) -> bool {
    number_end(s, 0) == Some(s.len() as int)
}

/// Whether all of `s` is one integer literal: an optional sign and digits,
/// the first of which is `0` only where it is the only one.
pub open spec fn is_integer(s: Seq<u8>) -> bool {
    let i0 = after_sign(s, 0);
    &&& i0 < s.len()
    &&& digits_end(s, i0) == s.len()
    &&& (s[i0] != 48 || s.len() == i0 + 1)
}

/// The value of a sequence of digits, read in base ten.
pub open spec fn digits_value(d: Seq<u8>) -> int
    decreases d.len(),
{
    if d.len() == 0 {
        0
    } else {
        digits_value(d.drop_last()) * 10 + (d.last() - 48)
    }
}

/// The value of an integer literal.
pub open spec fn integer_value(s: Seq<u8>) -> int {
    let i0 = after_sign(s, 0);
    let magnitude = digits_value(s.subrange(i0, s.len() as int));
    if byte_at(s, 0) == 45 {
        -magnitude
    } else {
        magnitude
    }
}

pub proof fn lemma_digits_end_bounds(s: Seq<u8>, i: int)
    requires
        0 <= i <= s.len(),
    ensures
        i <= digits_end(s, i) <= s.len(),
        forall|j: int| i <= j < digits_end(s, i) ==> is_digit(#[trigger] s[j]),
        byte_at(s, digits_end(s, i)) == -1 || !is_digit(s[digits_end(s, i)]),
    decreases s.len() - i,
{
    if i < s.len() && is_digit(s[i]) {
        lemma_digits_end_bounds(s, i + 1);
    }
}

/// A run of digits ends where the first byte that is no digit stands.
pub proof fn lemma_digits_end_is(s: Seq<u8>, i: int, e: int)
    requires
        0 <= i <= e <= s.len(),
        forall|j: int| i <= j < e ==> is_digit(#[trigger] s[j]),
        e == s.len() || !is_digit(s[e]),
    ensures
        digits_end(s, i) == e,
    decreases e - i,
{
    if i < e {
        lemma_digits_end_is(s, i + 1, e);
    }
}

/// Cutting a text down to a window does not move the end of a run of digits
/// that lies inside the window.
pub proof fn lemma_digits_end_window(s: Seq<u8>, a: int, e: int, i: int)
    requires
        0 <= a <= i <= e <= s.len(),
        digits_end(s, i) <= e,
    ensures
        digits_end(s.subrange(a, e), i - a) == digits_end(s, i) - a,
{
    let t = s.subrange(a, e);
    let d = digits_end(s, i);
    lemma_digits_end_bounds(s, i);
    assert forall|j: int| i - a <= j < d - a implies is_digit(#[trigger] t[j]) by {
        assert(t[j] == s[j + a]);
    }
    if d < e {
        assert(t[d - a] == s[d]);
    }
    lemma_digits_end_is(t, i - a, d - a);
}

/// The literal that the scanner finds is a number when taken by itself.
pub proof fn lemma_number_window(s: Seq<u8>, start: int, e: int)
    requires
        0 <= start <= s.len(),
        number_end(s, start) == Some(e),
    ensures
        start < e <= s.len(),
        is_number(s.subrange(start, e)),
{
    let t = s.subrange(start, e);
    let i0 = after_sign(s, start);
    lemma_digits_end_bounds(s, i0);
    let i1 = digits_end(s, i0);
    if i0 + 1 <= s.len() {
        lemma_digits_end_bounds(s, i0 + 1);
    }
    if i1 + 1 <= s.len() {
        lemma_digits_end_bounds(s, i1 + 1);
    }
    let m = mantissa_end(s, start)->0;
    assert(start < m <= s.len());
    if m + 1 <= s.len() {
        let j = after_sign(s, m + 1);
        if j <= s.len() {
            lemma_digits_end_bounds(s, j);
        }
    }
    assert(m <= e <= s.len());
    assert forall|j: int| 0 <= j < e - start implies t[j] == s[j + start] by {}
    assert(after_sign(t, 0) == i0 - start);
    lemma_digits_end_window(s, start, e, i0);
    if i1 > i0 {
        if byte_at(s, i1) == 46 {
            lemma_digits_end_window(s, start, e, i1 + 1);
        }
    } else {
        lemma_digits_end_window(s, start, e, i0 + 1);
    }
    assert(mantissa_end(t, 0) == Some(m - start));
    if e > m {
        let j = after_sign(s, m + 1);
        assert(after_sign(t, m + 1 - start) == j - start);
        lemma_digits_end_window(s, start, e, j);
    }
    assert(exponent_end(t, m - start) == e - start);
}

/// The value of a run of digits does not shrink when digits are added
/// behind it.
pub proof fn lemma_digits_value_grows(d: Seq<u8>, k: int)
    requires
        0 <= k <= d.len(),
        forall|j: int| 0 <= j < d.len() ==> is_digit(#[trigger] d[j]),
    ensures
        0 <= digits_value(d.subrange(0, k)) <= digits_value(d),
    decreases d.len() - k,
{
    if k == d.len() {
        assert(d.subrange(0, k) =~= d);
        lemma_digits_value_nonnegative(d);
    } else {
        lemma_digits_value_grows(d, k + 1);
        let longer = d.subrange(0, k + 1);
        assert(longer.drop_last() =~= d.subrange(0, k));
        lemma_digits_value_nonnegative(d.subrange(0, k));
    }
}

pub proof fn lemma_digits_value_nonnegative(d: Seq<u8>)
    requires
        forall|j: int| 0 <= j < d.len() ==> is_digit(#[trigger] d[j]),
    ensures
        0 <= digits_value(d),
    decreases d.len(),
{
    if d.len() > 0 {
        lemma_digits_value_nonnegative(d.drop_last());
    }
}

/// The first index at or after `i` that holds no digit.
pub fn scan_digits(s: &[u8], i: usize) -> (r: usize)
    requires
        i <= s.len(),
    ensures
        r == digits_end(s@, i as int),
        i <= r <= s.len(),
{
    let mut k: usize = i;
    while k < s.len() && digit(s[k])
        invariant
            i <= k <= s.len(),
            digits_end(s@, i as int) == digits_end(s@, k as int),
        decreases s.len() - k,
    {
        k += 1;
    }
    k
}

/// The index after an optional sign at `i`.
pub fn skip_sign(s: &[u8], i: usize) -> (r: usize)
    requires
        i <= s.len(),
    ensures
        r == after_sign(s@, i as int),
        i <= r <= s.len(),
{
    if i < s.len() && (s[i] == 43 || s[i] == 45) {
        i + 1
    } else {
        i
    }
}

/// The end of the longest number literal that starts at `start`.
pub fn scan_number(s: &[u8], start: usize) -> (r: Option<usize>)
    requires
        start <= s.len(),
    ensures
        match r {
            Some(e) => number_end(s@, start as int) == Some(e as int) && start < e <= s.len(),
            None => number_end(s@, start as int) is None,
        },
{
    let i0: usize = skip_sign(s, start);
    let i1: usize = scan_digits(s, i0);
    let m: usize;
    if i1 > i0 {
        if i1 < s.len() && s[i1] == 46 {
            m = scan_digits(s, i1 + 1);
        } else {
            m = i1;
        }
    } else if i0 < s.len() && s[i0] == 46 {
        let f: usize = scan_digits(s, i0 + 1);
        if f > i0 + 1 {
            m = f;
        } else {
            return None;
        }
    } else {
        return None;
    }
    if m < s.len() && (s[m] == 101 || s[m] == 69) {
        let j: usize = skip_sign(s, m + 1);
        let k: usize = scan_digits(s, j);
        if k > j {
            return Some(k);
        }
    }
    Some(m)
}

/// The value of the integer literal `s`, where `s` is one and its value is
/// in the range of `i32`.
pub fn parse_integer(s: &[u8]) -> (r: Option<i32>)
    ensures
        r == (if is_integer(s@) && i32::MIN <= integer_value(s@) <= i32::MAX {
            Some(integer_value(s@) as i32)
        } else {
            None
        }),
{
    let i0: usize = skip_sign(s, 0);
    if i0 >= s.len() {
        return None;
    }
    let end: usize = scan_digits(s, i0);
    if end != s.len() {
        return None;
    }
    if s[i0] == 48 && s.len() != i0 + 1 {
        return None;
    }
    let negative: bool = s[0] == 45;
    let ghost d = s@.subrange(i0 as int, s.len() as int);
    proof {
        lemma_digits_end_bounds(s@, i0 as int);
        assert forall|j: int| 0 <= j < d.len() implies is_digit(#[trigger] d[j]) by {
            assert(d[j] == s@[j + i0]);
        }
    }
    let mut acc: i64 = 0;
    let mut k: usize = i0;
    while k < s.len()
        invariant
            i0 <= k <= s.len(),
            i0 == after_sign(s@, 0),
            d == s@.subrange(i0 as int, s.len() as int),
            forall|j: int| 0 <= j < d.len() ==> is_digit(#[trigger] d[j]),
            acc == digits_value(d.subrange(0, k - i0)),
            0 <= acc <= 2147483648,
        decreases s.len() - k,
    {
        let ghost longer = d.subrange(0, k + 1 - i0);
        proof {
            assert(d[k - i0] == s@[k as int]);
            assert(is_digit(d[k - i0]));
            assert(longer.drop_last() =~= d.subrange(0, k - i0));
            assert(longer.last() == s@[k as int]);
            assert(digits_value(longer) == digits_value(longer.drop_last()) * 10 + (longer.last()
                - 48));
            lemma_digits_value_grows(d, k + 1 - i0);
        }
        let digit_value: i64 = (s[k] - 48) as i64;
        acc = acc * 10 + digit_value;
        assert(acc == digits_value(longer));
        if acc > 2147483648 {
            assert(digits_value(d) > 2147483648);
            return None;
        }
        k += 1;
    }
    assert(d.subrange(0, k - i0) =~= d);
    if negative {
        Some((-acc) as i32)
    } else if acc == 2147483648 {
        None
    } else {
        Some(acc as i32)
    }
}

/// A number of a scene description: a decimal literal, kept as its text.
#[derive(Debug)]
pub struct Number {
    text: Vec<u8>,
}

impl View for Number {
    type V = Seq<u8>;

    closed spec fn view(&self) -> Seq<u8> {
        self.text@
    }
}

impl Number {
    #[verifier::type_invariant]
    spec fn well_formed(self) -> bool {
        is_number(self.text@)
    }

    /// The number whose literal is `text`, where `text` is a number literal.
    pub fn parse(text: &[u8]) -> (r: Option<Number>)
        ensures
            r is Some <==> is_number(text@),
            r matches Some(n) ==> n@ == text@,
    {
        match scan_number(text, 0) {
            Some(e) => {
                if e == text.len() {
                    let copy = copy_bytes(text, 0, e);
                    assert(copy@ =~= text@);
                    Some(Number { text: copy })
                } else {
                    None
                }
            },
            None => None,
        }
    }

    /// The number whose literal stands in `s` from `start` up to `end`, which
    /// is where the scanner found it.
    pub fn from_scan(s: &[u8], start: usize, end: usize) -> (r: Number)
        requires
            start <= s.len(),
            number_end(s@, start as int) == Some(end as int),
        ensures
            r@ == s@.subrange(start as int, end as int),
    {
        proof {
            lemma_number_window(s@, start as int, end as int);
        }
        Number { text: copy_bytes(s, start, end) }
    }

    /// The literal `0`.
    pub fn zero() -> (r: Number)
        ensures
            r@ == seq![48u8],
    {
        let mut text: Vec<u8> = Vec::new();
        text.push(48);
        proof {
            assert(text@ =~= seq![48u8]);
            reveal_with_fuel(digits_end, 3);
        }
        Number { text }
    }

    /// The literal `1`.
    pub fn one() -> (r: Number)
        ensures
            r@ == seq![49u8],
    {
        let mut text: Vec<u8> = Vec::new();
        text.push(49);
        proof {
            assert(text@ =~= seq![49u8]);
            reveal_with_fuel(digits_end, 3);
        }
        Number { text }
    }

    /// The literal, which is always a number literal.
    pub fn as_bytes(&self) -> (r: &Vec<u8>)
        ensures
            r@ == self@,
            is_number(self@),
    {
        proof {
            use_type_invariant(self);
        }
        &self.text
    }

    /// Whether two numbers have the same literal.
    pub fn same(&self, other: &Number) -> (r: bool)
        ensures
            r == (self@ == other@),
    {
        same_bytes(self.text.as_slice(), other.text.as_slice())
    }
}

impl Clone for Number {
    fn clone(&self) -> (r: Self)
        ensures
            r@ == self@,
    {
        proof {
            use_type_invariant(self);
        }
        Number { text: self.text.clone() }
    }
}

} // verus!
