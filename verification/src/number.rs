//! Numbers that a number input steps through: decimal text in and out,
//! steps that stop at the bounds, and the input's stepping state.

use crate::input::{InputView, TextInput, TextValidator};
use crate::utf::chars_of;
use std::marker::PhantomData;
use vstd::prelude::*;

verus! {

/// Whether `c` is an ASCII decimal digit.
pub open spec fn is_digit(c: char) -> bool {
    '0' <= c && c <= '9'
}

/// The value of a decimal digit.
pub open spec fn digit_value(c: char) -> int {
    c as int - '0' as int
}

/// Whether `d` is a non-empty run of decimal digits.
pub open spec fn all_digits(d: Seq<char>) -> bool {
    d.len() > 0 && forall|i: int| 0 <= i < d.len() ==> is_digit(#[trigger] d[i])
}

/// The value of a run of decimal digits, most significant first.
pub open spec fn digits_value(d: Seq<char>) -> int
    decreases d.len(),
{
    if d.len() == 0 {
        0
    } else {
        digits_value(d.drop_last()) * 10 + digit_value(d.last())
    }
}

/// What `str::parse` reads from decimal text for an integer type: an
/// optional `+` (or, where `signed`, `-`) followed by at least one digit,
/// and nothing else.
pub open spec fn parse_decimal(s: Seq<char>, signed: bool) -> Option<int> {
    if s.len() > 0 && s[0] == '+' {
        if all_digits(s.drop_first()) {
            Some(digits_value(s.drop_first()))
        } else {
            None
        }
    } else if signed && s.len() > 0 && s[0] == '-' {
        if all_digits(s.drop_first()) {
            Some(-digits_value(s.drop_first()))
        } else {
            None
        }
    } else if all_digits(s) {
        Some(digits_value(s))
    } else {
        None
    }
}

/// The digit character of `k`, for `k` below ten.
pub open spec fn digit_char(k: int) -> char {
    if k == 0 {
        '0'
    } else if k == 1 {
        '1'
    } else if k == 2 {
        '2'
    } else if k == 3 {
        '3'
    } else if k == 4 {
        '4'
    } else if k == 5 {
        '5'
    } else if k == 6 {
        '6'
    } else if k == 7 {
        '7'
    } else if k == 8 {
        '8'
    } else {
        '9'
    }
}

/// The decimal digits of `n`, most significant first, without leading zeros.
pub open spec fn decimal_digits(n: nat) -> Seq<char>
    decreases n,
{
    if n < 10 {
        seq![digit_char(n as int)]
    } else {
        decimal_digits(n / 10).push(digit_char(n as int % 10))
    }
}

/// The decimal text of `v`, as `ToString` writes an integer.
pub open spec fn decimal_text(v: int) -> Seq<char> {
    if v < 0 {
        seq!['-'] + decimal_digits((-v) as nat)
    } else {
        decimal_digits(v as nat)
    }
}

proof fn lemma_digit_char(k: int)
    requires
        0 <= k < 10,
    ensures
        is_digit(digit_char(k)),
        digit_value(digit_char(k)) == k,
{
}

/// The decimal digits of `n` are digits, and they read back as `n`.
pub proof fn lemma_decimal_digits(n: nat)
    ensures
        all_digits(decimal_digits(n)),
        digits_value(decimal_digits(n)) == n,
    decreases n,
{
    lemma_digit_char(n as int % 10);
    let d = decimal_digits(n);
    if n < 10 {
        assert(d.drop_last() =~= Seq::<char>::empty());
        assert(digits_value(d.drop_last()) == 0);
        assert(d.last() == digit_char(n as int));
        assert(digits_value(d) == digits_value(d.drop_last()) * 10 + digit_value(d.last()));
    } else {
        lemma_decimal_digits(n / 10);
        assert(d.drop_last() =~= decimal_digits(n / 10));
        assert(d.last() == digit_char(n as int % 10));
        assert(digits_value(d) == digits_value(d.drop_last()) * 10 + digit_value(d.last()));
        assert(n == (n / 10) * 10 + n % 10);
        assert forall|i: int| 0 <= i < d.len() implies is_digit(#[trigger] d[i]) by {
            if i < d.len() - 1 {
                assert(d[i] == decimal_digits(n / 10)[i]);
            }
        }
    }
}

/// Text written for a value reads back as that value: `parse` undoes
/// `to_string` for every value the type can hold.
pub proof fn lemma_text_round_trip(v: int, signed: bool)
    requires
        signed || v >= 0,
    ensures
        parse_decimal(decimal_text(v), signed) == Some(v),
{
    if v < 0 {
        let d = decimal_digits((-v) as nat);
        lemma_decimal_digits((-v) as nat);
        assert((seq!['-'] + d).drop_first() =~= d);
        lemma_digit_char(0);
        assert(is_digit(d[0]));
    } else {
        lemma_decimal_digits(v as nat);
        let d = decimal_digits(v as nat);
        assert(is_digit(d[0]));
    }
}

/// Reads a decimal integer the way `str::parse` does: the sign, if any, and
/// the magnitude, where it fits in `u128`.
pub fn parse_integer(s: &str, signed: bool) -> (r: Option<(bool, u128)>)
    ensures
        r matches Some((neg, mag)) ==> parse_decimal(s@, signed) == Some(if neg { -(mag as int) } else { mag as int }),
        r matches Some((neg, mag)) ==> (neg ==> signed),
        r is None ==> (parse_decimal(s@, signed) matches Some(v) ==> (v > u128::MAX || v < -(u128::MAX as int))),
{
    let chars = chars_of(s);
    let n = chars.len();
    let mut i: usize = 0;
    let mut neg = false;
    if n > 0 && chars[0] == '+' {
        i = 1;
    } else if signed && n > 0 && chars[0] == '-' {
        i = 1;
        neg = true;
    }
    let ghost d = s@.skip(i as int);
    proof {
        if i == 1 {
            assert(d =~= s@.drop_first());
        } else {
            assert(d =~= s@);
        }
    }
    if i >= n {
        return None;
    }
    let mut mag: u128 = 0;
    let start = i;
    assert(d.take(0) =~= Seq::<char>::empty());
    assert(parse_decimal(s@, signed) == if all_digits(d) {
        Some(if neg { -digits_value(d) } else { digits_value(d) })
    } else {
        None
    });
    while i < n
        invariant
            parse_decimal(s@, signed) == if all_digits(d) {
                Some(if neg { -digits_value(d) } else { digits_value(d) })
            } else {
                None
            },
            neg ==> signed,
            chars@ == s@,
            n == s@.len(),
            start <= i <= n,
            d == s@.skip(start as int),
            start < n,
            forall|k: int| 0 <= k < i - start ==> is_digit(#[trigger] d[k]),
            mag == digits_value(d.take(i - start)),
        decreases n - i,
    {
        let c = chars[i];
        assert(d[i - start] == c);
        if !('0' <= c && c <= '9') {
            assert(!all_digits(d));
            return None;
        }
        let v: u32 = (c as u32) - ('0' as u32);
        assert(d.take(i - start + 1).drop_last() =~= d.take(i - start));
        let ghost next = digits_value(d.take(i - start + 1));
        match mag.checked_mul(10) {
            Some(m10) => match m10.checked_add(v as u128) {
                Some(m) => {
                    mag = m;
                },
                None => {
                    proof {
                        lemma_digits_prefix(d, i - start + 1);
                    }
                    return None;
                },
            },
            None => {
                proof {
                    lemma_digits_prefix(d, i - start + 1);
                }
                return None;
            },
        }
        i += 1;
    }
    assert(d.take(n - start) =~= d);
    Some((neg, mag))
}

/// A run of digits is worth at least any of its prefixes.
proof fn lemma_digits_prefix(d: Seq<char>, k: int)
    requires
        0 <= k <= d.len(),
        forall|i: int| 0 <= i < k ==> is_digit(#[trigger] d[i]),
    ensures
        all_digits(d) ==> digits_value(d.take(k)) <= digits_value(d),
        digits_value(d.take(k)) >= 0,
    decreases d.len() - k,
{
    assert(d.take(k).len() == k);
    lemma_digits_nonneg(d.take(k));
    if k < d.len() && all_digits(d) {
        lemma_digits_prefix(d, k + 1);
        assert(d.take(k + 1).drop_last() =~= d.take(k));
        assert(is_digit(d[k]));
    }
    if k == d.len() {
        assert(d.take(k) =~= d);
    }
}

proof fn lemma_digits_nonneg(d: Seq<char>)
    requires
        forall|i: int| 0 <= i < d.len() ==> is_digit(#[trigger] d[i]),
    ensures
        digits_value(d) >= 0,
    decreases d.len(),
{
    if d.len() > 0 {
        assert forall|i: int| 0 <= i < d.drop_last().len() implies is_digit(#[trigger] d.drop_last()[i]) by {
            assert(d.drop_last()[i] == d[i]);
        }
        lemma_digits_nonneg(d.drop_last());
        assert(is_digit(d[d.len() - 1]));
    }
}

fn digit_char_of(k: u128) -> (c: char)
    requires
        k < 10,
    ensures
        c == digit_char(k as int),
{
    if k == 0 {
        '0'
    } else if k == 1 {
        '1'
    } else if k == 2 {
        '2'
    } else if k == 3 {
        '3'
    } else if k == 4 {
        '4'
    } else if k == 5 {
        '5'
    } else if k == 6 {
        '6'
    } else if k == 7 {
        '7'
    } else if k == 8 {
        '8'
    } else {
        '9'
    }
}

/// Writes an integer in decimal: a `-` where `neg`, then the digits of `mag`.
pub fn format_integer(neg: bool, mag: u128) -> (r: String)
    ensures
        r@ == if neg { seq!['-'] + decimal_digits(mag as nat) } else { decimal_digits(mag as nat) },
{
    let mut m = mag;
    let mut rev: Vec<char> = Vec::new();
    rev.push(digit_char_of(m % 10));
    m = m / 10;
    while m > 0
        invariant
            decimal_digits(mag as nat) == (if m > 0 { decimal_digits(m as nat) } else { Seq::empty() }) + rev@.reverse(),
        decreases m,
    {
        let ghost before = rev@;
        rev.push(digit_char_of(m % 10));
        assert(rev@.reverse() =~= seq![digit_char(m as int % 10)] + before.reverse());
        m = m / 10;
    }
    let mut out = String::new();
    if neg {
        out.push('-');
    }
    let ghost prefix = out@;
    let mut k = rev.len();
    assert(rev@.reverse().take(0) =~= Seq::<char>::empty());
    while k > 0
        invariant
            k <= rev@.len(),
            out@ == prefix + rev@.reverse().take(rev@.len() - k),
        decreases k,
    {
        k -= 1;
        out.push(rev[k]);
        assert(rev@.reverse().take(rev@.len() - k) =~= rev@.reverse().take(rev@.len() - k - 1).push(rev@[k as int]));
    }
    assert(rev@.reverse().take(rev@.len() as int) =~= rev@.reverse());
    assert(Seq::<char>::empty() + rev@.reverse() =~= rev@.reverse());
    out
}

/// Whether a step fits in the number's type, and where it does not, how
/// far the number is from the bound it would cross.
pub enum ValidationPayload<T: SteppableNumber> {
    Valid,
    Invalid { remainder: T },
}

/// A number that a number input can hold and step.
pub trait SteppableNumber: Sized + Copy {
    /// The number's value.
    spec fn spec_int(&self) -> int;

    /// The least value of the type.
    spec fn spec_min() -> int;

    /// The greatest value of the type.
    spec fn spec_max() -> int;

    /// Whether the type holds negative numbers.
    spec fn spec_signed() -> bool;

    /// Every number lies between the type's bounds, which hold 0 and 1, and
    /// a number is determined by its value.
    proof fn lemma_range(x: Self, y: Self)
        ensures
            Self::spec_min() <= x.spec_int() <= Self::spec_max(),
            Self::spec_min() <= 0 < 1 <= Self::spec_max(),
            Self::spec_signed() <==> Self::spec_min() < 0,
            x.spec_int() == y.spec_int() ==> x == y,
    ;

    fn zero() -> (r: Self)
        ensures
            r.spec_int() == 0,
    ;

    fn one() -> (r: Self)
        ensures
            r.spec_int() == 1,
    ;

    fn min_value() -> (r: Self)
        ensures
            r.spec_int() == Self::spec_min(),
    ;

    fn max_value() -> (r: Self)
        ensures
            r.spec_int() == Self::spec_max(),
    ;

    /// Whether `s` is the decimal text of a number of the type.
    fn is_valid_number_string(s: &str) -> (r: bool)
        ensures
            r <==> (parse_decimal(s@, Self::spec_signed()) matches Some(v) && Self::spec_min() <= v <= Self::spec_max()),
    ;

    /// Whether adding `step` stays within the type; where it does not, the
    /// distance from the number up to the type's greatest value.
    fn can_add(&self, step: Self) -> (r: ValidationPayload<Self>)
        requires
            Self::spec_min() <= self.spec_int() + step.spec_int() <= Self::spec_max() || Self::spec_max()
                - self.spec_int() <= Self::spec_max(),
        ensures
            match r {
                ValidationPayload::Valid => Self::spec_min() <= self.spec_int() + step.spec_int() <= Self::spec_max(),
                ValidationPayload::Invalid { remainder } => {
                    &&& !(Self::spec_min() <= self.spec_int() + step.spec_int() <= Self::spec_max())
                    &&& remainder.spec_int() == Self::spec_max() - self.spec_int()
                },
            },
    ;

    /// Whether subtracting `step` stays within the type; where it does not,
    /// the distance from the type's least value up to the number.
    fn can_subtract(&self, step: Self) -> (r: ValidationPayload<Self>)
        requires
            Self::spec_min() <= self.spec_int() - step.spec_int() <= Self::spec_max() || self.spec_int()
                - Self::spec_min() <= Self::spec_max(),
        ensures
            match r {
                ValidationPayload::Valid => Self::spec_min() <= self.spec_int() - step.spec_int() <= Self::spec_max(),
                ValidationPayload::Invalid { remainder } => {
                    &&& !(Self::spec_min() <= self.spec_int() - step.spec_int() <= Self::spec_max())
                    &&& remainder.spec_int() == self.spec_int() - Self::spec_min()
                },
            },
    ;

    /// The number that `s` is the decimal text of, if any.
    fn from_string(s: &str) -> (r: Option<Self>)
        ensures
            r is Some <==> (parse_decimal(s@, Self::spec_signed()) matches Some(v) && Self::spec_min() <= v
                <= Self::spec_max()),
            r matches Some(x) ==> parse_decimal(s@, Self::spec_signed()) == Some(x.spec_int()),
    ;

    /// The decimal text of the number.
    fn to_text(&self) -> (r: String)
        ensures
            r@ == decimal_text(self.spec_int()),
    ;

    /// The sum, where it fits.
    fn plus(self, other: Self) -> (r: Self)
        requires
            Self::spec_min() <= self.spec_int() + other.spec_int() <= Self::spec_max(),
        ensures
            r.spec_int() == self.spec_int() + other.spec_int(),
    ;

    /// The difference, where it fits.
    fn minus(self, other: Self) -> (r: Self)
        requires
            Self::spec_min() <= self.spec_int() - other.spec_int() <= Self::spec_max(),
        ensures
            r.spec_int() == self.spec_int() - other.spec_int(),
    ;

    fn less_than(&self, other: &Self) -> (r: bool)
        ensures
            r == (self.spec_int() < other.spec_int()),
    ;
}

/// The magnitude of a signed number.
fn magnitude(x: i128) -> (m: u128)
    ensures
        m as int == if x < 0 { -(x as int) } else { x as int },
{
    if x < 0 {
        ((-(x + 1)) as u128) + 1
    } else {
        x as u128
    }
}

impl SteppableNumber for u8 {
    open spec fn spec_int(&self) -> int {
        *self as int
    }

    open spec fn spec_min() -> int {
        u8::MIN as int
    }

    open spec fn spec_max() -> int {
        u8::MAX as int
    }

    open spec fn spec_signed() -> bool {
        false
    }

    proof fn lemma_range(x: Self, y: Self) {
    }

    fn zero() -> (r: Self) {
        0
    }

    fn one() -> (r: Self) {
        1
    }

    fn min_value() -> (r: Self) {
        u8::MIN
    }

    fn max_value() -> (r: Self) {
        u8::MAX
    }

    fn is_valid_number_string(s: &str) -> (r: bool) {
        Self::from_string(s).is_some()
    }

    fn can_add(&self, step: Self) -> (r: ValidationPayload<Self>) {
        match self.checked_add(step) {
            Some(_) => ValidationPayload::Valid,
            None => ValidationPayload::Invalid { remainder: u8::MAX - *self },
        }
    }

    fn can_subtract(&self, step: Self) -> (r: ValidationPayload<Self>) {
        match self.checked_sub(step) {
            Some(_) => ValidationPayload::Valid,
            None => ValidationPayload::Invalid { remainder: *self },
        }
    }

    fn from_string(s: &str) -> (r: Option<Self>) {
        match parse_integer(s, false) {
            Some((neg, mag)) => {
                if mag <= u8::MAX as u128 {
                    Some(mag as u8)
                } else {
                    None
                }
            },
            None => None,
        }
    }

    fn to_text(&self) -> (r: String) {
        format_integer(false, *self as u128)
    }

    fn plus(self, other: Self) -> (r: Self) {
        self + other
    }

    fn minus(self, other: Self) -> (r: Self) {
        self - other
    }

    fn less_than(&self, other: &Self) -> (r: bool) {
        *self < *other
    }
}

impl SteppableNumber for u16 {
    open spec fn spec_int(&self) -> int {
        *self as int
    }

    open spec fn spec_min() -> int {
        u16::MIN as int
    }

    open spec fn spec_max() -> int {
        u16::MAX as int
    }

    open spec fn spec_signed() -> bool {
        false
    }

    proof fn lemma_range(x: Self, y: Self) {
    }

    fn zero() -> (r: Self) {
        0
    }

    fn one() -> (r: Self) {
        1
    }

    fn min_value() -> (r: Self) {
        u16::MIN
    }

    fn max_value() -> (r: Self) {
        u16::MAX
    }

    fn is_valid_number_string(s: &str) -> (r: bool) {
        Self::from_string(s).is_some()
    }

    fn can_add(&self, step: Self) -> (r: ValidationPayload<Self>) {
        match self.checked_add(step) {
            Some(_) => ValidationPayload::Valid,
            None => ValidationPayload::Invalid { remainder: u16::MAX - *self },
        }
    }

    fn can_subtract(&self, step: Self) -> (r: ValidationPayload<Self>) {
        match self.checked_sub(step) {
            Some(_) => ValidationPayload::Valid,
            None => ValidationPayload::Invalid { remainder: *self },
        }
    }

    fn from_string(s: &str) -> (r: Option<Self>) {
        match parse_integer(s, false) {
            Some((neg, mag)) => {
                if mag <= u16::MAX as u128 {
                    Some(mag as u16)
                } else {
                    None
                }
            },
            None => None,
        }
    }

    fn to_text(&self) -> (r: String) {
        format_integer(false, *self as u128)
    }

    fn plus(self, other: Self) -> (r: Self) {
        self + other
    }

    fn minus(self, other: Self) -> (r: Self) {
        self - other
    }

    fn less_than(&self, other: &Self) -> (r: bool) {
        *self < *other
    }
}

impl SteppableNumber for u32 {
    open spec fn spec_int(&self) -> int {
        *self as int
    }

    open spec fn spec_min() -> int {
        u32::MIN as int
    }

    open spec fn spec_max() -> int {
        u32::MAX as int
    }

    open spec fn spec_signed() -> bool {
        false
    }

    proof fn lemma_range(x: Self, y: Self) {
    }

    fn zero() -> (r: Self) {
        0
    }

    fn one() -> (r: Self) {
        1
    }

    fn min_value() -> (r: Self) {
        u32::MIN
    }

    fn max_value() -> (r: Self) {
        u32::MAX
    }

    fn is_valid_number_string(s: &str) -> (r: bool) {
        Self::from_string(s).is_some()
    }

    fn can_add(&self, step: Self) -> (r: ValidationPayload<Self>) {
        match self.checked_add(step) {
            Some(_) => ValidationPayload::Valid,
            None => ValidationPayload::Invalid { remainder: u32::MAX - *self },
        }
    }

    fn can_subtract(&self, step: Self) -> (r: ValidationPayload<Self>) {
        match self.checked_sub(step) {
            Some(_) => ValidationPayload::Valid,
            None => ValidationPayload::Invalid { remainder: *self },
        }
    }

    fn from_string(s: &str) -> (r: Option<Self>) {
        match parse_integer(s, false) {
            Some((neg, mag)) => {
                if mag <= u32::MAX as u128 {
                    Some(mag as u32)
                } else {
                    None
                }
            },
            None => None,
        }
    }

    fn to_text(&self) -> (r: String) {
        format_integer(false, *self as u128)
    }

    fn plus(self, other: Self) -> (r: Self) {
        self + other
    }

    fn minus(self, other: Self) -> (r: Self) {
        self - other
    }

    fn less_than(&self, other: &Self) -> (r: bool) {
        *self < *other
    }
}

impl SteppableNumber for u64 {
    open spec fn spec_int(&self) -> int {
        *self as int
    }

    open spec fn spec_min() -> int {
        u64::MIN as int
    }

    open spec fn spec_max() -> int {
        u64::MAX as int
    }

    open spec fn spec_signed() -> bool {
        false
    }

    proof fn lemma_range(x: Self, y: Self) {
    }

    fn zero() -> (r: Self) {
        0
    }

    fn one() -> (r: Self) {
        1
    }

    fn min_value() -> (r: Self) {
        u64::MIN
    }

    fn max_value() -> (r: Self) {
        u64::MAX
    }

    fn is_valid_number_string(s: &str) -> (r: bool) {
        Self::from_string(s).is_some()
    }

    fn can_add(&self, step: Self) -> (r: ValidationPayload<Self>) {
        match self.checked_add(step) {
            Some(_) => ValidationPayload::Valid,
            None => ValidationPayload::Invalid { remainder: u64::MAX - *self },
        }
    }

    fn can_subtract(&self, step: Self) -> (r: ValidationPayload<Self>) {
        match self.checked_sub(step) {
            Some(_) => ValidationPayload::Valid,
            None => ValidationPayload::Invalid { remainder: *self },
        }
    }

    fn from_string(s: &str) -> (r: Option<Self>) {
        match parse_integer(s, false) {
            Some((neg, mag)) => {
                if mag <= u64::MAX as u128 {
                    Some(mag as u64)
                } else {
                    None
                }
            },
            None => None,
        }
    }

    fn to_text(&self) -> (r: String) {
        format_integer(false, *self as u128)
    }

    fn plus(self, other: Self) -> (r: Self) {
        self + other
    }

    fn minus(self, other: Self) -> (r: Self) {
        self - other
    }

    fn less_than(&self, other: &Self) -> (r: bool) {
        *self < *other
    }
}

impl SteppableNumber for u128 {
    open spec fn spec_int(&self) -> int {
        *self as int
    }

    open spec fn spec_min() -> int {
        u128::MIN as int
    }

    open spec fn spec_max() -> int {
        u128::MAX as int
    }

    open spec fn spec_signed() -> bool {
        false
    }

    proof fn lemma_range(x: Self, y: Self) {
    }

    fn zero() -> (r: Self) {
        0
    }

    fn one() -> (r: Self) {
        1
    }

    fn min_value() -> (r: Self) {
        u128::MIN
    }

    fn max_value() -> (r: Self) {
        u128::MAX
    }

    fn is_valid_number_string(s: &str) -> (r: bool) {
        Self::from_string(s).is_some()
    }

    fn can_add(&self, step: Self) -> (r: ValidationPayload<Self>) {
        match self.checked_add(step) {
            Some(_) => ValidationPayload::Valid,
            None => ValidationPayload::Invalid { remainder: u128::MAX - *self },
        }
    }

    fn can_subtract(&self, step: Self) -> (r: ValidationPayload<Self>) {
        match self.checked_sub(step) {
            Some(_) => ValidationPayload::Valid,
            None => ValidationPayload::Invalid { remainder: *self },
        }
    }

    fn from_string(s: &str) -> (r: Option<Self>) {
        match parse_integer(s, false) {
            Some((neg, mag)) => {
                if mag <= u128::MAX as u128 {
                    Some(mag as u128)
                } else {
                    None
                }
            },
            None => None,
        }
    }

    fn to_text(&self) -> (r: String) {
        format_integer(false, *self as u128)
    }

    fn plus(self, other: Self) -> (r: Self) {
        self + other
    }

    fn minus(self, other: Self) -> (r: Self) {
        self - other
    }

    fn less_than(&self, other: &Self) -> (r: bool) {
        *self < *other
    }
}

impl SteppableNumber for usize {
    open spec fn spec_int(&self) -> int {
        *self as int
    }

    open spec fn spec_min() -> int {
        usize::MIN as int
    }

    open spec fn spec_max() -> int {
        usize::MAX as int
    }

    open spec fn spec_signed() -> bool {
        false
    }

    proof fn lemma_range(x: Self, y: Self) {
    }

    fn zero() -> (r: Self) {
        0
    }

    fn one() -> (r: Self) {
        1
    }

    fn min_value() -> (r: Self) {
        usize::MIN
    }

    fn max_value() -> (r: Self) {
        usize::MAX
    }

    fn is_valid_number_string(s: &str) -> (r: bool) {
        Self::from_string(s).is_some()
    }

    fn can_add(&self, step: Self) -> (r: ValidationPayload<Self>) {
        match self.checked_add(step) {
            Some(_) => ValidationPayload::Valid,
            None => ValidationPayload::Invalid { remainder: usize::MAX - *self },
        }
    }

    fn can_subtract(&self, step: Self) -> (r: ValidationPayload<Self>) {
        match self.checked_sub(step) {
            Some(_) => ValidationPayload::Valid,
            None => ValidationPayload::Invalid { remainder: *self },
        }
    }

    fn from_string(s: &str) -> (r: Option<Self>) {
        match parse_integer(s, false) {
            Some((neg, mag)) => {
                if mag <= usize::MAX as u128 {
                    Some(mag as usize)
                } else {
                    None
                }
            },
            None => None,
        }
    }

    fn to_text(&self) -> (r: String) {
        format_integer(false, *self as u128)
    }

    fn plus(self, other: Self) -> (r: Self) {
        self + other
    }

    fn minus(self, other: Self) -> (r: Self) {
        self - other
    }

    fn less_than(&self, other: &Self) -> (r: bool) {
        *self < *other
    }
}

impl SteppableNumber for i8 {
    open spec fn spec_int(&self) -> int {
        *self as int
    }

    open spec fn spec_min() -> int {
        i8::MIN as int
    }

    open spec fn spec_max() -> int {
        i8::MAX as int
    }

    open spec fn spec_signed() -> bool {
        true
    }

    proof fn lemma_range(x: Self, y: Self) {
    }

    fn zero() -> (r: Self) {
        0
    }

    fn one() -> (r: Self) {
        1
    }

    fn min_value() -> (r: Self) {
        i8::MIN
    }

    fn max_value() -> (r: Self) {
        i8::MAX
    }

    fn is_valid_number_string(s: &str) -> (r: bool) {
        Self::from_string(s).is_some()
    }

    fn can_add(&self, step: Self) -> (r: ValidationPayload<Self>) {
        match self.checked_add(step) {
            Some(_) => ValidationPayload::Valid,
            None => ValidationPayload::Invalid { remainder: i8::MAX - *self },
        }
    }

    fn can_subtract(&self, step: Self) -> (r: ValidationPayload<Self>) {
        match self.checked_sub(step) {
            Some(_) => ValidationPayload::Valid,
            None => ValidationPayload::Invalid { remainder: *self - i8::MIN },
        }
    }

    fn from_string(s: &str) -> (r: Option<Self>) {
        match parse_integer(s, true) {
            Some((neg, mag)) => {
                if neg {
                    if mag == 0 {
                        Some(0)
                    } else if mag <= (i8::MAX as u128) + 1 {
                        Some((0i128 - ((mag - 1) as i128) - 1) as i8)
                    } else {
                        None
                    }
                } else if mag <= i8::MAX as u128 {
                    Some(mag as i8)
                } else {
                    None
                }
            },
            None => None,
        }
    }

    fn to_text(&self) -> (r: String) {
        if *self < 0 {
            format_integer(true, magnitude(*self as i128))
        } else {
            format_integer(false, *self as u128)
        }
    }

    fn plus(self, other: Self) -> (r: Self) {
        self + other
    }

    fn minus(self, other: Self) -> (r: Self) {
        self - other
    }

    fn less_than(&self, other: &Self) -> (r: bool) {
        *self < *other
    }
}

impl SteppableNumber for i16 {
    open spec fn spec_int(&self) -> int {
        *self as int
    }

    open spec fn spec_min() -> int {
        i16::MIN as int
    }

    open spec fn spec_max() -> int {
        i16::MAX as int
    }

    open spec fn spec_signed() -> bool {
        true
    }

    proof fn lemma_range(x: Self, y: Self) {
    }

    fn zero() -> (r: Self) {
        0
    }

    fn one() -> (r: Self) {
        1
    }

    fn min_value() -> (r: Self) {
        i16::MIN
    }

    fn max_value() -> (r: Self) {
        i16::MAX
    }

    fn is_valid_number_string(s: &str) -> (r: bool) {
        Self::from_string(s).is_some()
    }

    fn can_add(&self, step: Self) -> (r: ValidationPayload<Self>) {
        match self.checked_add(step) {
            Some(_) => ValidationPayload::Valid,
            None => ValidationPayload::Invalid { remainder: i16::MAX - *self },
        }
    }

    fn can_subtract(&self, step: Self) -> (r: ValidationPayload<Self>) {
        match self.checked_sub(step) {
            Some(_) => ValidationPayload::Valid,
            None => ValidationPayload::Invalid { remainder: *self - i16::MIN },
        }
    }

    fn from_string(s: &str) -> (r: Option<Self>) {
        match parse_integer(s, true) {
            Some((neg, mag)) => {
                if neg {
                    if mag == 0 {
                        Some(0)
                    } else if mag <= (i16::MAX as u128) + 1 {
                        Some((0i128 - ((mag - 1) as i128) - 1) as i16)
                    } else {
                        None
                    }
                } else if mag <= i16::MAX as u128 {
                    Some(mag as i16)
                } else {
                    None
                }
            },
            None => None,
        }
    }

    fn to_text(&self) -> (r: String) {
        if *self < 0 {
            format_integer(true, magnitude(*self as i128))
        } else {
            format_integer(false, *self as u128)
        }
    }

    fn plus(self, other: Self) -> (r: Self) {
        self + other
    }

    fn minus(self, other: Self) -> (r: Self) {
        self - other
    }

    fn less_than(&self, other: &Self) -> (r: bool) {
        *self < *other
    }
}

impl SteppableNumber for i32 {
    open spec fn spec_int(&self) -> int {
        *self as int
    }

    open spec fn spec_min() -> int {
        i32::MIN as int
    }

    open spec fn spec_max() -> int {
        i32::MAX as int
    }

    open spec fn spec_signed() -> bool {
        true
    }

    proof fn lemma_range(x: Self, y: Self) {
    }

    fn zero() -> (r: Self) {
        0
    }

    fn one() -> (r: Self) {
        1
    }

    fn min_value() -> (r: Self) {
        i32::MIN
    }

    fn max_value() -> (r: Self) {
        i32::MAX
    }

    fn is_valid_number_string(s: &str) -> (r: bool) {
        Self::from_string(s).is_some()
    }

    fn can_add(&self, step: Self) -> (r: ValidationPayload<Self>) {
        match self.checked_add(step) {
            Some(_) => ValidationPayload::Valid,
            None => ValidationPayload::Invalid { remainder: i32::MAX - *self },
        }
    }

    fn can_subtract(&self, step: Self) -> (r: ValidationPayload<Self>) {
        match self.checked_sub(step) {
            Some(_) => ValidationPayload::Valid,
            None => ValidationPayload::Invalid { remainder: *self - i32::MIN },
        }
    }

    fn from_string(s: &str) -> (r: Option<Self>) {
        match parse_integer(s, true) {
            Some((neg, mag)) => {
                if neg {
                    if mag == 0 {
                        Some(0)
                    } else if mag <= (i32::MAX as u128) + 1 {
                        Some((0i128 - ((mag - 1) as i128) - 1) as i32)
                    } else {
                        None
                    }
                } else if mag <= i32::MAX as u128 {
                    Some(mag as i32)
                } else {
                    None
                }
            },
            None => None,
        }
    }

    fn to_text(&self) -> (r: String) {
        if *self < 0 {
            format_integer(true, magnitude(*self as i128))
        } else {
            format_integer(false, *self as u128)
        }
    }

    fn plus(self, other: Self) -> (r: Self) {
        self + other
    }

    fn minus(self, other: Self) -> (r: Self) {
        self - other
    }

    fn less_than(&self, other: &Self) -> (r: bool) {
        *self < *other
    }
}

impl SteppableNumber for i64 {
    open spec fn spec_int(&self) -> int {
        *self as int
    }

    open spec fn spec_min() -> int {
        i64::MIN as int
    }

    open spec fn spec_max() -> int {
        i64::MAX as int
    }

    open spec fn spec_signed() -> bool {
        true
    }

    proof fn lemma_range(x: Self, y: Self) {
    }

    fn zero() -> (r: Self) {
        0
    }

    fn one() -> (r: Self) {
        1
    }

    fn min_value() -> (r: Self) {
        i64::MIN
    }

    fn max_value() -> (r: Self) {
        i64::MAX
    }

    fn is_valid_number_string(s: &str) -> (r: bool) {
        Self::from_string(s).is_some()
    }

    fn can_add(&self, step: Self) -> (r: ValidationPayload<Self>) {
        match self.checked_add(step) {
            Some(_) => ValidationPayload::Valid,
            None => ValidationPayload::Invalid { remainder: i64::MAX - *self },
        }
    }

    fn can_subtract(&self, step: Self) -> (r: ValidationPayload<Self>) {
        match self.checked_sub(step) {
            Some(_) => ValidationPayload::Valid,
            None => ValidationPayload::Invalid { remainder: *self - i64::MIN },
        }
    }

    fn from_string(s: &str) -> (r: Option<Self>) {
        match parse_integer(s, true) {
            Some((neg, mag)) => {
                if neg {
                    if mag == 0 {
                        Some(0)
                    } else if mag <= (i64::MAX as u128) + 1 {
                        Some((0i128 - ((mag - 1) as i128) - 1) as i64)
                    } else {
                        None
                    }
                } else if mag <= i64::MAX as u128 {
                    Some(mag as i64)
                } else {
                    None
                }
            },
            None => None,
        }
    }

    fn to_text(&self) -> (r: String) {
        if *self < 0 {
            format_integer(true, magnitude(*self as i128))
        } else {
            format_integer(false, *self as u128)
        }
    }

    fn plus(self, other: Self) -> (r: Self) {
        self + other
    }

    fn minus(self, other: Self) -> (r: Self) {
        self - other
    }

    fn less_than(&self, other: &Self) -> (r: bool) {
        *self < *other
    }
}

impl SteppableNumber for i128 {
    open spec fn spec_int(&self) -> int {
        *self as int
    }

    open spec fn spec_min() -> int {
        i128::MIN as int
    }

    open spec fn spec_max() -> int {
        i128::MAX as int
    }

    open spec fn spec_signed() -> bool {
        true
    }

    proof fn lemma_range(x: Self, y: Self) {
    }

    fn zero() -> (r: Self) {
        0
    }

    fn one() -> (r: Self) {
        1
    }

    fn min_value() -> (r: Self) {
        i128::MIN
    }

    fn max_value() -> (r: Self) {
        i128::MAX
    }

    fn is_valid_number_string(s: &str) -> (r: bool) {
        Self::from_string(s).is_some()
    }

    fn can_add(&self, step: Self) -> (r: ValidationPayload<Self>) {
        match self.checked_add(step) {
            Some(_) => ValidationPayload::Valid,
            None => ValidationPayload::Invalid { remainder: i128::MAX - *self },
        }
    }

    fn can_subtract(&self, step: Self) -> (r: ValidationPayload<Self>) {
        match self.checked_sub(step) {
            Some(_) => ValidationPayload::Valid,
            None => ValidationPayload::Invalid { remainder: *self - i128::MIN },
        }
    }

    fn from_string(s: &str) -> (r: Option<Self>) {
        match parse_integer(s, true) {
            Some((neg, mag)) => {
                if neg {
                    if mag == 0 {
                        Some(0)
                    } else if mag <= (i128::MAX as u128) + 1 {
                        Some((0i128 - ((mag - 1) as i128) - 1) as i128)
                    } else {
                        None
                    }
                } else if mag <= i128::MAX as u128 {
                    Some(mag as i128)
                } else {
                    None
                }
            },
            None => None,
        }
    }

    fn to_text(&self) -> (r: String) {
        if *self < 0 {
            format_integer(true, magnitude(*self as i128))
        } else {
            format_integer(false, *self as u128)
        }
    }

    fn plus(self, other: Self) -> (r: Self) {
        self + other
    }

    fn minus(self, other: Self) -> (r: Self) {
        self - other
    }

    fn less_than(&self, other: &Self) -> (r: bool) {
        *self < *other
    }
}

impl SteppableNumber for isize {
    open spec fn spec_int(&self) -> int {
        *self as int
    }

    open spec fn spec_min() -> int {
        isize::MIN as int
    }

    open spec fn spec_max() -> int {
        isize::MAX as int
    }

    open spec fn spec_signed() -> bool {
        true
    }

    proof fn lemma_range(x: Self, y: Self) {
    }

    fn zero() -> (r: Self) {
        0
    }

    fn one() -> (r: Self) {
        1
    }

    fn min_value() -> (r: Self) {
        isize::MIN
    }

    fn max_value() -> (r: Self) {
        isize::MAX
    }

    fn is_valid_number_string(s: &str) -> (r: bool) {
        Self::from_string(s).is_some()
    }

    fn can_add(&self, step: Self) -> (r: ValidationPayload<Self>) {
        match self.checked_add(step) {
            Some(_) => ValidationPayload::Valid,
            None => ValidationPayload::Invalid { remainder: isize::MAX - *self },
        }
    }

    fn can_subtract(&self, step: Self) -> (r: ValidationPayload<Self>) {
        match self.checked_sub(step) {
            Some(_) => ValidationPayload::Valid,
            None => ValidationPayload::Invalid { remainder: *self - isize::MIN },
        }
    }

    fn from_string(s: &str) -> (r: Option<Self>) {
        match parse_integer(s, true) {
            Some((neg, mag)) => {
                if neg {
                    if mag == 0 {
                        Some(0)
                    } else if mag <= (isize::MAX as u128) + 1 {
                        Some((0i128 - ((mag - 1) as i128) - 1) as isize)
                    } else {
                        None
                    }
                } else if mag <= isize::MAX as u128 {
                    Some(mag as isize)
                } else {
                    None
                }
            },
            None => None,
        }
    }

    fn to_text(&self) -> (r: String) {
        if *self < 0 {
            format_integer(true, magnitude(*self as i128))
        } else {
            format_integer(false, *self as u128)
        }
    }

    fn plus(self, other: Self) -> (r: Self) {
        self + other
    }

    fn minus(self, other: Self) -> (r: Self) {
        self - other
    }

    fn less_than(&self, other: &Self) -> (r: bool) {
        *self < *other
    }
}

/// Accepts exactly the decimal texts of numbers of type `T`.
pub struct NumberText<T: SteppableNumber> {
    marker: PhantomData<T>,
}

/// Whether `text` is the decimal text of a number of type `T`.
pub open spec fn is_number_text<T: SteppableNumber>(text: Seq<char>) -> bool {
    parse_decimal(text, T::spec_signed()) matches Some(v) && T::spec_min() <= v <= T::spec_max()
}

impl<T: SteppableNumber> TextValidator for NumberText<T> {
    open spec fn spec_accepts(&self, text: Seq<char>) -> bool {
        is_number_text::<T>(text)
    }

    fn accepts(&self, text: &str) -> (r: bool) {
        T::is_valid_number_string(text)
    }
}

/// The size of a step.
#[derive(Clone, Copy, PartialEq, Eq, Structural)]
pub enum Step {
    Normal,
    Big,
}

/// A step that a number input asks for.
#[derive(Clone, Copy, PartialEq, Eq, Structural)]
pub enum StepAction {
    Decrement,
    Increment,
}

/// The direction of a scroll over a number input; with control held the
/// step is big.
#[derive(Clone, Copy, PartialEq, Eq, Structural)]
pub enum ScrollWheelDirection {
    Up,
    Down,
    BigUp,
    BigDown,
}

impl ScrollWheelDirection {
    /// The direction of a scroll that went `up` or `down` (the sign of its
    /// vertical delta), big with `control` held; `None` for a scroll that
    /// went neither way.
    pub fn from_event(up: bool, down: bool, control: bool) -> (r: Option<ScrollWheelDirection>)
        ensures
            r == if up {
                Some(if control { ScrollWheelDirection::BigUp } else { ScrollWheelDirection::Up })
            } else if down {
                Some(if control { ScrollWheelDirection::BigDown } else { ScrollWheelDirection::Down })
            } else {
                None
            },
    {
        if up {
            if control {
                Some(ScrollWheelDirection::BigUp)
            } else {
                Some(ScrollWheelDirection::Up)
            }
        } else if down {
            if control {
                Some(ScrollWheelDirection::BigDown)
            } else {
                Some(ScrollWheelDirection::Down)
            }
        } else {
            None
        }
    }
}

/// A click on a step button; with control held the step is big.
#[derive(Clone, Copy, PartialEq, Eq, Structural)]
pub enum ClickType {
    Normal,
    Big,
}

impl ClickType {
    /// The kind of a click, from whether control was held: every click is
    /// one of the two.
    pub fn from_event(control: bool) -> (r: Option<ClickType>)
        ensures
            r == Some(if control { ClickType::Big } else { ClickType::Normal }),
    {
        if control {
            Some(ClickType::Big)
        } else {
            Some(ClickType::Normal)
        }
    }
}

/// What a number input starts with and the bounds it keeps.
pub struct NumberInputConfig<T: SteppableNumber> {
    pub initial_value: T,
    pub step: T,
    pub big_step: T,
    pub min: T,
    pub max: T,
    pub cleanable: Option<bool>,
}

impl<T: SteppableNumber> NumberInputConfig<T> {
    /// Starts at zero, steps by one (also for big steps), and is bounded by
    /// the type's own bounds.
    pub fn new() -> (r: Self)
        ensures
            r.initial_value.spec_int() == 0,
            r.step.spec_int() == 1,
            r.big_step.spec_int() == 1,
            r.min.spec_int() == T::spec_min(),
            r.max.spec_int() == T::spec_max(),
            r.cleanable.is_none(),
    {
        NumberInputConfig {
            initial_value: T::zero(),
            step: T::one(),
            big_step: T::one(),
            min: T::min_value(),
            max: T::max_value(),
            cleanable: None,
        }
    }

    pub fn initial_value(self, value: T) -> (r: Self)
        ensures
            r == (NumberInputConfig { initial_value: value, ..self }),
    {
        NumberInputConfig { initial_value: value, ..self }
    }

    pub fn step(self, step: T) -> (r: Self)
        ensures
            r == (NumberInputConfig { step, ..self }),
    {
        NumberInputConfig { step, ..self }
    }

    pub fn big_step(self, big_step: T) -> (r: Self)
        ensures
            r == (NumberInputConfig { big_step, ..self }),
    {
        NumberInputConfig { big_step, ..self }
    }

    pub fn min(self, min: T) -> (r: Self)
        ensures
            r == (NumberInputConfig { min, ..self }),
    {
        NumberInputConfig { min, ..self }
    }

    pub fn max(self, max: T) -> (r: Self)
        ensures
            r == (NumberInputConfig { max, ..self }),
    {
        NumberInputConfig { max, ..self }
    }

    pub fn cleanable(self, cleanable: bool) -> (r: Self)
        ensures
            r == (NumberInputConfig { cleanable: Some(cleanable), ..self }),
    {
        NumberInputConfig { cleanable: Some(cleanable), ..self }
    }
}

/// The value after stepping `value` up by `step`: where the sum fits the
/// type it is capped at `max`, and where it does not the value becomes `max`.
pub open spec fn stepped_up<T: SteppableNumber>(value: int, step: int, max: int) -> int {
    if T::spec_min() <= value + step <= T::spec_max() {
        if value + step > max {
            max
        } else {
            value + step
        }
    } else {
        max
    }
}

/// The value after stepping `value` down by `step`: where the difference
/// fits the type it is raised to `min`, and where it does not the value
/// becomes `min`.
pub open spec fn stepped_down<T: SteppableNumber>(value: int, step: int, min: int) -> int {
    if T::spec_min() <= value - step <= T::spec_max() {
        if value - step < min {
            min
        } else {
            value - step
        }
    } else {
        min
    }
}

/// Stepping down never goes below the lower bound, and where a whole step
/// fits above the bound (within the type) it takes exactly one step.
pub proof fn lemma_step_down_stays_in_bounds<T: SteppableNumber>(value: int, step: int, min: int)
    ensures
        stepped_down::<T>(value, step, min) >= min,
        (T::spec_min() <= min && min <= value - step <= T::spec_max()) ==> stepped_down::<T>(value, step, min)
            == value - step,
        (T::spec_min() <= value - step <= T::spec_max() && value - step < min) ==> stepped_down::<T>(value, step, min)
            == min,
        (0 <= step && min <= value) ==> stepped_down::<T>(value, step, min) <= value,
{
}

/// Stepping up never goes above the upper bound, and where a whole step
/// fits below the bound (within the type) it takes exactly one step.
pub proof fn lemma_step_up_stays_in_bounds<T: SteppableNumber>(value: int, step: int, max: int)
    ensures
        stepped_up::<T>(value, step, max) <= max,
        (T::spec_min() <= value + step && value + step <= max && max <= T::spec_max()) ==> stepped_up::<T>(
            value,
            step,
            max,
        ) == value + step,
        (T::spec_min() <= value + step <= T::spec_max() && value + step > max) ==> stepped_up::<T>(value, step, max)
            == max,
        (0 <= step && value <= max) ==> stepped_up::<T>(value, step, max) >= value,
{
}

/// What a number input holds: its value, whether it has focus, its
/// configuration, and the text input that shows the value.
pub ghost struct NumberInputView {
    pub value: int,
    pub focused: bool,
    pub initial: int,
    pub step: int,
    pub big_step: int,
    pub min: int,
    pub max: int,
    pub input: InputView,
}

impl NumberInputView {
    /// The size of a step of kind `s`.
    pub open spec fn step_of(self, s: Step) -> int {
        match s {
            Step::Normal => self.step,
            Step::Big => self.big_step,
        }
    }
}

/// A text input for numbers of type `T`, with steps up and down.
pub struct NumberInput<T: SteppableNumber> {
    value: T,
    is_focused: bool,
    config: NumberInputConfig<T>,
    input: TextInput<NumberText<T>>,
}

impl<T: SteppableNumber> View for NumberInput<T> {
    type V = NumberInputView;

    closed spec fn view(&self) -> NumberInputView {
        NumberInputView {
            value: self.value.spec_int(),
            focused: self.is_focused,
            initial: self.config.initial_value.spec_int(),
            step: self.config.step.spec_int(),
            big_step: self.config.big_step.spec_int(),
            min: self.config.min.spec_int(),
            max: self.config.max.spec_int(),
            input: self.input@,
        }
    }
}

/// The decimal text of a number of type `T` is a number text of `T`.
pub proof fn lemma_number_text<T: SteppableNumber>(x: T)
    ensures
        is_number_text::<T>(decimal_text(x.spec_int())),
        decimal_text(x.spec_int()).len() > 0,
{
    T::lemma_range(x, x);
    lemma_text_round_trip(x.spec_int(), T::spec_signed());
    if x.spec_int() < 0 {
        assert((seq!['-'] + decimal_digits((-x.spec_int()) as nat)).len() > 0);
    }
}

impl<T: SteppableNumber> NumberInput<T> {
    /// A number input that shows `config.initial_value` and accepts only
    /// number texts of `T`.
    pub fn new(config: NumberInputConfig<T>) -> (r: Self)
        ensures
            r@.value == config.initial_value.spec_int(),
            !r@.focused,
            r@.initial == config.initial_value.spec_int(),
            r@.step == config.step.spec_int(),
            r@.big_step == config.big_step.spec_int(),
            r@.min == config.min.spec_int(),
            r@.max == config.max.spec_int(),
            r@.input.text == decimal_text(config.initial_value.spec_int()),
            r@.input.cleanable == (config.cleanable == Some(true)),
            !r@.input.disabled,
            forall|t: Seq<char>| #[trigger] (r@.input.accepts)(t) == is_number_text::<T>(t),
    {
        let cleanable = match config.cleanable {
            Some(c) => c,
            None => false,
        };
        let initial_value = config.initial_value;
        let base = TextInput::new().validate(NumberText { marker: PhantomData });
        let mut input = if cleanable {
            base.cleanable()
        } else {
            base
        };
        let text = initial_value.to_text();
        proof {
            lemma_number_text(initial_value);
        }
        input.set_text(text.as_str());
        let r = NumberInput { value: initial_value, is_focused: false, config, input };
        assert forall|t: Seq<char>| #[trigger] (r@.input.accepts)(t) == is_number_text::<T>(t) by {}
        r
    }

    /// The number the input holds.
    pub fn value(&self) -> (r: T)
        ensures
            r.spec_int() == self@.value,
    {
        self.value
    }

    /// Shows `number` in the text input.
    fn set_number_text_repr(&mut self, number: T)
        ensures
            final(self)@ == (NumberInputView { input: old(self)@.input.text_set(decimal_text(number.spec_int())), ..old(self)@ }),
    {
        let text = number.to_text();
        self.input.set_text(text.as_str());
    }

    /// Steps the value up by a step of kind `step`, within `max`, and shows it.
    pub fn increment(&mut self, step: Step)
        requires
            ({
                let v = old(self)@;
                let s = v.step_of(step);
                T::spec_min() <= v.value + s <= T::spec_max() || T::spec_max() - v.value <= T::spec_max()
            }),
        ensures
            final(self)@.value == stepped_up::<T>(old(self)@.value, old(self)@.step_of(step), old(self)@.max),
            final(self)@ == (NumberInputView {
                value: final(self)@.value,
                input: old(self)@.input.text_set(decimal_text(final(self)@.value)),
                ..old(self)@
            }),
    {
        let step = match step {
            Step::Normal => self.config.step,
            Step::Big => self.config.big_step,
        };
        match self.value.can_add(step) {
            ValidationPayload::Valid => {
                let new_value = self.value.plus(step);
                if self.config.max.less_than(&new_value) {
                    self.value = self.config.max;
                } else {
                    self.value = new_value;
                }
            },
            ValidationPayload::Invalid { remainder: _ } => {
                self.value = self.config.max;
            },
        }
        let value = self.value;
        self.set_number_text_repr(value);
    }

    /// Steps the value down by a step of kind `step`, within `min`, and shows it.
    pub fn decrement(&mut self, step: Step)
        requires
            ({
                let v = old(self)@;
                let s = v.step_of(step);
                T::spec_min() <= v.value - s <= T::spec_max() || v.value - T::spec_min() <= T::spec_max()
            }),
        ensures
            final(self)@.value == stepped_down::<T>(old(self)@.value, old(self)@.step_of(step), old(self)@.min),
            final(self)@ == (NumberInputView {
                value: final(self)@.value,
                input: old(self)@.input.text_set(decimal_text(final(self)@.value)),
                ..old(self)@
            }),
    {
        let step = match step {
            Step::Normal => self.config.step,
            Step::Big => self.config.big_step,
        };
        match self.value.can_subtract(step) {
            ValidationPayload::Valid => {
                let new_value = self.value.minus(step);
                if new_value.less_than(&self.config.min) {
                    self.value = self.config.min;
                } else {
                    self.value = new_value;
                }
            },
            ValidationPayload::Invalid { remainder: _ } => {
                self.value = self.config.min;
            },
        }
        let value = self.value;
        self.set_number_text_repr(value);
    }

    /// A click on the step-up button.
    pub fn click_increment(&mut self, click: Option<ClickType>)
        requires
            click matches Some(c) ==> ({
                let v = old(self)@;
                let s = v.step_of(if c == ClickType::Big { Step::Big } else { Step::Normal });
                T::spec_min() <= v.value + s <= T::spec_max() || T::spec_max() - v.value <= T::spec_max()
            }),
        ensures
            click is None ==> final(self)@ == old(self)@,
            click matches Some(c) ==> final(self)@.value == stepped_up::<T>(
                old(self)@.value,
                old(self)@.step_of(if c == ClickType::Big { Step::Big } else { Step::Normal }),
                old(self)@.max,
            ),
            click is Some ==> final(self)@ == (NumberInputView {
                value: final(self)@.value,
                input: old(self)@.input.text_set(decimal_text(final(self)@.value)),
                ..old(self)@
            }),
    {
        match click {
            Some(ClickType::Normal) => self.increment(Step::Normal),
            Some(ClickType::Big) => self.increment(Step::Big),
            None => {},
        }
    }

    /// A click on the step-down button.
    pub fn click_decrement(&mut self, click: Option<ClickType>)
        requires
            click matches Some(c) ==> ({
                let v = old(self)@;
                let s = v.step_of(if c == ClickType::Big { Step::Big } else { Step::Normal });
                T::spec_min() <= v.value - s <= T::spec_max() || v.value - T::spec_min() <= T::spec_max()
            }),
        ensures
            click is None ==> final(self)@ == old(self)@,
            click matches Some(c) ==> final(self)@.value == stepped_down::<T>(
                old(self)@.value,
                old(self)@.step_of(if c == ClickType::Big { Step::Big } else { Step::Normal }),
                old(self)@.min,
            ),
            click is Some ==> final(self)@ == (NumberInputView {
                value: final(self)@.value,
                input: old(self)@.input.text_set(decimal_text(final(self)@.value)),
                ..old(self)@
            }),
    {
        match click {
            Some(ClickType::Normal) => self.decrement(Step::Normal),
            Some(ClickType::Big) => self.decrement(Step::Big),
            None => {},
        }
    }

    /// A scroll over the input steps it while it has focus.
    pub fn on_scroll(&mut self, direction: ScrollWheelDirection)
        requires
            old(self)@.focused ==> match direction {
                ScrollWheelDirection::Up | ScrollWheelDirection::BigUp => {
                    let s = old(self)@.step_of(if direction == ScrollWheelDirection::BigUp { Step::Big } else { Step::Normal });
                    T::spec_min() <= old(self)@.value + s <= T::spec_max() || T::spec_max() - old(self)@.value <= T::spec_max()
                },
                _ => {
                    let s = old(self)@.step_of(if direction == ScrollWheelDirection::BigDown { Step::Big } else { Step::Normal });
                    T::spec_min() <= old(self)@.value - s <= T::spec_max() || old(self)@.value - T::spec_min() <= T::spec_max()
                },
            },
        ensures
            !old(self)@.focused ==> final(self)@ == old(self)@,
            old(self)@.focused ==> final(self)@.value == match direction {
                ScrollWheelDirection::Up => stepped_up::<T>(old(self)@.value, old(self)@.step, old(self)@.max),
                ScrollWheelDirection::BigUp => stepped_up::<T>(old(self)@.value, old(self)@.big_step, old(self)@.max),
                ScrollWheelDirection::Down => stepped_down::<T>(old(self)@.value, old(self)@.step, old(self)@.min),
                ScrollWheelDirection::BigDown => stepped_down::<T>(old(self)@.value, old(self)@.big_step, old(self)@.min),
            },
            old(self)@.focused ==> final(self)@ == (NumberInputView {
                value: final(self)@.value,
                input: old(self)@.input.text_set(decimal_text(final(self)@.value)),
                ..old(self)@
            }),
    {
        if !self.is_focused {
            return;
        }
        match direction {
            ScrollWheelDirection::Up => self.increment(Step::Normal),
            ScrollWheelDirection::Down => self.decrement(Step::Normal),
            ScrollWheelDirection::BigUp => self.increment(Step::Big),
            ScrollWheelDirection::BigDown => self.decrement(Step::Big),
        }
    }

    /// The text input's text changed: where it is a number of `T`, that
    /// number becomes the value.
    pub fn on_change(&mut self, text: &str)
        ensures
            is_number_text::<T>(text@) ==> parse_decimal(text@, T::spec_signed()) == Some(final(self)@.value),
            !is_number_text::<T>(text@) ==> final(self)@.value == old(self)@.value,
            final(self)@ == (NumberInputView { value: final(self)@.value, ..old(self)@ }),
    {
        match T::from_string(text) {
            Some(number) => {
                self.value = number;
            },
            None => {},
        }
    }

    pub fn on_focus(&mut self)
        ensures
            final(self)@ == (NumberInputView { focused: true, ..old(self)@ }),
    {
        self.is_focused = true;
    }

    pub fn on_blur(&mut self)
        ensures
            final(self)@ == (NumberInputView { focused: false, ..old(self)@ }),
    {
        self.is_focused = false;
    }

    /// The text input was cleared: the value goes back to the initial one,
    /// which is shown again.
    pub fn on_cleaned(&mut self)
        ensures
            final(self)@ == (NumberInputView {
                value: old(self)@.initial,
                input: old(self)@.input.text_set(decimal_text(old(self)@.initial)),
                ..old(self)@
            }),
    {
        self.value = self.config.initial_value;
        let value = self.value;
        self.set_number_text_repr(value);
    }
}

} // verus!
