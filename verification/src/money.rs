//! Money: an exact decimal amount in one currency.
//!
//! An amount is what bigdecimal holds: an integer mantissa of any size and a scale, the
//! value being `mantissa / 10^scale`. The library keeps the mantissa as its decimal text,
//! so nothing bounds it, and leaves reading, subtracting, rounding and writing amounts to
//! bigdecimal; what those give is stated here as exact arithmetic, or named where it is
//! bigdecimal's own choice.
use vstd::prelude::*;
use vstd::string::*;

use crate::error::{bad_request, ClientError, ErrorKind};
use crate::text::{
    chars_of, concat, decimal, digit_char, push_char, render_i128, signed_decimal, trim, trimmed,
};

verus! {

broadcast use vstd::string::group_string_axioms;

/// `10^n`.
pub open spec fn pow10(n: nat) -> int
    decreases n,
{
    if n == 0 {
        1
    } else {
        10 * pow10((n - 1) as nat)
    }
}

/// The nearest integer to `n / d`, ties going to the even one, for `n >= 0` and `d > 0`.
pub open spec fn round_half_even_nat(n: nat, d: nat) -> nat {
    let q = n / d;
    let r = n % d;
    if 2 * r < d {
        q
    } else if 2 * r > d {
        q + 1
    } else if q % 2 == 0 {
        q
    } else {
        q + 1
    }
}

/// The nearest integer to `n / d`, ties going to the even one, for `d > 0`. Symmetric about
/// zero: the magnitude is rounded and the sign kept.
pub open spec fn round_half_even(n: int, d: int) -> int {
    if n >= 0 {
        round_half_even_nat(n as nat, d as nat) as int
    } else {
        -(round_half_even_nat((-n) as nat, d as nat) as int)
    }
}

/// The value of a decimal digit character.
pub open spec fn digit_value(c: char) -> int {
    c as int - 48
}

/// The number an unsigned decimal text denotes.
pub open spec fn unsigned_value(s: Seq<char>) -> int
    decreases s.len(),
{
    if s.len() == 0 {
        0
    } else {
        unsigned_value(s.drop_last()) * 10 + digit_value(s.last())
    }
}

/// The integer a decimal text denotes, with a leading `-` when negative.
pub open spec fn text_value(s: Seq<char>) -> int {
    if s.len() > 0 && s[0] == '-' {
        -unsigned_value(s.drop_first())
    } else {
        unsigned_value(s)
    }
}

/// Whether `s` is an integer written as bigint writes one: an optional `-`, then digits
/// without leading zeros.
pub open spec fn canonical(s: Seq<char>) -> bool {
    s == signed_decimal(text_value(s))
}

proof fn lemma_decimal_reads_back(n: nat)
    ensures
        unsigned_value(decimal(n)) == n,
        decimal(n).len() > 0,
        decimal(n)[0] != '-',
    decreases n,
{
    if n < 10 {
        assert(digit_char(n) as int == n + 48);
        assert(decimal(n) =~= seq![digit_char(n)]);
        assert(seq![digit_char(n)].drop_last() =~= Seq::<char>::empty());
        assert(unsigned_value(Seq::<char>::empty()) == 0);
    } else {
        lemma_decimal_reads_back(n / 10);
        assert(digit_char(n % 10) as int == n % 10 + 48);
        let d = decimal(n / 10).push(digit_char(n % 10));
        assert(d.drop_last() =~= decimal(n / 10));
        assert(d[0] == decimal(n / 10)[0]);
        assert(d.last() == digit_char(n % 10));
        assert(unsigned_value(d) == unsigned_value(decimal(n / 10)) * 10 + digit_value(
            digit_char(n % 10),
        ));
    }
}

/// A number written out reads back as itself, and the writing is canonical.
pub proof fn lemma_signed_decimal_reads_back(m: int)
    ensures
        text_value(signed_decimal(m)) == m,
        canonical(signed_decimal(m)),
        signed_decimal(m).len() > 0,
        (signed_decimal(m)[0] == '-') == (m < 0),
{
    if m < 0 {
        lemma_decimal_reads_back((-m) as nat);
        let s = seq!['-'] + decimal((-m) as nat);
        assert(s.drop_first() =~= decimal((-m) as nat));
    } else {
        lemma_decimal_reads_back(m as nat);
    }
}

/// An amount `mantissa / 10^scale`, of any size, as bigdecimal holds it.
#[derive(Debug, PartialEq, Eq)]
pub struct Decimal {
    digits: String,
    scale: i64,
}

impl View for Decimal {
    /// The mantissa and the scale.
    type V = (int, int);

    closed spec fn view(&self) -> (int, int) {
        (text_value(self.digits@), self.scale as int)
    }
}

impl Clone for Decimal {
    fn clone(&self) -> (r: Decimal)
        ensures
            r == *self,
    {
        proof {
            use_type_invariant(self);
        }
        Decimal { digits: self.digits.clone(), scale: self.scale }
    }
}

impl Decimal {
    #[verifier::type_invariant]
    closed spec fn held(self) -> bool {
        canonical(self.digits@)
    }

    /// The amount with this mantissa written out, at `scale`.
    fn from_text(digits: String, scale: i64, mantissa: Ghost<int>) -> (r: Decimal)
        requires
            digits@ == signed_decimal(mantissa@),
        ensures
            r@ == (mantissa@, scale as int),
    {
        proof {
            lemma_signed_decimal_reads_back(mantissa@);
        }
        Decimal { digits, scale }
    }

    /// The amount `mantissa / 10^scale`.
    pub fn new(mantissa: i128, scale: i64) -> (r: Decimal)
        ensures
            r@ == (mantissa as int, scale as int),
    {
        Decimal::from_text(render_i128(mantissa), scale, Ghost(mantissa as int))
    }

    /// The mantissa, written in decimal.
    pub fn mantissa_text(&self) -> (r: &str)
        ensures
            r@ == signed_decimal(self@.0),
    {
        proof {
            use_type_invariant(self);
        }
        self.digits.as_str()
    }

    /// The number of decimal places; negative when the mantissa counts tens, hundreds, ...
    pub fn scale(&self) -> (r: i64)
        ensures
            r == self@.1,
    {
        self.scale
    }

    /// Whether the amount is below zero.
    pub fn is_negative(&self) -> (r: bool)
        ensures
            r == (self@.0 < 0),
    {
        proof {
            use_type_invariant(self);
            lemma_signed_decimal_reads_back(self@.0);
        }
        self.digits.as_str().unicode_len() > 0 && self.digits.as_str().get_char(0) == '-'
    }
}

/// `a - b`, exact, at the larger of the two scales.
pub open spec fn difference(a: (int, int), b: (int, int)) -> (int, int) {
    let s = if a.1 >= b.1 {
        a.1
    } else {
        b.1
    };
    (a.0 * pow10((s - a.1) as nat) - b.0 * pow10((s - b.1) as nat), s)
}

/// Whether `x` and `y` are the same amount, whatever their scales.
pub open spec fn same_amount(x: (int, int), y: (int, int)) -> bool {
    if x.1 >= y.1 {
        x.0 == y.0 * pow10((x.1 - y.1) as nat)
    } else {
        y.0 == x.0 * pow10((y.1 - x.1) as nat)
    }
}

proof fn lemma_pow10_add(a: nat, b: nat)
    ensures
        pow10(a + b) == pow10(a) * pow10(b),
    decreases a,
{
    if a > 0 {
        lemma_pow10_add((a - 1) as nat, b);
        assert(pow10(a + b) == 10 * pow10((a - 1 + b) as nat));
        assert(10 * (pow10((a - 1) as nat) * pow10(b)) == (10 * pow10((a - 1) as nat)) * pow10(b))
            by (nonlinear_arith);
    }
}

/// The difference is exact: it is `a - b` to the last digit, whatever the two scales
/// (`2500 - 125.50` is `2374.50`, at the larger scale).
pub proof fn lemma_difference_is_exact(a: (int, int), b: (int, int))
    requires
        a.1 >= 0,
        b.1 >= 0,
    ensures
        ({
            let d = difference(a, b);
            d.0 * pow10(a.1 as nat) * pow10(b.1 as nat) == (a.0 * pow10(b.1 as nat) - b.0 * pow10(
                a.1 as nat,
            )) * pow10(d.1 as nat)
        }),
{
    let d = difference(a, b);
    if a.1 >= b.1 {
        let k = (a.1 - b.1) as nat;
        lemma_pow10_add(k, b.1 as nat);
        assert(pow10((a.1 - a.1) as nat) == 1);
        let p = pow10(k);
        let pa = pow10(a.1 as nat);
        let pb = pow10(b.1 as nat);
        assert(pow10(0) == 1);
        assert(d == (a.0 * pow10(0) - b.0 * pow10(k), a.1));
        assert(d.0 == a.0 - b.0 * p);
        assert(pa == p * pb);
        assert((a.0 - b.0 * p) * pa * pb == (a.0 * pb - b.0 * pa) * pa) by (nonlinear_arith)
            requires
                pa == p * pb,
        ;
    } else {
        let k = (b.1 - a.1) as nat;
        lemma_pow10_add(k, a.1 as nat);
        assert(pow10((b.1 - b.1) as nat) == 1);
        let p = pow10(k);
        let pa = pow10(a.1 as nat);
        let pb = pow10(b.1 as nat);
        assert(pow10(0) == 1);
        assert(d == (a.0 * pow10(k) - b.0 * pow10(0), b.1));
        assert(d.0 == a.0 * p - b.0);
        assert(pb == p * pa);
        assert((a.0 * p - b.0) * pa * pb == (a.0 * pb - b.0 * pa) * pb) by (nonlinear_arith)
            requires
                pb == p * pa,
        ;
    }
}

/// Rounding half-to-even picks the nearest whole number of `d`ths: it is off by at most half
/// of `d`, and a tie goes to the even neighbour (`1.005` shows as `1.00`, `1.015` as `1.02`).
pub proof fn lemma_rounding_is_nearest(n: nat, d: nat)
    requires
        d > 0,
    ensures
        -(d as int) <= 2 * (round_half_even_nat(n, d) * d - n) <= d,
        2 * (n % d) == d ==> round_half_even_nat(n, d) % 2 == 0,
{
    let q = n / d;
    let r = n % d;
    vstd::arithmetic::div_mod::lemma_fundamental_div_mod(n as int, d as int);
    assert(q * d == d * q) by (nonlinear_arith);
    assert((q + 1) * d == d * q + d) by (nonlinear_arith);
}

/// Calls bigdecimal's `&BigDecimal - &BigDecimal` on `a_digits / 10^a_scale` and
/// `b_digits / 10^b_scale` (each mantissa read back with `BigInt::from_str`) and splits the
/// result with `into_bigint_and_exponent`, writing the mantissa with `BigInt`'s `Display`.
/// The contract claims the difference is exact, and that the mantissa is written as bigint
/// writes an integer; at which scale bigdecimal holds it (the larger one, or the other
/// operand's when one is zero) is left unsaid.
#[verifier::external_body]
fn bigdecimal_sub(a_digits: &str, a_scale: i64, b_digits: &str, b_scale: i64) -> (r: (String, i64))
    requires
        canonical(a_digits@),
        canonical(b_digits@),
    ensures
        canonical(r.0@),
        same_amount(
            (text_value(r.0@), r.1 as int),
            difference(
                (text_value(a_digits@), a_scale as int),
                (text_value(b_digits@), b_scale as int),
            ),
        ),
{
    let a = bigdecimal::BigDecimal::new(a_digits.parse().unwrap_or_default(), a_scale);
    let b = bigdecimal::BigDecimal::new(b_digits.parse().unwrap_or_default(), b_scale);
    let (m, e) = (&a - &b).into_bigint_and_exponent();
    (m.to_string(), e)
}

impl Decimal {
    /// `self - other`, exact.
    pub fn sub(&self, other: &Decimal) -> (r: Decimal)
        ensures
            same_amount(r@, difference(self@, other@)),
    {
        proof {
            use_type_invariant(self);
            use_type_invariant(other);
        }
        let (digits, scale) = bigdecimal_sub(self.digits.as_str(), self.scale, other.digits.as_str(), other.scale);
        let ghost m = text_value(digits@);
        Decimal::from_text(digits, scale, Ghost(m))
    }
}

/// The amount in hundredths, rounded half-to-even.
pub open spec fn rounded_cents(d: (int, int)) -> int {
    if d.1 <= 2 {
        d.0 * pow10((2 - d.1) as nat)
    } else {
        round_half_even(d.0, pow10((d.1 - 2) as nat))
    }
}

/// Calls bigdecimal's `with_scale_round(2, RoundingMode::HalfEven)` on
/// `digits / 10^scale` and writes the mantissa of the result, whose scale is 2, with
/// `BigInt`'s `Display`. The contract claims the rounding is half-to-even to hundredths,
/// widening with zeros where there are fewer places, as `with_scale_round` does.
#[verifier::external_body]
fn bigdecimal_round_cents(digits: &str, scale: i64) -> (r: String)
    requires
        canonical(digits@),
    ensures
        r@ == signed_decimal(rounded_cents((text_value(digits@), scale as int))),
{
    bigdecimal::BigDecimal::new(digits.parse().unwrap_or_default(), scale).with_scale_round(
        2,
        bigdecimal::RoundingMode::HalfEven,
    ).into_bigint_and_exponent().0.to_string()
}

impl Decimal {
    /// The amount rounded half-to-even to hundredths, at scale 2.
    pub fn round_cents(&self) -> (r: Decimal)
        ensures
            r@ == (rounded_cents(self@), 2int),
    {
        proof {
            use_type_invariant(self);
        }
        let digits = bigdecimal_round_cents(self.digits.as_str(), self.scale);
        Decimal::from_text(digits, 2, Ghost(rounded_cents(self@)))
    }
}

/// The mantissa, at scale 2, of what bigdecimal gives for
/// `(mantissa / 10^scale) * total / elapsed`, rounded half-to-even to hundredths.
pub uninterp spec fn bigdecimal_pace(mantissa: int, scale: int, total: int, elapsed: int) -> int;

/// Calls bigdecimal for `(&amount * BigDecimal::from(total) / BigDecimal::from(elapsed))`
/// and then `with_scale_round(2, RoundingMode::HalfEven)` on it, where `amount` is
/// `digits / 10^scale`, and writes the mantissa of the result, whose scale is 2, with
/// `BigInt`'s `Display`. bigdecimal divides to its default precision before the rounding;
/// the figure is bigdecimal's, named and not restated. `elapsed` is not zero, as the
/// division needs.
#[verifier::external_body]
fn bigdecimal_pace_text(digits: &str, scale: i64, total: i64, elapsed: i64) -> (r: String)
    requires
        canonical(digits@),
        elapsed != 0,
    ensures
        r@ == signed_decimal(
            bigdecimal_pace(text_value(digits@), scale as int, total as int, elapsed as int),
        ),
{
    let amount = bigdecimal::BigDecimal::new(digits.parse().unwrap_or_default(), scale);
    (&amount * bigdecimal::BigDecimal::from(total) / bigdecimal::BigDecimal::from(elapsed))
        .with_scale_round(2, bigdecimal::RoundingMode::HalfEven).into_bigint_and_exponent().0
        .to_string()
}

impl Decimal {
    /// `self * total / elapsed`, rounded half-to-even to hundredths, as bigdecimal computes
    /// it; at scale 2.
    pub fn pace(&self, total: i64, elapsed: i64) -> (r: Decimal)
        requires
            elapsed != 0,
        ensures
            r@ == (bigdecimal_pace(self@.0, self@.1, total as int, elapsed as int), 2int),
    {
        proof {
            use_type_invariant(self);
        }
        let digits = bigdecimal_pace_text(self.digits.as_str(), self.scale, total, elapsed);
        Decimal::from_text(
            digits,
            2,
            Ghost(bigdecimal_pace(self@.0, self@.1, total as int, elapsed as int)),
        )
    }
}

/// The text bigdecimal's `Display` writes for `mantissa / 10^scale`.
pub uninterp spec fn bigdecimal_display(mantissa: int, scale: int) -> Seq<char>;

/// Calls bigdecimal's `Display` (`to_string`) on `digits / 10^scale`. The text is
/// bigdecimal's, named and not restated.
#[verifier::external_body]
fn bigdecimal_text(digits: &str, scale: i64) -> (r: String)
    requires
        canonical(digits@),
    ensures
        r@ == bigdecimal_display(text_value(digits@), scale as int),
{
    bigdecimal::BigDecimal::new(digits.parse().unwrap_or_default(), scale).to_string()
}

impl Decimal {
    /// The amount as bigdecimal writes it: `12.34`, `2374.5000`.
    pub fn text(&self) -> (r: String)
        ensures
            r@ == bigdecimal_display(self@.0, self@.1),
    {
        proof {
            use_type_invariant(self);
        }
        bigdecimal_text(self.digits.as_str(), self.scale)
    }
}

/// Whether `c` is a decimal digit.
pub open spec fn is_digit(c: char) -> bool {
    '0' <= c && c <= '9'
}

/// Whether `c` may stand in a number as bigdecimal writes one: a digit, a sign, the decimal
/// point, an exponent mark, or the `_` that may separate groups of digits.
pub open spec fn literal_char(c: char) -> bool {
    is_digit(c) || c == '+' || c == '-' || c == '.' || c == 'e' || c == 'E' || c == '_'
}

/// A decimal comma is no part of a number: text holding one is never read as an amount.
pub proof fn lemma_a_comma_is_never_read(s: Seq<char>, i: int)
    requires
        0 <= i < s.len(),
        s[i] == ',',
    ensures
        !literal_text(s),
{
    assert(!literal_char(s[i]));
}

/// Whether every character of `s` may stand in a number.
pub open spec fn literal_text(s: Seq<char>) -> bool {
    forall|i: int| 0 <= i < s.len() ==> literal_char(#[trigger] s[i])
}

/// How many digits `s` starts with.
pub open spec fn leading_digits(s: Seq<char>) -> nat
    decreases s.len(),
{
    if s.len() > 0 && is_digit(s[0]) {
        1 + leading_digits(s.drop_first())
    } else {
        0
    }
}

/// `s` without its leading `-`, if it has one.
pub open spec fn unsigned_part(s: Seq<char>) -> Seq<char> {
    if s.len() > 0 && s[0] == '-' {
        s.drop_first()
    } else {
        s
    }
}

/// Whether `s` is a number written plainly: an optional `-`, digits, and optionally a `.`
/// followed by digits.
pub open spec fn plain_decimal(s: Seq<char>) -> bool {
    let b = unsigned_part(s);
    let k = leading_digits(b);
    k > 0 && (k == b.len() || (b[k as int] == '.' && k + 1 < b.len() && leading_digits(
        b.skip(k + 1 as int),
    ) == b.len() - k - 1))
}

/// The digits of a plainly written number, its decimal point left out.
pub open spec fn plain_digits(s: Seq<char>) -> Seq<char> {
    let b = unsigned_part(s);
    let k = leading_digits(b);
    if k == b.len() {
        b
    } else {
        b.take(k as int) + b.skip(k + 1 as int)
    }
}

/// The amount a plainly written number denotes: its digits read as one integer, with the
/// sign, over ten to the number of digits after the point.
pub open spec fn plain_value(s: Seq<char>) -> (int, int) {
    let b = unsigned_part(s);
    let k = leading_digits(b);
    let m = unsigned_value(plain_digits(s));
    (
        if s.len() > 0 && s[0] == '-' {
            -m
        } else {
            m
        },
        if k == b.len() {
            0
        } else {
            b.len() - k - 1
        },
    )
}

proof fn lemma_leading_digits(b: Seq<char>, k: int)
    requires
        0 <= k <= b.len(),
        forall|i: int| 0 <= i < k ==> is_digit(#[trigger] b[i]),
        k == b.len() || !is_digit(b[k]),
    ensures
        leading_digits(b) == k,
    decreases k,
{
    if k > 0 {
        let t = b.drop_first();
        assert forall|i: int| 0 <= i < k - 1 implies is_digit(#[trigger] t[i]) by {
            assert(t[i] == b[i + 1]);
        }
        if k < b.len() {
            assert(t[k - 1] == b[k]);
        }
        lemma_leading_digits(t, k - 1);
    }
}

proof fn lemma_leading_zero_adds_nothing(s: Seq<char>)
    requires
        s.len() > 0,
        s[0] == '0',
    ensures
        unsigned_value(s) == unsigned_value(s.drop_first()),
    decreases s.len(),
{
    if s.len() == 1 {
        assert(s.drop_last() =~= Seq::<char>::empty());
        assert(s.drop_first() =~= Seq::<char>::empty());
        assert(unsigned_value(Seq::<char>::empty()) == 0);
    } else {
        lemma_leading_zero_adds_nothing(s.drop_last());
        assert(s.drop_first().drop_last() =~= s.drop_last().drop_first());
        assert(s.drop_first().last() == s.last());
    }
}

proof fn lemma_digit_char_of_value(c: char)
    requires
        is_digit(c),
    ensures
        0 <= digit_value(c) < 10,
        digit_char(digit_value(c) as nat) == c,
{
    assert(digit_char(digit_value(c) as nat) as int == c as int);
}

/// Digits without a leading zero (or a lone `0`) are how their value is written.
proof fn lemma_digits_are_the_writing(r: Seq<char>)
    requires
        r.len() > 0,
        forall|i: int| 0 <= i < r.len() ==> is_digit(#[trigger] r[i]),
        r[0] != '0' || r.len() == 1,
    ensures
        decimal(unsigned_value(r) as nat) == r,
        unsigned_value(r) >= 0,
        r[0] != '0' ==> unsigned_value(r) > 0,
    decreases r.len(),
{
    lemma_digit_char_of_value(r.last());
    if r.len() == 1 {
        assert(r.drop_last() =~= Seq::<char>::empty());
        assert(unsigned_value(Seq::<char>::empty()) == 0);
        assert(r =~= seq![r.last()]);
    } else {
        let h = r.drop_last();
        assert(h[0] == r[0]);
        assert forall|i: int| 0 <= i < h.len() implies is_digit(#[trigger] h[i]) by {
            assert(h[i] == r[i]);
        }
        lemma_digits_are_the_writing(h);
        let u = unsigned_value(h);
        let d = digit_value(r.last());
        let n = unsigned_value(r);
        assert(n == u * 10 + d);
        assert(n / 10 == u && n % 10 == d) by (nonlinear_arith)
            requires
                n == u * 10 + d,
                0 <= d < 10,
                u >= 0,
        ;
        assert(r =~= h.push(r.last()));
    }
}

/// The digits of `v` and its number of places, when `v` is a plainly written number.
fn scan_plain(v: &Vec<char>) -> (r: Option<(Vec<char>, usize)>)
    ensures
        r is Some <==> plain_decimal(v@),
        r matches Some((d, f)) ==> {
            &&& d@ == plain_digits(v@)
            &&& f as int == plain_value(v@).1
            &&& d@.len() > 0
            &&& forall|x: int| 0 <= x < d@.len() ==> is_digit(#[trigger] d@[x])
        },
{
    let n = v.len();
    let neg = n > 0 && v[0] == '-';
    let start: usize = if neg {
        1
    } else {
        0
    };
    let ghost b = unsigned_part(v@);
    assert(b =~= v@.subrange(start as int, n as int));
    let mut i = start;
    while i < n && '0' <= v[i] && v[i] <= '9'
        invariant
            start <= i <= n,
            n == v@.len(),
            forall|j: int| start <= j < i ==> is_digit(#[trigger] v@[j]),
        decreases n - i,
    {
        i = i + 1;
    }
    let ghost k = (i - start) as int;
    proof {
        assert forall|j: int| 0 <= j < k implies is_digit(#[trigger] b[j]) by {
            assert(b[j] == v@[start + j]);
        }
        if i < n {
            assert(b[k] == v@[i as int]);
        }
        lemma_leading_digits(b, k);
    }
    if i == start {
        return None;
    }
    let mut d: Vec<char> = Vec::new();
    let mut p = start;
    while p < i
        invariant
            start <= p <= i <= n,
            n == v@.len(),
            d@ == v@.subrange(start as int, p as int),
        decreases i - p,
    {
        d.push(v[p]);
        p = p + 1;
        assert(d@ =~= v@.subrange(start as int, p as int));
    }
    if i == n {
        assert(d@ =~= plain_digits(v@));
        assert forall|x: int| 0 <= x < d@.len() implies is_digit(#[trigger] d@[x]) by {
            assert(d@[x] == v@[start + x]);
        }
        return Some((d, 0));
    }
    if v[i] != '.' || i + 1 >= n {
        proof {
            assert(b[k] == v@[i as int]);
        }
        return None;
    }
    let mut j = i + 1;
    while j < n && '0' <= v[j] && v[j] <= '9'
        invariant
            i + 1 <= j <= n,
            n == v@.len(),
            d@ == v@.subrange(start as int, i as int) + v@.subrange(i + 1, j as int),
            forall|x: int| i + 1 <= x < j ==> is_digit(#[trigger] v@[x]),
        decreases n - j,
    {
        d.push(v[j]);
        j = j + 1;
        assert(d@ =~= v@.subrange(start as int, i as int) + v@.subrange(i + 1, j as int));
    }
    let ghost t = b.skip(k + 1);
    proof {
        assert(t =~= v@.subrange(i + 1, n as int));
        assert forall|x: int| 0 <= x < j - i - 1 implies is_digit(#[trigger] t[x]) by {
            assert(t[x] == v@[i + 1 + x]);
        }
        if j < n {
            assert(t[j - i - 1] == v@[j as int]);
        }
        lemma_leading_digits(t, j - i - 1);
        assert(b[k] == v@[i as int]);
    }
    if j < n {
        return None;
    }
    assert(d@ =~= plain_digits(v@));
    assert forall|x: int| 0 <= x < d@.len() implies is_digit(#[trigger] d@[x]) by {
        if x < k {
            assert(d@[x] == v@[start + x]);
        } else {
            assert(d@[x] == v@[start + x + 1]);
        }
    }
    Some((d, n - i - 1))
}

/// The mantissa the digits `d` make, negated when `negative`, written as bigint writes it.
fn mantissa_text(d: &Vec<char>, negative: bool) -> (m: String)
    requires
        d@.len() > 0,
        forall|x: int| 0 <= x < d@.len() ==> is_digit(#[trigger] d@[x]),
    ensures
        canonical(m@),
        text_value(m@) == (if negative {
            -unsigned_value(d@)
        } else {
            unsigned_value(d@)
        }),
{
    let ghost ds = d@;
    let mut z: usize = 0;
    assert(ds.skip(0) =~= ds);
    while z < d.len() - 1 && d[z] == '0'
        invariant
            z < d@.len(),
            d@ == ds,
            unsigned_value(ds.skip(z as int)) == unsigned_value(ds),
        decreases d.len() - z,
    {
        proof {
            lemma_leading_zero_adds_nothing(ds.skip(z as int));
            assert(ds.skip(z as int).drop_first() =~= ds.skip(z + 1));
        }
        z = z + 1;
    }
    let ghost rest = ds.skip(z as int);
    proof {
        assert forall|x: int| 0 <= x < rest.len() implies is_digit(#[trigger] rest[x]) by {
            assert(rest[x] == ds[z + x]);
        }
        assert(rest[0] == ds[z as int]);
        lemma_digits_are_the_writing(rest);
    }
    let zero = z == d.len() - 1 && d[z] == '0';
    let mut m = String::new();
    if negative && !zero {
        push_char(&mut m, '-');
    }
    let ghost lead = m@;
    let mut q = z;
    while q < d.len()
        invariant
            z <= q <= d@.len(),
            d@ == ds,
            m@ == lead + ds.subrange(z as int, q as int),
        decreases d.len() - q,
    {
        push_char(&mut m, d[q]);
        q = q + 1;
        assert(m@ =~= lead + ds.subrange(z as int, q as int));
    }
    proof {
        assert(ds.subrange(z as int, ds.len() as int) =~= rest);
        let u = unsigned_value(rest);
        if zero {
            assert(rest =~= seq!['0']);
            lemma_digit_char_of_value('0');
            assert(rest.drop_last() =~= Seq::<char>::empty());
            assert(unsigned_value(Seq::<char>::empty()) == 0);
            assert(u == 0);
        } else {
            assert(rest[0] != '0');
        }
        if negative && !zero {
            assert(lead =~= seq!['-']);
            assert(m@ =~= seq!['-'] + rest);
            assert(m@.drop_first() =~= rest);
            assert(signed_decimal(-u) =~= seq!['-'] + decimal(u as nat));
        } else {
            assert(lead =~= Seq::<char>::empty());
            assert(m@ =~= rest);
        }
    }
    m
}

/// The plain reading of `v`: the mantissa, written as bigint writes it, and the number of
/// places, when `v` is a plainly written number.
fn plain_reading(v: &Vec<char>) -> (r: Option<(String, usize)>)
    ensures
        r is Some <==> plain_decimal(v@),
        r matches Some((m, f)) ==> canonical(m@) && (text_value(m@), f as int) == plain_value(
            v@,
        ),
{
    match scan_plain(v) {
        Some((d, places)) => {
            let negative = v.len() > 0 && v[0] == '-';
            Some((mantissa_text(&d, negative), places))
        },
        None => None,
    }
}

/// Whether bigdecimal's reading of `text` as `digits / 10^scale` is what the text says: every
/// character of it may stand in a number, and a plainly written number is read as written.
fn reads_as_written(text: &str, digits: &str, scale: i64) -> (ok: bool)
    requires
        canonical(digits@),
    ensures
        ok <==> (literal_text(text@) && (plain_decimal(text@) ==> (
            text_value(digits@),
            scale as int,
        ) == plain_value(text@))),
{
    let v = chars_of(text);
    let mut i: usize = 0;
    while i < v.len()
        invariant
            i <= v@.len(),
            v@ == text@,
            forall|j: int| 0 <= j < i ==> literal_char(#[trigger] v@[j]),
        decreases v.len() - i,
    {
        let c = v[i];
        if !(('0' <= c && c <= '9') || c == '+' || c == '-' || c == '.' || c == 'e' || c == 'E'
            || c == '_') {
            return false;
        }
        i = i + 1;
    }
    match plain_reading(&v) {
        Some((m, places)) => {
            let same = crate::text::same_text(m.as_str(), digits) && places as i128 == scale
                as i128;
            proof {
                if (text_value(digits@), scale as int) == plain_value(text@) {
                    assert(m@ == digits@);
                }
            }
            same
        },
        None => true,
    }
}

/// Reads `text` as bigdecimal does (`BigDecimal::from_str`), giving the integer mantissa and
/// exponent of the value (`mantissa * 10^-exponent`), or `None` when it is not a decimal.
pub uninterp spec fn bigdecimal_parse(text: Seq<char>) -> Option<(int, i64)>;

/// Parses `text` with `bigdecimal::BigDecimal::from_str` and splits the result with
/// `into_bigint_and_exponent`, writing the mantissa with `BigInt`'s `Display`. The parse is
/// bigdecimal's, named and not restated; the contract claims the mantissa is written as
/// bigint writes an integer.
#[verifier::external_body]
fn parse_bigdecimal(text: &str) -> (r: Option<(String, i64)>)
    ensures
        match bigdecimal_parse(text@) {
            Some((m, e)) => r matches Some((d, x)) && d@ == signed_decimal(m) && x == e,
            None => r is None,
        },
        r matches Some((d, x)) ==> literal_text(text@) && (plain_decimal(text@) ==> (
            text_value(d@),
            x as int,
        ) == plain_value(text@)),
{
    text.parse::<bigdecimal::BigDecimal>().ok().map(
        |d| {
            let (m, e) = d.into_bigint_and_exponent();
            (m.to_string(), e)
        },
    )
}

/// The amount `text` denotes, when bigdecimal reads it.
pub open spec fn amount_of(text: Seq<char>) -> Option<(int, int)> {
    match bigdecimal_parse(text) {
        Some((m, e)) => Some((m, e as int)),
        None => None,
    }
}

impl Decimal {
    /// Reads `text` as a decimal amount.
    pub fn parse(text: &str) -> (r: Option<Decimal>)
        ensures
            r matches Some(d) ==> amount_of(text@) == Some(d@),
            r is None ==> amount_of(text@) is None,
            r matches Some(d) ==> literal_text(text@) && (plain_decimal(text@) ==> d@
                == plain_value(text@)),
    {
        match parse_bigdecimal(text) {
            Some((digits, scale)) => {
                proof {
                    lemma_signed_decimal_reads_back(bigdecimal_parse(text@).unwrap().0);
                }
                if !reads_as_written(text, digits.as_str(), scale) {
                    return None;
                }
                let ghost m = bigdecimal_parse(text@).unwrap().0;
                Some(Decimal::from_text(digits, scale, Ghost(m)))
            },
            None => None,
        }
    }
}

/// Whether `c` is an ASCII letter.
pub open spec fn ascii_letter(c: char) -> bool {
    ('A' <= c && c <= 'Z') || ('a' <= c && c <= 'z')
}

/// The upper-case form of an ASCII letter.
pub open spec fn ascii_upper(c: char) -> char {
    if 'a' <= c && c <= 'z' {
        ((c as u32) - 32) as char
    } else {
        c
    }
}

/// Whether `code` is a currency code: exactly three ASCII letters.
pub open spec fn valid_code(code: Seq<char>) -> bool {
    code.len() == 3 && forall|i: int| 0 <= i < 3 ==> ascii_letter(#[trigger] code[i])
}

/// A currency, as its upper-case three-letter code.
#[derive(Debug, Clone, Copy, PartialEq, Eq, Structural)]
pub struct Currency {
    first: char,
    second: char,
    third: char,
}

impl View for Currency {
    type V = Seq<char>;

    closed spec fn view(&self) -> Seq<char> {
        seq![self.first, self.second, self.third]
    }
}

/// The message refusing `code` as a currency.
pub open spec fn invalid_code_message(code: Seq<char>) -> Seq<char> {
    "Invalid currency code: "@ + code
}

fn upper(c: char) -> (r: char)
    requires
        ascii_letter(c),
    ensures
        r == ascii_upper(c),
{
    if 'a' <= c && c <= 'z' {
        ((c as u8) - 32) as char
    } else {
        c
    }
}

impl Currency {
    /// Exactly three ASCII letters, upper-cased.
    pub fn new(code: &str) -> (r: Result<Currency, String>)
        ensures
            valid_code(code@) ==> (r matches Ok(c) && c@ == seq![
                ascii_upper(code@[0]),
                ascii_upper(code@[1]),
                ascii_upper(code@[2]),
            ]),
            !valid_code(code@) ==> (r matches Err(m) && m@ == invalid_code_message(code@)),
    {
        let v = chars_of(code);
        let ok = v.len() == 3 && is_letter(v[0]) && is_letter(v[1]) && is_letter(v[2]);
        if !ok {
            proof {
                if valid_code(code@) {
                    assert(ascii_letter(code@[0]) && ascii_letter(code@[1]) && ascii_letter(
                        code@[2],
                    ));
                }
            }
            return Err(concat("Invalid currency code: ", code));
        }
        assert(forall|i: int| 0 <= i < 3 ==> ascii_letter(#[trigger] code@[i])) by {
            assert(ascii_letter(v@[0]) && ascii_letter(v@[1]) && ascii_letter(v@[2]));
        }
        let c = Currency { first: upper(v[0]), second: upper(v[1]), third: upper(v[2]) };
        Ok(c)
    }

    /// PLN, what the server assumes for an omitted code.
    pub fn pln() -> (r: Currency)
        ensures
            r@ == seq!['P', 'L', 'N'],
    {
        Currency { first: 'P', second: 'L', third: 'N' }
    }

    /// The three-letter code.
    pub fn code(&self) -> (r: String)
        ensures
            r@ == self@,
    {
        let mut r = String::new();
        push_char(&mut r, self.first);
        push_char(&mut r, self.second);
        push_char(&mut r, self.third);
        assert(r@ =~= self@);
        r
    }

    /// Whether both are the same currency.
    pub fn same(&self, other: &Currency) -> (r: bool)
        ensures
            r == (self@ == other@),
    {
        let r = self.first == other.first && self.second == other.second && self.third
            == other.third;
        proof {
            if self@ == other@ {
                assert(self@[0] == other@[0] && self@[1] == other@[1] && self@[2] == other@[2]);
            }
        }
        r
    }
}

fn is_letter(c: char) -> (r: bool)
    ensures
        r == ascii_letter(c),
{
    ('A' <= c && c <= 'Z') || ('a' <= c && c <= 'z')
}

impl Default for Currency {
    /// PLN.
    fn default() -> (r: Currency)
        ensures
            r@ == seq!['P', 'L', 'N'],
    {
        Currency::pln()
    }
}

/// An amount in one currency.
#[derive(Debug, Clone, PartialEq, Eq)]
pub struct Money {
    pub amount: Decimal,
    pub currency: Currency,
}

/// What a typed amount and currency code amount to: the money, or the message refusing them.
pub open spec fn money_outcome(amount: Seq<char>, currency: Seq<char>) -> Result<
    ((int, int), Seq<char>),
    Seq<char>,
> {
    let a = trim(amount);
    let c = trim(currency);
    if a.len() == 0 {
        Err("An amount is required"@)
    } else {
        match amount_of(a) {
            None => Err("The amount is invalid"@),
            Some(value) => if c.len() == 0 {
                Ok((value, seq!['P', 'L', 'N']))
            } else if valid_code(c) {
                Ok((value, seq![ascii_upper(c[0]), ascii_upper(c[1]), ascii_upper(c[2])]))
            } else {
                Err(invalid_code_message(c))
            },
        }
    }
}

/// Parses an amount and a currency code into money the server will accept.
///
/// Both are trimmed. The currency must be exactly three ASCII letters and is upper-cased;
/// an empty code falls back to PLN, as the server does with an omitted one.
pub fn parse_money(amount: &str, currency: &str) -> (r: Result<Money, ClientError>)
    ensures
        r matches Ok(m) ==> money_outcome(amount@, currency@) == Ok::<
            ((int, int), Seq<char>),
            Seq<char>,
        >((m.amount@, m.currency@)),
        r matches Err(e) ==> e@.0 == ErrorKind::BadRequest && money_outcome(amount@, currency@)
            == Err::<((int, int), Seq<char>), Seq<char>>(e@.1),
        r matches Ok(m) ==> literal_text(trim(amount@)) && (plain_decimal(trim(amount@))
            ==> m.amount@ == plain_value(trim(amount@))),
{
    let a = trimmed(amount);
    if a.as_str().unicode_len() == 0 {
        return Err(bad_request("An amount is required"));
    }
    let parsed = match Decimal::parse(a.as_str()) {
        Some(d) => d,
        None => return Err(bad_request("The amount is invalid")),
    };
    let c = trimmed(currency);
    let currency = if c.as_str().unicode_len() == 0 {
        Currency::pln()
    } else {
        match Currency::new(c.as_str()) {
            Ok(code) => code,
            Err(message) => return Err(ClientError::BadRequest(message)),
        }
    };
    Ok(Money { amount: parsed, currency })
}

/// The message refusing a negative amount.
pub open spec fn negative_message() -> Seq<char> {
    "The amount must not be negative"@
}

/// Refuses a negative amount where the server refuses one.
///
/// A balance may legitimately go negative through spending; what is refused is entering a
/// negative figure.
pub fn require_non_negative(money: &Money) -> (r: Result<(), ClientError>)
    ensures
        r is Ok <==> money.amount@.0 >= 0,
        r matches Err(e) ==> e@ == (ErrorKind::BadRequest, negative_message()),
{
    if money.amount.is_negative() {
        return Err(bad_request("The amount must not be negative"));
    }
    Ok(())
}

/// The message refusing an expense in another currency than its wallet's.
pub open spec fn mismatch_message(wallet: Seq<char>, expense: Seq<char>) -> Seq<char> {
    "Currency mismatch: expected "@ + wallet + ", got "@ + expense
}

/// Refuses an expense whose currency is not its wallet's.
pub fn require_same_currency(wallet: &Money, expense: &Money) -> (r: Result<(), ClientError>)
    ensures
        r is Ok <==> wallet.currency@ == expense.currency@,
        r matches Err(e) ==> e@ == (
            ErrorKind::BadRequest,
            mismatch_message(wallet.currency@, expense.currency@),
        ),
{
    if !wallet.currency.same(&expense.currency) {
        let w = wallet.currency.code();
        let x = expense.currency.code();
        let a = concat("Currency mismatch: expected ", w.as_str());
        let b = concat(a.as_str(), ", got ");
        return Err(ClientError::BadRequest(concat(b.as_str(), x.as_str())));
    }
    Ok(())
}

impl Money {
    /// `self - other` in their shared currency, exact; `None` when the currencies differ.
    pub fn sub(&self, other: &Money) -> (r: Option<Money>)
        ensures
            r is Some <==> self.currency@ == other.currency@,
            r matches Some(m) ==> m.currency == self.currency && same_amount(
                m.amount@,
                difference(self.amount@, other.amount@),
            ),
    {
        if !self.currency.same(&other.currency) {
            return None;
        }
        let amount = self.amount.sub(&other.amount);
        Some(Money { amount, currency: self.currency })
    }
}

/// How money reads on screen: the amount rounded half-to-even to two decimals, written by
/// bigdecimal, then the code.
pub open spec fn money_text(money: Money) -> Seq<char> {
    bigdecimal_display(rounded_cents(money.amount@), 2) + seq![' '] + money.currency@
}

/// Renders money for display.
///
/// An amount keeps the scale it was computed with, so `2500 - 125.50` is `2374.50` at scale
/// two but may arrive as `2374.5000`. Rounding for display only, never for storage, keeps
/// both true.
pub fn format_money(money: &Money) -> (r: String)
    ensures
        r@ == money_text(*money),
{
    let rounded = money.amount.round_cents();
    let mut r = rounded.text();
    push_char(&mut r, ' ');
    let code = money.currency.code();
    r.append(code.as_str());
    r
}

} // verus!
