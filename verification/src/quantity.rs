//! Resource quantities such as `500m`, `1024Mi` or `1e3`, compared by value.

use vstd::prelude::*;
use crate::text::{
    char_is, chars_of, decimal, digits_value, is_digit, join3, law_decimal_injective,
    lemma_decimal_digits, lemma_decimal_value, lemma_digits_error_stays, lemma_position_is, position,
    pow10, text_of, u32_text, NumberError,
};

verus! {

/// The largest number that a quantity is computed with.
pub open spec fn limit() -> nat {
    i128::MAX as nat
}

/// Whether a number can be computed with.
pub open spec fn fits(n: int) -> bool {
    i128::MIN <= n <= i128::MAX
}

/// Splits a quantity into its number and what its suffix multiplies and divides
/// the number by. A suffix without a number before it is no suffix.
pub open spec fn scaled(s: Seq<char>) -> (Seq<char>, int, int) {
    let n = s.len();
    if n > 2 && s[n - 1] == 'i' && binary_scale(s[n - 2]) > 0 {
        (s.take(n - 2), binary_scale(s[n - 2]), 1)
    } else if n > 1 && multiple_scale(s[n - 1]) > 0 {
        (s.take(n - 1), multiple_scale(s[n - 1]), 1)
    } else if n > 1 && fraction_scale(s[n - 1]) > 0 {
        (s.take(n - 1), 1, fraction_scale(s[n - 1]))
    } else {
        (s, 1, 1)
    }
}

/// What a letter before `i` multiplies by; zero for any other letter.
pub open spec fn binary_scale(c: char) -> int {
    match c {
        'K' => 0x400,
        'M' => 0x10_0000,
        'G' => 0x4000_0000,
        'T' => 0x100_0000_0000,
        'P' => 0x4_0000_0000_0000,
        'E' => 0x1000_0000_0000_0000,
        _ => 0,
    }
}

/// What a suffix letter multiplies by; zero for any other letter.
pub open spec fn multiple_scale(c: char) -> int {
    match c {
        'k' => 1_000,
        'K' => 1_000,
        'M' => 1_000_000,
        'G' => 1_000_000_000,
        'T' => 1_000_000_000_000,
        'P' => 1_000_000_000_000_000,
        'E' => 1_000_000_000_000_000_000,
        _ => 0,
    }
}

/// What a suffix letter divides by; zero for any other letter.
pub open spec fn fraction_scale(c: char) -> int {
    match c {
        'n' => 1_000_000_000,
        'u' => 1_000_000,
        'm' => 1_000,
        _ => 0,
    }
}

/// Whether a character starts a decimal exponent.
pub open spec fn exponent_mark() -> spec_fn(char) -> bool {
    |c: char| c == 'e' || c == 'E'
}

/// A signed 32-bit number.
pub open spec fn exponent_value(s: Seq<char>) -> Option<int> {
    if s.len() > 1 && s[0] == '-' {
        match digits_value(s.skip(1), 0x8000_0000) {
            Ok(v) => Some(-(v as int)),
            Err(_) => None,
        }
    } else if s.len() > 1 && s[0] == '+' {
        match digits_value(s.skip(1), 0x7fff_ffff) {
            Ok(v) => Some(v as int),
            Err(_) => None,
        }
    } else if s.len() > 0 {
        match digits_value(s, 0x7fff_ffff) {
            Ok(v) => Some(v as int),
            Err(_) => None,
        }
    } else {
        None
    }
}

/// The text after a sign.
pub open spec fn unsigned_part(mantissa: Seq<char>) -> Seq<char> {
    if mantissa.len() > 0 && (mantissa[0] == '-' || mantissa[0] == '+') {
        mantissa.skip(1)
    } else {
        mantissa
    }
}

/// The digits before the decimal point.
pub open spec fn whole_part(unsigned: Seq<char>) -> Seq<char> {
    unsigned.take(position(unsigned, char_is('.')) as int)
}

/// The digits after the decimal point.
pub open spec fn fraction_part(unsigned: Seq<char>) -> Seq<char> {
    let dot = position(unsigned, char_is('.')) as int;
    if dot < unsigned.len() {
        unsigned.skip(dot + 1)
    } else {
        Seq::empty()
    }
}

/// The power of ten by which the digits of a fraction are divided. The count of
/// digits is a 32-bit number.
pub open spec fn fraction_power(digits: nat) -> nat {
    pow10((digits % 0x1_0000_0000) as nat)
}

/// The value of a mantissa's digits without its point, and how many of them
/// stand after the point.
pub open spec fn mantissa_value(mantissa: Seq<char>) -> Option<(int, nat)> {
    let unsigned = unsigned_part(mantissa);
    let digits = whole_part(unsigned) + fraction_part(unsigned);
    if digits.len() == 0 {
        None
    } else {
        match digits_value(digits, limit()) {
            Err(_) => None,
            Ok(v) => Some(
                (
                    if mantissa[0] == '-' {
                        -(v as int)
                    } else {
                        v as int
                    },
                    fraction_part(unsigned).len(),
                ),
            ),
        }
    }
}

/// The numerator and denominator of a value with so many digits after its
/// point, an exponent and a suffix.
pub open spec fn shifted(
    value: int,
    fraction_digits: nat,
    exponent: int,
    multiplier: int,
    divisor: int,
) -> Option<(int, int)> {
    let power = fraction_power(fraction_digits) as int;
    let shift = pow10(magnitude(exponent)) as int;
    let n = value * multiplier;
    let d = power * divisor;
    if !fits(power) || !fits(n) || !fits(d) || !fits(shift) {
        None
    } else if exponent >= 0 {
        if fits(n * shift) {
            Some((n * shift, d))
        } else {
            None
        }
    } else {
        if fits(d * shift) {
            Some((n, d * shift))
        } else {
            None
        }
    }
}

/// The numerator and denominator of a mantissa, an exponent and a suffix.
pub open spec fn assembled(mantissa: Seq<char>, exponent: int, multiplier: int, divisor: int) -> Option<
    (int, int),
> {
    match mantissa_value(mantissa) {
        None => None,
        Some((value, fraction_digits)) => shifted(
            value,
            fraction_digits,
            exponent,
            multiplier,
            divisor,
        ),
    }
}

/// The numerator and denominator that a quantity stands for, where it is
/// well-formed and can be computed with.
pub open spec fn quantity_fraction(s: Seq<char>) -> Option<(int, int)> {
    let (number, multiplier, divisor) = scaled(s);
    let mark = position(number, exponent_mark()) as int;
    if mark < number.len() {
        match exponent_value(number.skip(mark + 1)) {
            None => None,
            Some(exponent) => assembled(number.take(mark), exponent, multiplier, divisor),
        }
    } else {
        assembled(number, 0, multiplier, divisor)
    }
}

/// The greatest common divisor.
pub open spec fn gcd(a: nat, b: nat) -> nat
    decreases b,
{
    if b == 0 {
        a
    } else {
        gcd(b, a % b)
    }
}

/// The distance of a number from zero.
pub open spec fn magnitude(n: int) -> nat {
    if n < 0 {
        (-n) as nat
    } else {
        n as nat
    }
}

/// A number in base ten, with a sign where it is negative.
pub open spec fn signed_decimal(n: int) -> Seq<char> {
    if n < 0 {
        seq!['-'] + decimal((-n) as nat)
    } else {
        decimal(n as nat)
    }
}

/// The numerator in lowest terms.
pub open spec fn reduced_numerator(n: int, d: int) -> int {
    let g = gcd(magnitude(n), magnitude(d)) as int;
    if n < 0 {
        -(magnitude(n) as int / g)
    } else {
        magnitude(n) as int / g
    }
}

/// The denominator in lowest terms.
pub open spec fn reduced_denominator(n: int, d: int) -> int {
    d / gcd(magnitude(n), magnitude(d)) as int
}

/// A fraction in lowest terms, as text.
pub open spec fn fraction_text(n: int, d: int) -> Seq<char> {
    signed_decimal(reduced_numerator(n, d)) + "/"@ + decimal(reduced_denominator(n, d) as nat)
}

/// The quantity in lowest terms, as text.
pub open spec fn normal_form(s: Seq<char>) -> Option<Seq<char>> {
    match quantity_fraction(s) {
        None => None,
        Some((n, d)) => Some(fraction_text(n, d)),
    }
}

proof fn lemma_pow10_positive(k: nat)
    ensures
        pow10(k) >= 1,
    decreases k,
{
    if k > 0 {
        lemma_pow10_positive((k - 1) as nat);
    }
}

proof fn lemma_pow10_grows(j: nat, k: nat)
    requires
        j <= k,
    ensures
        pow10(j) <= pow10(k),
    decreases k - j,
{
    if j < k {
        lemma_pow10_positive((k - 1) as nat);
        lemma_pow10_grows(j, (k - 1) as nat);
    }
}

/// A greatest common divisor is positive and divides both numbers.
proof fn lemma_gcd_divides(a: nat, b: nat)
    requires
        a > 0 || b > 0,
    ensures
        gcd(a, b) > 0,
        a % gcd(a, b) == 0,
        b % gcd(a, b) == 0,
    decreases b,
{
    if b == 0 {
        assert(a % a == 0) by (nonlinear_arith)
            requires
                a > 0,
        ;
        assert(0nat % a == 0) by (nonlinear_arith)
            requires
                a > 0,
        ;
    } else {
        let r = a % b;
        lemma_gcd_divides(b, r);
        let g = gcd(b, r);
        let q = a / b;
        vstd::arithmetic::div_mod::lemma_fundamental_div_mod(a as int, b as int);
        vstd::arithmetic::div_mod::lemma_fundamental_div_mod(b as int, g as int);
        vstd::arithmetic::div_mod::lemma_fundamental_div_mod(r as int, g as int);
        let x = b / g;
        let y = r / g;
        assert(a == g * (x * q + y)) by (nonlinear_arith)
            requires
                a == b * q + r,
                b == g * x,
                r == g * y,
        ;
        vstd::arithmetic::div_mod::lemma_mod_multiples_basic((x * q + y) as int, g as int);
        assert((x * q + y) * g == g * (x * q + y)) by (nonlinear_arith);
    }
}

/// A common factor comes out of the greatest common divisor.
proof fn lemma_gcd_scales(k: nat, a: nat, b: nat)
    requires
        k > 0,
    ensures
        gcd(k * a, k * b) == k * gcd(a, b),
    decreases b,
{
    if b == 0 {
        assert(k * b == 0) by (nonlinear_arith)
            requires
                b == 0,
        ;
    } else {
        assert(k * b > 0) by (nonlinear_arith)
            requires
                k > 0,
                b > 0,
        ;
        vstd::arithmetic::div_mod::lemma_fundamental_div_mod(a as int, b as int);
        let q = a / b;
        let r = a % b;
        assert(k * a == (k * b) * q + k * r) by (nonlinear_arith)
            requires
                a == b * q + r,
        ;
        assert(k * r < k * b) by (nonlinear_arith)
            requires
                r < b,
                k > 0,
        ;
        assert((k * b) * q == q * (k * b)) by (nonlinear_arith);
        vstd::arithmetic::div_mod::lemma_fundamental_div_mod_converse(
            (k * a) as int,
            (k * b) as int,
            q as int,
            (k * r) as int,
        );
        lemma_gcd_scales(k, b, r);
    }
}

/// The parts of a fraction are its lowest terms times their greatest common
/// divisor.
proof fn lemma_lowest_terms(n: int, d: int)
    requires
        d > 0,
    ensures
        gcd(magnitude(n), magnitude(d)) > 0,
        n == reduced_numerator(n, d) * gcd(magnitude(n), magnitude(d)),
        d == reduced_denominator(n, d) * gcd(magnitude(n), magnitude(d)),
        reduced_denominator(n, d) > 0,
{
    let a = magnitude(n);
    let b = magnitude(d);
    let g = gcd(a, b);
    lemma_gcd_divides(a, b);
    vstd::arithmetic::div_mod::lemma_fundamental_div_mod(a as int, g as int);
    vstd::arithmetic::div_mod::lemma_fundamental_div_mod(b as int, g as int);
    let x = a as int / g as int;
    let y = b as int / g as int;
    assert(g * x == x * g) by (nonlinear_arith);
    assert(g * y == y * g) by (nonlinear_arith);
    assert((-x) * g == -(x * g)) by (nonlinear_arith);
    assert(y > 0) by (nonlinear_arith)
        requires
            y * g == b,
            b > 0,
            g > 0,
    ;
}

/// Two fractions have the same lowest terms exactly where they are equal.
pub proof fn law_lowest_terms_are_unique(n1: int, d1: int, n2: int, d2: int)
    requires
        d1 > 0,
        d2 > 0,
    ensures
        n1 * d2 == n2 * d1 <==> reduced_numerator(n1, d1) == reduced_numerator(n2, d2)
            && reduced_denominator(n1, d1) == reduced_denominator(n2, d2),
{
    let g1 = gcd(magnitude(n1), magnitude(d1));
    let g2 = gcd(magnitude(n2), magnitude(d2));
    let p1 = reduced_numerator(n1, d1);
    let q1 = reduced_denominator(n1, d1);
    let p2 = reduced_numerator(n2, d2);
    let q2 = reduced_denominator(n2, d2);
    lemma_lowest_terms(n1, d1);
    lemma_lowest_terms(n2, d2);
    if p1 == p2 && q1 == q2 {
        assert(n1 * d2 == n2 * d1) by (nonlinear_arith)
            requires
                n1 == p1 * g1,
                d2 == q1 * g2,
                n2 == p1 * g2,
                d1 == q1 * g1,
        ;
    }
    if n1 * d2 == n2 * d1 {
        let m1 = magnitude(n1);
        let m2 = magnitude(n2);
        let e1 = magnitude(d1);
        let e2 = magnitude(d2);
        assert(e2 * m1 == e1 * m2) by (nonlinear_arith)
            requires
                n1 * d2 == n2 * d1,
                d1 > 0,
                d2 > 0,
                e1 == d1,
                e2 == d2,
                m1 == (if n1 < 0 {
                    -n1
                } else {
                    n1
                }),
                m2 == (if n2 < 0 {
                    -n2
                } else {
                    n2
                }),
        ;
        lemma_gcd_scales(e2, m1, e1);
        lemma_gcd_scales(e1, m2, e2);
        assert(e2 * e1 == e1 * e2) by (nonlinear_arith);
        assert(e2 * g1 == e1 * g2);
        assert(q1 == q2) by (nonlinear_arith)
            requires
                e2 * g1 == e1 * g2,
                e1 == q1 * g1,
                e2 == q2 * g2,
                g1 > 0,
                g2 > 0,
        ;
        assert(p1 == p2) by (nonlinear_arith)
            requires
                n1 * d2 == n2 * d1,
                n1 == p1 * g1,
                d2 == q1 * g2,
                n2 == p2 * g2,
                d1 == q1 * g1,
                g1 > 0,
                g2 > 0,
                q1 > 0,
        ;
    }
}

proof fn lemma_no_slash(n: int)
    ensures
        signed_decimal(n).len() > 0,
        forall|i: int| 0 <= i < signed_decimal(n).len() ==> #[trigger] signed_decimal(n)[i] != '/',
{
    let m = magnitude(n);
    lemma_decimal_digits(m);
    assert forall|i: int| 0 <= i < signed_decimal(n).len() implies #[trigger] signed_decimal(n)[i]
        != '/' by {
        if n < 0 {
            if i > 0 {
                assert(signed_decimal(n)[i] == decimal(m)[i - 1]);
                assert(is_digit(decimal(m)[i - 1]));
            }
        } else {
            assert(is_digit(decimal(m)[i]));
        }
    }
}

proof fn lemma_signed_injective(a: int, b: int)
    requires
        signed_decimal(a) == signed_decimal(b),
    ensures
        a == b,
{
    let da = decimal(magnitude(a));
    let db = decimal(magnitude(b));
    lemma_decimal_digits(magnitude(a));
    lemma_decimal_digits(magnitude(b));
    assert(is_digit(da[0]));
    assert(is_digit(db[0]));
    if a < 0 && b < 0 {
        assert(signed_decimal(a).skip(1) =~= da);
        assert(signed_decimal(b).skip(1) =~= db);
        law_decimal_injective(magnitude(a), magnitude(b));
    } else if a < 0 {
        assert(signed_decimal(a)[0] == '-');
    } else if b < 0 {
        assert(signed_decimal(b)[0] == '-');
    } else {
        law_decimal_injective(magnitude(a), magnitude(b));
    }
}

proof fn lemma_text_injective(p1: int, q1: nat, p2: int, q2: nat)
    requires
        signed_decimal(p1) + "/"@ + decimal(q1) == signed_decimal(p2) + "/"@ + decimal(q2),
    ensures
        p1 == p2,
        q1 == q2,
{
    reveal_strlit("/");
    let a = signed_decimal(p1);
    let b = signed_decimal(p2);
    let t1 = a + "/"@ + decimal(q1);
    let t2 = b + "/"@ + decimal(q2);
    lemma_no_slash(p1);
    lemma_no_slash(p2);
    assert(t1[a.len() as int] == '/');
    assert(t2[b.len() as int] == '/');
    if a.len() < b.len() {
        assert(t2[a.len() as int] == b[a.len() as int]);
    } else if b.len() < a.len() {
        assert(t1[b.len() as int] == a[b.len() as int]);
    }
    assert(t1.take(a.len() as int) =~= a);
    assert(t2.take(b.len() as int) =~= b);
    lemma_signed_injective(p1, p2);
    assert(t1.skip(a.len() as int + 1) =~= decimal(q1));
    assert(t2.skip(b.len() as int + 1) =~= decimal(q2));
    law_decimal_injective(q1, q2);
}

proof fn lemma_denominator_positive(s: Seq<char>)
    ensures
        quantity_fraction(s) matches Some((n, d)) ==> d > 0,
{
    let (number, multiplier, divisor) = scaled(s);
    let mark = position(number, exponent_mark()) as int;
    let mantissa = if mark < number.len() {
        number.take(mark)
    } else {
        number
    };
    let f = fraction_part(unsigned_part(mantissa)).len();
    lemma_pow10_positive((f % 0x1_0000_0000) as nat);
    if let Some(e) = exponent_value(number.skip(mark + 1)) {
        lemma_pow10_positive(magnitude(e));
        let shift = pow10(magnitude(e)) as int;
        let d = fraction_power(f) * divisor;
        assert(d > 0) by (nonlinear_arith)
            requires
                d == fraction_power(f) * divisor,
                fraction_power(f) >= 1,
                divisor >= 1,
        ;
        assert(d * shift > 0) by (nonlinear_arith)
            requires
                d > 0,
                shift > 0,
        ;
    }
    assert(fraction_power(f) * divisor > 0) by (nonlinear_arith)
        requires
            fraction_power(f) >= 1,
            divisor >= 1,
    ;
    lemma_pow10_positive(0);
}

/// Two quantities have the same normal form exactly where they stand for the
/// same value.
pub proof fn law_normal_form_compares_values(a: Seq<char>, b: Seq<char>)
    requires
        quantity_fraction(a) is Some,
        quantity_fraction(b) is Some,
    ensures
        ({
            let (n1, d1) = quantity_fraction(a)->0;
            let (n2, d2) = quantity_fraction(b)->0;
            &&& d1 > 0
            &&& d2 > 0
            &&& normal_form(a) == normal_form(b) <==> n1 * d2 == n2 * d1
        }),
{
    let (n1, d1) = quantity_fraction(a)->0;
    let (n2, d2) = quantity_fraction(b)->0;
    lemma_denominator_positive(a);
    lemma_denominator_positive(b);
    law_lowest_terms_are_unique(n1, d1, n2, d2);
    lemma_lowest_terms(n1, d1);
    lemma_lowest_terms(n2, d2);
    if normal_form(a) == normal_form(b) {
        lemma_text_injective(
            reduced_numerator(n1, d1),
            reduced_denominator(n1, d1) as nat,
            reduced_numerator(n2, d2),
            reduced_denominator(n2, d2) as nat,
        );
    }
}

fn binary_multiplier(c: char) -> (out: i128)
    ensures
        out == binary_scale(c),
{
    match c {
        'K' => 0x400,
        'M' => 0x10_0000,
        'G' => 0x4000_0000,
        'T' => 0x100_0000_0000,
        'P' => 0x4_0000_0000_0000,
        'E' => 0x1000_0000_0000_0000,
        _ => 0,
    }
}

fn decimal_multiplier(c: char) -> (out: i128)
    ensures
        out == multiple_scale(c),
{
    match c {
        'k' => 1_000,
        'K' => 1_000,
        'M' => 1_000_000,
        'G' => 1_000_000_000,
        'T' => 1_000_000_000_000,
        'P' => 1_000_000_000_000_000,
        'E' => 1_000_000_000_000_000_000,
        _ => 0,
    }
}

fn decimal_divisor(c: char) -> (out: i128)
    ensures
        out == fraction_scale(c),
{
    match c {
        'n' => 1_000_000_000,
        'u' => 1_000_000,
        'm' => 1_000,
        _ => 0,
    }
}

/// Length of the number, and what the suffix multiplies and divides by.
fn split_suffix(chars: &Vec<char>) -> (out: (usize, i128, i128))
    ensures
        out.0 <= chars@.len(),
        scaled(chars@) == (chars@.take(out.0 as int), out.1 as int, out.2 as int),
{
    let n: usize = chars.len();
    proof {
        assert(chars@.take(n as int) =~= chars@);
    }
    if n > 2 && chars[n - 1] == 'i' {
        let multiplier: i128 = binary_multiplier(chars[n - 2]);
        if multiplier > 0 {
            return (n - 2, multiplier, 1);
        }
    }
    if n > 1 {
        let multiplier: i128 = decimal_multiplier(chars[n - 1]);
        if multiplier > 0 {
            return (n - 1, multiplier, 1);
        }
        let divisor: i128 = decimal_divisor(chars[n - 1]);
        if divisor > 0 {
            return (n - 1, 1, divisor);
        }
    }
    (n, 1, 1)
}

/// Reads `chars[from..to]` as digits of a number up to `max`.
fn read_digits(chars: &Vec<char>, from: usize, to: usize, max: u128) -> (out: Option<u128>)
    requires
        from <= to <= chars@.len(),
        9 <= max <= i128::MAX,
    ensures
        match digits_value(chars@.subrange(from as int, to as int), max as nat) {
            Ok(v) => out matches Some(n) && n == v,
            Err(_) => out is None,
        },
{
    let ghost digits = chars@.subrange(from as int, to as int);
    let mut value: u128 = 0;
    let mut i: usize = from;
    proof {
        assert(digits.take(0) =~= Seq::<char>::empty());
    }
    while i < to
        invariant
            from <= i <= to <= chars@.len(),
            9 <= max <= i128::MAX,
            digits == chars@.subrange(from as int, to as int),
            value <= max,
            digits_value(digits.take(i - from), max as nat) == Ok::<nat, NumberError>(value as nat),
        decreases to - i,
    {
        let c: char = chars[i];
        proof {
            assert(digits.take(i - from + 1).drop_last() =~= digits.take(i - from));
            assert(digits.take(i - from + 1).last() == c);
        }
        if c < '0' || '9' < c {
            proof {
                lemma_digits_error_stays(digits, i - from + 1, max as nat);
            }
            return None;
        }
        let d: u128 = ((c as u32) - ('0' as u32)) as u128;
        if value > (max - d) / 10 {
            proof {
                lemma_digits_error_stays(digits, i - from + 1, max as nat);
            }
            return None;
        }
        value = value * 10 + d;
        i = i + 1;
    }
    proof {
        assert(digits.take(i - from) =~= digits);
    }
    Some(value)
}

/// Position in `chars[from..to]` of the first `c`, or of `other`; `to` where
/// there is none.
fn find_char(chars: &Vec<char>, from: usize, to: usize, c: char, other: char) -> (at: usize)
    requires
        from <= to <= chars@.len(),
    ensures
        from <= at <= to,
        at < to ==> chars@[at as int] == c || chars@[at as int] == other,
        forall|j: int| from <= j < at ==> #[trigger] chars@[j] != c && chars@[j] != other,
{
    let mut i: usize = from;
    while i < to && chars[i] != c && chars[i] != other
        invariant
            from <= i <= to <= chars@.len(),
            forall|j: int| from <= j < i ==> #[trigger] chars@[j] != c && chars@[j] != other,
        decreases to - i,
    {
        i = i + 1;
    }
    i
}

/// Ten to the power `k`, where it can be computed with.
fn power_of_ten(k: u32) -> (out: Option<i128>)
    ensures
        match out {
            Some(v) => v == pow10(k as nat) && v >= 1,
            None => pow10(k as nat) > i128::MAX,
        },
{
    let mut value: i128 = 1;
    let mut i: u32 = 0;
    while i < k
        invariant
            i <= k,
            value == pow10(i as nat),
            value >= 1,
        decreases k - i,
    {
        match value.checked_mul(10) {
            None => {
                proof {
                    lemma_pow10_grows((i + 1) as nat, k as nat);
                }
                return None;
            },
            Some(next) => {
                value = next;
            },
        }
        i = i + 1;
    }
    Some(value)
}

/// Reads `chars[from..to]` as a signed 32-bit number: whether it is negative,
/// and its magnitude.
fn read_exponent(chars: &Vec<char>, from: usize, to: usize) -> (out: Option<(bool, u32)>)
    requires
        from <= to <= chars@.len(),
    ensures
        match exponent_value(chars@.subrange(from as int, to as int)) {
            None => out is None,
            Some(e) => out matches Some((negative, k)) && e == if negative {
                -(k as int)
            } else {
                k as int
            },
        },
{
    let ghost s = chars@.subrange(from as int, to as int);
    if from == to {
        return None;
    }
    if to - from > 1 && (chars[from] == '-' || chars[from] == '+') {
        proof {
            assert(s.skip(1) =~= chars@.subrange(from + 1, to as int));
        }
        let negative = chars[from] == '-';
        let max: u128 = if negative {
            0x8000_0000
        } else {
            0x7fff_ffff
        };
        proof {
            lemma_digits_bounded(s.skip(1), max as nat);
        }
        match read_digits(chars, from + 1, to, max) {
            None => None,
            Some(v) => Some((negative, v as u32)),
        }
    } else {
        proof {
            lemma_digits_bounded(s, 0x7fff_ffff);
        }
        match read_digits(chars, from, to, 0x7fff_ffff) {
            None => None,
            Some(v) => Some((false, v as u32)),
        }
    }
}

proof fn lemma_digits_bounded(s: Seq<char>, max: nat)
    ensures
        digits_value(s, max) matches Ok(v) ==> v <= max,
    decreases s.len(),
{
    if s.len() > 0 {
        lemma_digits_bounded(s.drop_last(), max);
    }
}

/// The text of `chars[a..b]` followed by `chars[c..d]`.
fn two_parts(chars: &Vec<char>, a: usize, b: usize, c: usize, d: usize) -> (out: Vec<char>)
    requires
        a <= b <= chars@.len(),
        c <= d <= chars@.len(),
    ensures
        out@ == chars@.subrange(a as int, b as int) + chars@.subrange(c as int, d as int),
{
    let first = text_of(chars, a, b);
    let second = text_of(chars, c, d);
    let mut whole = first;
    whole.append(second.as_str());
    chars_of(whole.as_str())
}

/// Reads the mantissa `chars[..to]`.
fn read_mantissa(chars: &Vec<char>, to: usize) -> (out: Option<(i128, usize)>)
    requires
        to <= chars@.len(),
    ensures
        match mantissa_value(chars@.take(to as int)) {
            None => out is None,
            Some((value, fraction_digits)) => out matches Some((v, k)) && v == value && k
                == fraction_digits,
        },
{
    let ghost mantissa = chars@.take(to as int);
    let ghost unsigned = unsigned_part(mantissa);
    let start: usize = if to > 0 && (chars[0] == '-' || chars[0] == '+') {
        1
    } else {
        0
    };
    let dot: usize = find_char(chars, start, to, '.', '.');
    let fraction_from: usize = if dot < to {
        dot + 1
    } else {
        to
    };
    let digits: Vec<char> = two_parts(chars, start, dot, fraction_from, to);
    proof {
        assert(unsigned =~= chars@.subrange(start as int, to as int));
        assert forall|j: int| 0 <= j < dot - start implies !char_is('.')(#[trigger] unsigned[j]) by {
            assert(chars@[j + start] != '.');
        }
        lemma_position_is(unsigned, char_is('.'), dot - start);
        assert(whole_part(unsigned) =~= chars@.subrange(start as int, dot as int));
        assert(fraction_part(unsigned) =~= chars@.subrange(fraction_from as int, to as int));
        assert(digits@.subrange(0, digits@.len() as int) =~= digits@);
    }
    if digits.len() == 0 {
        return None;
    }
    proof {
        lemma_digits_bounded(digits@, limit());
    }
    match read_digits(&digits, 0, digits.len(), i128::MAX as u128) {
        None => None,
        Some(n) => {
            let value: i128 = if chars[0] == '-' {
                -(n as i128)
            } else {
                n as i128
            };
            Some((value, to - fraction_from))
        },
    }
}

/// The numerator and denominator of a value with so many digits after its
/// point, an exponent and a suffix.
fn shift_value(
    value: i128,
    fraction_digits: usize,
    negative_exponent: bool,
    exponent: u32,
    multiplier: i128,
    divisor: i128,
) -> (out: Option<(i128, i128)>)
    requires
        1 <= multiplier,
        1 <= divisor,
        negative_exponent ==> exponent > 0,
    ensures
        match shifted(
            value as int,
            fraction_digits as nat,
            if negative_exponent {
                -(exponent as int)
            } else {
                exponent as int
            },
            multiplier as int,
            divisor as int,
        ) {
            None => out is None,
            Some((n, d)) => out matches Some((a, b)) && a == n && b == d && b > 0,
        },
{
    let fraction_len: u64 = fraction_digits as u64 % 0x1_0000_0000;
    let power: i128 = match power_of_ten(fraction_len as u32) {
        None => return None,
        Some(p) => p,
    };
    let n: i128 = match value.checked_mul(multiplier) {
        None => return None,
        Some(n) => n,
    };
    assert(power * divisor > 0) by (nonlinear_arith)
        requires
            power >= 1,
            divisor >= 1,
    ;
    let d: i128 = match power.checked_mul(divisor) {
        None => return None,
        Some(d) => d,
    };
    let shift: i128 = match power_of_ten(exponent) {
        None => return None,
        Some(p) => p,
    };
    if negative_exponent {
        assert(d * shift > 0) by (nonlinear_arith)
            requires
                d > 0,
                shift > 0,
        ;
        match d.checked_mul(shift) {
            None => None,
            Some(shifted_d) => Some((n, shifted_d)),
        }
    } else {
        match n.checked_mul(shift) {
            None => None,
            Some(shifted_n) => Some((shifted_n, d)),
        }
    }
}

fn gcd_of(a: u128, b: u128) -> (g: u128)
    ensures
        g == gcd(a as nat, b as nat),
    decreases b,
{
    let mut left: u128 = a;
    let mut right: u128 = b;
    while right != 0
        invariant
            gcd(a as nat, b as nat) == gcd(left as nat, right as nat),
        decreases right,
    {
        let remainder: u128 = left % right;
        left = right;
        right = remainder;
    }
    left
}

/// `n` in base ten.
fn u128_text(n: u128) -> (out: String)
    ensures
        out@ == decimal(n as nat),
    decreases n,
{
    if n < 10 {
        u32_text(n as u32)
    } else {
        let mut out: String = u128_text(n / 10);
        let last = u32_text((n % 10) as u32);
        proof {
            assert(last@ =~= seq![crate::text::digit_char((n % 10) as nat)]);
        }
        out.append(last.as_str());
        proof {
            assert(out@ =~= decimal(n as nat));
        }
        out
    }
}

/// The quantity in lowest terms, as `numerator/denominator`. Spellings of the
/// same value, such as `1024Mi` and `1Gi`, have the same result.
pub fn normalized_quantity(input: &str) -> (out: Option<String>)
    ensures
        out.deep_view() == normal_form(input@),
{
    let chars: Vec<char> = chars_of(input);
    let (len, multiplier, divisor) = split_suffix(&chars);
    let ghost number = input@.take(len as int);
    let mark: usize = find_char(&chars, 0, len, 'e', 'E');
    proof {
        assert forall|j: int| 0 <= j < mark implies !exponent_mark()(#[trigger] number[j]) by {
            assert(chars@[j] != 'e' && chars@[j] != 'E');
        }
        lemma_position_is(number, exponent_mark(), mark as int);
        assert(number.take(mark as int) =~= chars@.take(mark as int));
        if mark < len {
            assert(number.skip(mark + 1) =~= chars@.subrange(mark + 1, len as int));
        }
    }
    let (negative_exponent, exponent): (bool, u32) = if mark < len {
        match read_exponent(&chars, mark + 1, len) {
            None => return None,
            Some((negative, k)) => (negative && k > 0, k),
        }
    } else {
        (false, 0)
    };
    let (value, fraction_digits): (i128, usize) = match read_mantissa(&chars, mark) {
        None => return None,
        Some(pair) => pair,
    };
    let (n, d): (i128, i128) = match shift_value(
        value,
        fraction_digits,
        negative_exponent,
        exponent,
        multiplier,
        divisor,
    ) {
        None => return None,
        Some(pair) => pair,
    };
    let abs: u128 = if n == i128::MIN {
        0x8000_0000_0000_0000_0000_0000_0000_0000
    } else if n < 0 {
        (-n) as u128
    } else {
        n as u128
    };
    let common: u128 = gcd_of(abs, d as u128);
    proof {
        lemma_lowest_terms(n as int, d as int);
    }
    let bottom = u128_text(d as u128 / common);
    let top = u128_text(abs / common);
    let top = if n < 0 {
        let mut signed: String = String::new();
        signed.push('-');
        signed.append(top.as_str());
        proof {
            let q = abs as int / common as int;
            assert(q > 0) by (nonlinear_arith)
                requires
                    -q * common == n,
                    n < 0,
                    common > 0,
            ;
            assert(signed@ =~= signed_decimal(-q));
        }
        signed
    } else {
        top
    };
    Some(join3(top.as_str(), "/", bottom.as_str()))
}

/// A decimal number is read as itself, times what its suffix multiplies by and
/// over what it divides by.
proof fn lemma_decimal_quantity(n: nat, multiplier: int, divisor: int)
    requires
        n <= i128::MAX,
        multiplier > 0,
        divisor > 0,
        fits(n * multiplier),
        fits(divisor),
    ensures
        position(decimal(n), exponent_mark()) == decimal(n).len(),
        assembled(decimal(n), 0, multiplier, divisor) == Some((n * multiplier, divisor)),
{
    let text = decimal(n);
    lemma_decimal_digits(n);
    lemma_position_is(text, exponent_mark(), text.len() as int);
    lemma_position_is(text, char_is('.'), text.len() as int);
    assert(is_digit(text[0]));
    assert(unsigned_part(text) == text);
    assert(whole_part(text) =~= text);
    assert(fraction_part(text) =~= Seq::<char>::empty());
    assert(whole_part(text) + fraction_part(text) =~= text);
    lemma_decimal_value(n, limit());
    assert(mantissa_value(text) == Some((n as int, 0nat)));
    assert(pow10(0) == 1);
    let product = n * multiplier;
    assert(product * 1 == product);
    assert(1 * divisor == divisor);
    assert(shifted(n as int, 0, 0, multiplier, divisor) == Some((product, divisor)));
}

/// What stands before a suffix is the number, whatever the number is.
proof fn lemma_suffixed(text: Seq<char>, suffix: char)
    requires
        text.len() > 0,
        forall|i: int| 0 <= i < text.len() ==> is_digit(#[trigger] text[i]),
        suffix != 'i',
    ensures
        scaled(text) == (text, 1int, 1int),
        scaled(text.push(suffix)) == (if multiple_scale(suffix) > 0 {
            (text, multiple_scale(suffix), 1int)
        } else if fraction_scale(suffix) > 0 {
            (text, 1int, fraction_scale(suffix))
        } else {
            (text.push(suffix), 1int, 1int)
        }),
        binary_scale(suffix) > 0 ==> scaled(text.push(suffix).push('i')) == (
            text,
            binary_scale(suffix),
            1int,
        ),
{
    assert(is_digit(text[text.len() - 1]));
    assert(text.push(suffix).take(text.len() as int) =~= text);
    assert(text.push(suffix).push('i').take(text.len() as int) =~= text);
}

/// A number without a suffix is that number.
pub proof fn law_plain_number_is_itself(n: nat)
    requires
        n <= i128::MAX,
    ensures
        quantity_fraction(decimal(n)) == Some((n as int, 1int)),
{
    lemma_decimal_digits(n);
    lemma_suffixed(decimal(n), 'm');
    lemma_decimal_quantity(n, 1, 1);
}

/// A binary suffix multiplies by a power of 1024: each is 1024 times the one
/// before it, and the first is 1024.
pub proof fn law_binary_suffixes_are_powers_of_1024(n: nat)
    requires
        n * 0x1000_0000_0000_0000 <= i128::MAX,
    ensures
        quantity_fraction(decimal(n) + seq!['K', 'i']) == Some((n * 1024int, 1int)),
        quantity_fraction(decimal(n) + seq!['M', 'i']) == Some((n * (1024int * 1024), 1int)),
        quantity_fraction(decimal(n) + seq!['G', 'i']) == Some((n * (1024int * 1024 * 1024), 1int)),
        quantity_fraction(decimal(n) + seq!['T', 'i']) == Some(
            (n * (1024int * 1024 * 1024 * 1024), 1int),
        ),
        quantity_fraction(decimal(n) + seq!['P', 'i']) == Some(
            (n * (1024int * 1024 * 1024 * 1024 * 1024), 1int),
        ),
        quantity_fraction(decimal(n) + seq!['E', 'i']) == Some(
            (n * (1024int * 1024 * 1024 * 1024 * 1024 * 1024), 1int),
        ),
{
    let text = decimal(n);
    lemma_decimal_digits(n);
    assert(n <= i128::MAX);
    assert(text + seq!['K', 'i'] =~= text.push('K').push('i'));
    assert(text + seq!['M', 'i'] =~= text.push('M').push('i'));
    assert(text + seq!['G', 'i'] =~= text.push('G').push('i'));
    assert(text + seq!['T', 'i'] =~= text.push('T').push('i'));
    assert(text + seq!['P', 'i'] =~= text.push('P').push('i'));
    assert(text + seq!['E', 'i'] =~= text.push('E').push('i'));
    lemma_suffixed(text, 'K');
    lemma_suffixed(text, 'M');
    lemma_suffixed(text, 'G');
    lemma_suffixed(text, 'T');
    lemma_suffixed(text, 'P');
    lemma_suffixed(text, 'E');
    assert(fits(n * 0x400int));
    lemma_decimal_quantity(n, 0x400, 1);
    assert(fits(n * 0x10_0000int));
    lemma_decimal_quantity(n, 0x10_0000, 1);
    assert(fits(n * 0x4000_0000int));
    lemma_decimal_quantity(n, 0x4000_0000, 1);
    assert(fits(n * 0x100_0000_0000int));
    lemma_decimal_quantity(n, 0x100_0000_0000, 1);
    assert(fits(n * 0x4_0000_0000_0000int));
    lemma_decimal_quantity(n, 0x4_0000_0000_0000, 1);
    assert(fits(n * 0x1000_0000_0000_0000int));
    lemma_decimal_quantity(n, 0x1000_0000_0000_0000, 1);
}

/// A decimal suffix multiplies by a power of 1000, or divides by one: each is
/// 1000 times the one before it.
pub proof fn law_decimal_suffixes_are_powers_of_1000(n: nat)
    requires
        n * 1_000_000_000_000_000_000 <= i128::MAX,
    ensures
        quantity_fraction(decimal(n).push('n')) == Some((n as int, 1000 * (1000 * 1000int))),
        quantity_fraction(decimal(n).push('u')) == Some((n as int, 1000 * 1000int)),
        quantity_fraction(decimal(n).push('m')) == Some((n as int, 1000int)),
        quantity_fraction(decimal(n).push('k')) == Some((n * 1000int, 1int)),
        quantity_fraction(decimal(n).push('K')) == Some((n * 1000int, 1int)),
        quantity_fraction(decimal(n).push('M')) == Some((n * (1000int * 1000), 1int)),
        quantity_fraction(decimal(n).push('G')) == Some((n * (1000int * 1000 * 1000), 1int)),
        quantity_fraction(decimal(n).push('T')) == Some((n * (1000int * 1000 * 1000 * 1000), 1int)),
        quantity_fraction(decimal(n).push('P')) == Some(
            (n * (1000int * 1000 * 1000 * 1000 * 1000), 1int),
        ),
        quantity_fraction(decimal(n).push('E')) == Some(
            (n * (1000int * 1000 * 1000 * 1000 * 1000 * 1000), 1int),
        ),
{
    let text = decimal(n);
    lemma_decimal_digits(n);
    assert(n <= i128::MAX);
    lemma_suffixed(text, 'n');
    lemma_suffixed(text, 'u');
    lemma_suffixed(text, 'm');
    lemma_suffixed(text, 'k');
    lemma_suffixed(text, 'K');
    lemma_suffixed(text, 'M');
    lemma_suffixed(text, 'G');
    lemma_suffixed(text, 'T');
    lemma_suffixed(text, 'P');
    lemma_suffixed(text, 'E');
    lemma_decimal_quantity(n, 1, 1_000_000_000);
    lemma_decimal_quantity(n, 1, 1_000_000);
    lemma_decimal_quantity(n, 1, 1_000);
    assert(fits(n * 1_000int));
    lemma_decimal_quantity(n, 1_000, 1);
    assert(fits(n * 1_000_000int));
    lemma_decimal_quantity(n, 1_000_000, 1);
    assert(fits(n * 1_000_000_000int));
    lemma_decimal_quantity(n, 1_000_000_000, 1);
    assert(fits(n * 1_000_000_000_000int));
    lemma_decimal_quantity(n, 1_000_000_000_000, 1);
    assert(fits(n * 1_000_000_000_000_000int));
    lemma_decimal_quantity(n, 1_000_000_000_000_000, 1);
    assert(fits(n * 1_000_000_000_000_000_000int));
    lemma_decimal_quantity(n, 1_000_000_000_000_000_000, 1);
}

/// Digits written one after the other make the number that they make.
proof fn lemma_digits_joined(x: Seq<char>, y: Seq<char>, max: nat)
    requires
        digits_value(x, max) is Ok,
        digits_value(y, max) is Ok,
        (digits_value(x, max)->Ok_0) * pow10(y.len()) + (digits_value(y, max)->Ok_0) <= max,
    ensures
        digits_value(x + y, max) == Ok::<nat, NumberError>(
            ((digits_value(x, max)->Ok_0) * pow10(y.len()) + (digits_value(y, max)->Ok_0)) as nat,
        ),
    decreases y.len(),
{
    let a = digits_value(x, max)->Ok_0;
    if y.len() == 0 {
        assert(x + y =~= x);
        let p = pow10(0);
        assert(p == 1);
        assert(a * p == a) by (nonlinear_arith)
            requires
                p == 1,
        ;
    } else {
        let init = y.drop_last();
        let b = digits_value(init, max)->Ok_0;
        let p = pow10(init.len());
        assert(pow10(y.len()) == 10 * p);
        assert(a * (10 * p) == 10 * (a * p)) by (nonlinear_arith);
        lemma_digits_joined(x, init, max);
        assert((x + y).drop_last() =~= x + init);
        assert((x + y).last() == y.last());
    }
}

/// The digits after a point are that many places to the right.
pub proof fn law_point_shifts_the_digits_after_it(whole: nat, rest: nat)
    requires
        whole * pow10(decimal(rest).len()) + rest <= i128::MAX,
        pow10(decimal(rest).len()) <= i128::MAX,
        decimal(rest).len() < 0x1_0000_0000,
    ensures
        quantity_fraction(decimal(whole) + seq!['.'] + decimal(rest)) == Some(
            (
                (whole * pow10(decimal(rest).len()) + rest) as int,
                pow10(decimal(rest).len()) as int,
            ),
        ),
{
    let a = decimal(whole);
    let b = decimal(rest);
    let text = a + seq!['.'] + b;
    lemma_decimal_digits(whole);
    lemma_decimal_digits(rest);
    lemma_pow10_positive(b.len());
    assert(whole <= whole * pow10(b.len())) by (nonlinear_arith)
        requires
            pow10(b.len()) >= 1,
    ;
    assert(forall|i: int| 0 <= i < a.len() ==> text[i] == #[trigger] a[i]);
    assert forall|i: int| 0 <= i < text.len() implies is_digit(#[trigger] text[i]) || text[i]
        == '.' by {
        if i < a.len() {
            assert(text[i] == a[i]);
        } else if i > a.len() {
            assert(text[i] == b[i - a.len() - 1]);
        }
    }
    assert(text[text.len() - 1] == b[b.len() - 1]);
    assert(is_digit(text[text.len() - 1]));
    assert(scaled(text) == (text, 1int, 1int));
    lemma_position_is(text, exponent_mark(), text.len() as int);
    assert forall|j: int| 0 <= j < a.len() implies !char_is('.')(#[trigger] text[j]) by {
        assert(text[j] == a[j]);
    }
    lemma_position_is(text, char_is('.'), a.len() as int);
    assert(text[0] == a[0]);
    assert(is_digit(a[0]));
    assert(whole_part(text) =~= a);
    assert(fraction_part(text) =~= b);
    lemma_decimal_value(whole, limit());
    lemma_decimal_value(rest, limit());
    lemma_digits_joined(a, b, limit());
    let n = whole * pow10(b.len()) + rest;
    assert(mantissa_value(text) == Some((n as int, b.len())));
    assert(b.len() % 0x1_0000_0000 == b.len()) by (nonlinear_arith)
        requires
            b.len() < 0x1_0000_0000,
    ;
    assert(pow10(0) == 1);
}

/// An exponent multiplies by that power of ten.
pub proof fn law_exponent_is_a_power_of_ten(n: nat, exponent: nat)
    requires
        exponent <= 0x7fff_ffff,
        n <= i128::MAX,
        pow10(exponent) <= i128::MAX,
        n * pow10(exponent) <= i128::MAX,
    ensures
        quantity_fraction(decimal(n) + seq!['e'] + decimal(exponent)) == Some(
            ((n * pow10(exponent)) as int, 1int),
        ),
{
    let a = decimal(n);
    let b = decimal(exponent);
    let text = a + seq!['e'] + b;
    lemma_decimal_digits(n);
    lemma_decimal_digits(exponent);
    assert(text[text.len() - 1] == b[b.len() - 1]);
    assert(is_digit(text[text.len() - 1]));
    assert(scaled(text) == (text, 1int, 1int));
    assert forall|j: int| 0 <= j < a.len() implies !exponent_mark()(#[trigger] text[j]) by {
        assert(text[j] == a[j]);
    }
    lemma_position_is(text, exponent_mark(), a.len() as int);
    assert(text.take(a.len() as int) =~= a);
    assert(text.skip(a.len() as int + 1) =~= b);
    assert(is_digit(b[0]));
    lemma_decimal_value(exponent, 0x7fff_ffff);
    assert(exponent_value(b) == Some(exponent as int));
    lemma_position_is(a, char_is('.'), a.len() as int);
    assert(is_digit(a[0]));
    assert(whole_part(a) =~= a);
    assert(fraction_part(a) =~= Seq::<char>::empty());
    assert(whole_part(a) + fraction_part(a) =~= a);
    lemma_decimal_value(n, limit());
    assert(mantissa_value(a) == Some((n as int, 0nat)));
    assert(pow10(0) == 1);
    assert(n * 1 == n);
}

/// A sign in front makes a number negative; a plus sign changes nothing.
pub proof fn law_sign_is_read(n: nat)
    requires
        n <= i128::MAX,
    ensures
        quantity_fraction(seq!['-'] + decimal(n)) == Some((-n, 1int)),
        quantity_fraction(seq!['+'] + decimal(n)) == Some((n as int, 1int)),
{
    let a = decimal(n);
    lemma_decimal_digits(n);
    lemma_decimal_value(n, limit());
    lemma_position_is(a, char_is('.'), a.len() as int);
    assert(whole_part(a) =~= a);
    assert(fraction_part(a) =~= Seq::<char>::empty());
    assert(whole_part(a) + fraction_part(a) =~= a);
    assert(pow10(0) == 1);
    let minus = seq!['-'] + a;
    let plus = seq!['+'] + a;
    assert(minus.skip(1) =~= a);
    assert(plus.skip(1) =~= a);
    assert(minus[minus.len() - 1] == a[a.len() - 1]);
    assert(plus[plus.len() - 1] == a[a.len() - 1]);
    assert(is_digit(a[a.len() - 1]));
    assert forall|j: int| 0 <= j < minus.len() implies !exponent_mark()(#[trigger] minus[j]) by {
        if j > 0 {
            assert(minus[j] == a[j - 1]);
        }
    }
    assert forall|j: int| 0 <= j < plus.len() implies !exponent_mark()(#[trigger] plus[j]) by {
        if j > 0 {
            assert(plus[j] == a[j - 1]);
        }
    }
    lemma_position_is(minus, exponent_mark(), minus.len() as int);
    lemma_position_is(plus, exponent_mark(), plus.len() as int);
    assert(mantissa_value(minus) == Some((-(n as int), 0nat)));
    assert(mantissa_value(plus) == Some((n as int, 0nat)));
}

/// A mark without an exponent, with a sign alone or not, is no number.
pub proof fn law_exponent_needs_digits(n: nat, sign: Seq<char>)
    requires
        sign == Seq::<char>::empty() || sign == seq!['+'] || sign == seq!['-'],
    ensures
        quantity_fraction(decimal(n) + seq!['e'] + sign) is None,
{
    let a = decimal(n);
    let text = a + seq!['e'] + sign;
    lemma_decimal_digits(n);
    assert(text[a.len() as int] == 'e');
    if sign.len() > 0 {
        assert(text[text.len() - 1] == sign[0]);
    }
    assert(scaled(text) == (text, 1int, 1int));
    assert forall|j: int| 0 <= j < a.len() implies !exponent_mark()(#[trigger] text[j]) by {
        assert(text[j] == a[j]);
        assert(is_digit(a[j]));
    }
    lemma_position_is(text, exponent_mark(), a.len() as int);
    assert(text.skip(a.len() as int + 1) =~= sign);
    if sign.len() > 0 {
        assert(sign.drop_last() =~= Seq::<char>::empty());
        assert(digits_value(Seq::<char>::empty(), 0x7fff_ffff) == Ok::<nat, NumberError>(0));
        assert(!is_digit(sign.last()));
    }
}

} // verus!
