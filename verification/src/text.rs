//! Text as a sequence of characters: decimal numbers, splitting and trimming.

use vstd::prelude::*;

verus! {

/// `String::push` appends one character to the end of the string.
pub assume_specification[ String::push ](text: &mut String, c: char)
    ensures
        final(text)@ == old(text)@.push(c),
;

/// The characters of `s`, in order.
pub fn chars_of(s: &str) -> (out: Vec<char>)
    ensures
        out@ == s@,
{
    let mut out: Vec<char> = Vec::new();
    for c in it: s.chars()
        invariant
            it.seq() == s@,
            out@ == s@.take(it.index() as int),
    {
        out.push(c);
    }
    proof {
        assert(s@.take(s@.len() as int) =~= s@);
    }
    out
}

/// The text made of the characters `chars[from..to]`.
pub fn text_of(chars: &Vec<char>, from: usize, to: usize) -> (out: String)
    requires
        from <= to <= chars@.len(),
    ensures
        out@ == chars@.subrange(from as int, to as int),
{
    let mut out: String = String::new();
    let mut i: usize = from;
    while i < to
        invariant
            from <= i <= to <= chars@.len(),
            out@ == chars@.subrange(from as int, i as int),
        decreases to - i,
    {
        out.push(chars[i]);
        i = i + 1;
        proof {
            assert(chars@.subrange(from as int, i as int) =~= chars@.subrange(from as int, i - 1).push(chars@[i - 1]));
        }
    }
    out
}

/// Whether two texts hold the same characters.
pub fn same_text(a: &str, b: &str) -> (same: bool)
    ensures
        same == (a@ == b@),
{
    a.to_owned() == b.to_owned()
}

/// `a` followed by `b`.
pub fn join2(a: &str, b: &str) -> (out: String)
    ensures
        out@ == a@ + b@,
{
    let mut out = a.to_owned();
    out.append(b);
    out
}

/// `a` followed by `b` and `c`.
pub fn join3(a: &str, b: &str, c: &str) -> (out: String)
    ensures
        out@ == a@ + b@ + c@,
{
    let mut out = a.to_owned();
    out.append(b);
    out.append(c);
    out
}

/// The digit character of a value below ten.
pub open spec fn digit_char(d: nat) -> char {
    (('0' as nat) + d) as char
}

/// Whether `c` is one of `0` to `9`.
pub open spec fn is_digit(c: char) -> bool {
    '0' <= c <= '9'
}

/// The value of a digit character.
pub open spec fn digit_value(c: char) -> nat {
    ((c as int) - ('0' as int)) as nat
}

/// `n` written in base ten without leading zeros.
pub open spec fn decimal(n: nat) -> Seq<char>
    decreases n,
{
    if n < 10 {
        seq![digit_char(n)]
    } else {
        decimal(n / 10).push(digit_char(n % 10))
    }
}

/// Ten to the power `k`.
pub open spec fn pow10(k: nat) -> nat
    decreases k,
{
    if k == 0 {
        1
    } else {
        10 * pow10((k - 1) as nat)
    }
}

/// A number below ten to the power `k` has at most `k` digits.
pub proof fn lemma_decimal_len(n: nat, k: nat)
    requires
        k > 0,
        n < pow10(k),
    ensures
        decimal(n).len() <= k,
    decreases k,
{
    if n >= 10 {
        if k == 1 {
            assert(pow10(0) == 1);
        } else {
            lemma_decimal_len(n / 10, (k - 1) as nat);
        }
    }
}

/// Why a text is not an unsigned number.
#[derive(Clone, Copy, Debug, PartialEq, Eq, Structural)]
pub enum NumberError {
    Empty,
    InvalidDigit,
    TooLarge,
}

/// Reading digits from the left, stopping at the first character that is no
/// digit or takes the value over `max`.
pub open spec fn digits_value(s: Seq<char>, max: nat) -> Result<nat, NumberError>
    decreases s.len(),
{
    if s.len() == 0 {
        Ok(0)
    } else {
        match digits_value(s.drop_last(), max) {
            Err(e) => Err(e),
            Ok(v) => if !is_digit(s.last()) {
                Err(NumberError::InvalidDigit)
            } else if v * 10 + digit_value(s.last()) > max {
                Err(NumberError::TooLarge)
            } else {
                Ok(v * 10 + digit_value(s.last()))
            },
        }
    }
}

/// An unsigned number: an optional `+` and at least one digit.
pub open spec fn unsigned_value(s: Seq<char>, max: nat) -> Result<nat, NumberError> {
    if s.len() == 0 {
        Err(NumberError::Empty)
    } else if s[0] == '+' {
        if s.len() == 1 {
            Err(NumberError::InvalidDigit)
        } else {
            digits_value(s.skip(1), max)
        }
    } else {
        digits_value(s, max)
    }
}

pub proof fn lemma_digit_char(d: nat)
    requires
        d < 10,
    ensures
        is_digit(digit_char(d)),
        digit_value(digit_char(d)) == d,
{
}

/// A decimal number is a nonempty text of digits.
pub proof fn lemma_decimal_digits(n: nat)
    ensures
        decimal(n).len() > 0,
        forall|i: int| 0 <= i < decimal(n).len() ==> is_digit(#[trigger] decimal(n)[i]),
    decreases n,
{
    if n < 10 {
        lemma_digit_char(n);
    } else {
        lemma_decimal_digits(n / 10);
        lemma_digit_char(n % 10);
    }
}

/// Reading the digits of a decimal number gives the number back.
pub proof fn lemma_decimal_value(n: nat, max: nat)
    requires
        n <= max,
    ensures
        digits_value(decimal(n), max) == Ok::<nat, NumberError>(n),
    decreases n,
{
    if n < 10 {
        lemma_digit_char(n);
        assert(seq![digit_char(n)].drop_last() =~= Seq::<char>::empty());
        assert(digits_value(Seq::<char>::empty(), max) == Ok::<nat, NumberError>(0));
    } else {
        lemma_decimal_value(n / 10, max);
        lemma_digit_char(n % 10);
        assert(decimal(n).drop_last() =~= decimal(n / 10));
    }
}

/// A number written in decimal reads back as itself.
pub proof fn law_decimal_round_trip(n: nat, max: nat)
    requires
        n <= max,
    ensures
        unsigned_value(decimal(n), max) == Ok::<nat, NumberError>(n),
{
    lemma_decimal_digits(n);
    lemma_decimal_value(n, max);
    assert(is_digit(decimal(n)[0]));
}

/// Two numbers with the same decimal text are the same number.
pub proof fn law_decimal_injective(m: nat, n: nat)
    requires
        decimal(m) == decimal(n),
    ensures
        m == n,
{
    let max: nat = if m < n { n } else { m };
    lemma_decimal_value(m, max);
    lemma_decimal_value(n, max);
}

/// The digit character of a value below ten.
fn digit_of(d: u64) -> (c: char)
    requires
        d < 10,
    ensures
        c == digit_char(d as nat),
{
    match d {
        0 => '0',
        1 => '1',
        2 => '2',
        3 => '3',
        4 => '4',
        5 => '5',
        6 => '6',
        7 => '7',
        8 => '8',
        _ => '9',
    }
}

/// `n` in base ten.
pub fn u64_text(n: u64) -> (out: String)
    ensures
        out@ == decimal(n as nat),
    decreases n,
{
    if n < 10 {
        let mut out: String = String::new();
        out.push(digit_of(n));
        proof {
            assert(out@ =~= seq![digit_char(n as nat)]);
        }
        out
    } else {
        let mut out: String = u64_text(n / 10);
        out.push(digit_of(n % 10));
        out
    }
}

/// `n` in base ten.
pub fn u32_text(n: u32) -> (out: String)
    ensures
        out@ == decimal(n as nat),
{
    u64_text(n as u64)
}

/// `n` in base ten, with a sign where it is negative.
pub open spec fn signed_decimal(n: int) -> Seq<char> {
    if n < 0 {
        "-"@ + decimal((-n) as nat)
    } else {
        decimal(n as nat)
    }
}

/// `n` in base ten, with a sign where it is negative.
pub fn i64_text(n: i64) -> (out: String)
    ensures
        out@ == signed_decimal(n as int),
{
    if n < 0 {
        let magnitude: u64 = (-(n + 1)) as u64 + 1;
        let digits = u64_text(magnitude);
        join2("-", digits.as_str())
    } else {
        u64_text(n as u64)
    }
}

/// Reads the digits of `chars` after the first `from`.
fn read_digits(chars: &Vec<char>, from: usize, max: u64) -> (out: Result<u64, NumberError>)
    requires
        from <= chars@.len(),
        max <= 0xffff_ffff,
    ensures
        match digits_value(chars@.skip(from as int), max as nat) {
            Ok(v) => out matches Ok(n) && n == v && n <= max,
            Err(e) => out == Err::<u64, NumberError>(e),
        },
{
    let ghost digits = chars@.skip(from as int);
    let mut value: u64 = 0;
    let mut i: usize = from;
    while i < chars.len()
        invariant
            from <= i <= chars@.len(),
            digits == chars@.skip(from as int),
            value <= max <= 0xffff_ffff,
            digits_value(digits.take(i - from), max as nat) == Ok::<nat, NumberError>(value as nat),
        decreases chars@.len() - i,
    {
        let c: char = chars[i];
        let ghost upto = digits.take(i - from + 1);
        proof {
            assert(upto.drop_last() =~= digits.take(i - from));
            assert(upto.last() == c);
        }
        if c < '0' || '9' < c {
            proof {
                lemma_digits_error_stays(digits, i - from + 1, max as nat);
            }
            return Err(NumberError::InvalidDigit);
        }
        let next: u64 = value * 10 + ((c as u32) - ('0' as u32)) as u64;
        if next > max {
            proof {
                lemma_digits_error_stays(digits, i - from + 1, max as nat);
            }
            return Err(NumberError::TooLarge);
        }
        value = next;
        i = i + 1;
    }
    proof {
        assert(digits.take(i - from) =~= digits);
    }
    Ok(value)
}

/// Reads an unsigned number that fits in 32 bits.
pub fn parse_u32(s: &str) -> (out: Result<u32, NumberError>)
    ensures
        match unsigned_value(s@, u32::MAX as nat) {
            Ok(v) => out matches Ok(n) && n == v,
            Err(e) => out == Err::<u32, NumberError>(e),
        },
{
    let chars: Vec<char> = chars_of(s);
    if chars.len() == 0 {
        return Err(NumberError::Empty);
    }
    let mut from: usize = 0;
    if chars[0] == '+' {
        if chars.len() == 1 {
            return Err(NumberError::InvalidDigit);
        }
        from = 1;
    }
    proof {
        assert(s@.skip(0) =~= s@);
    }
    match read_digits(&chars, from, 0xffff_ffff) {
        Ok(value) => Ok(value as u32),
        Err(error) => Err(error),
    }
}

/// The signed number of 32 bits that a text reads as.
pub open spec fn signed_value(s: Seq<char>) -> Option<int> {
    if s.len() > 1 && s[0] == '-' {
        match digits_value(s.skip(1), 0x8000_0000) {
            Ok(v) => Some(-(v as int)),
            Err(_) => None,
        }
    } else {
        match unsigned_value(s, 0x7fff_ffff) {
            Ok(v) => Some(v as int),
            Err(_) => None,
        }
    }
}

/// Reads a signed number of 32 bits.
pub fn parse_i32(s: &str) -> (out: Option<i32>)
    ensures
        match out {
            Some(n) => signed_value(s@) == Some(n as int),
            None => signed_value(s@) is None,
        },
{
    let chars: Vec<char> = chars_of(s);
    if chars.len() == 0 {
        return None;
    }
    if chars[0] == '-' && chars.len() > 1 {
        return match read_digits(&chars, 1, 0x8000_0000) {
            Ok(value) => Some((-(value as i64)) as i32),
            Err(_) => None,
        };
    }
    let mut from: usize = 0;
    if chars[0] == '+' {
        if chars.len() == 1 {
            return None;
        }
        from = 1;
    }
    proof {
        assert(s@.skip(0) =~= s@);
    }
    match read_digits(&chars, from, 0x7fff_ffff) {
        Ok(value) => Some(value as i32),
        Err(_) => None,
    }
}

/// Once reading a prefix of `s` fails, reading all of `s` fails the same way.
pub proof fn lemma_digits_error_stays(s: Seq<char>, upto: int, max: nat)
    requires
        0 <= upto <= s.len(),
        digits_value(s.take(upto), max) is Err,
    ensures
        digits_value(s, max) == digits_value(s.take(upto), max),
    decreases s.len(),
{
    if upto == s.len() {
        assert(s.take(upto) =~= s);
    } else {
        assert(s.drop_last().take(upto) =~= s.take(upto));
        lemma_digits_error_stays(s.drop_last(), upto, max);
    }
}

/// How a number error reads in a message.
pub open spec fn number_error_message(e: NumberError) -> Seq<char> {
    match e {
        NumberError::Empty => "cannot parse integer from empty string"@,
        NumberError::InvalidDigit => "invalid digit found in string"@,
        NumberError::TooLarge => "number too large to fit in target type"@,
    }
}

/// How a number error reads in a message.
pub fn number_error_text(e: NumberError) -> (out: &'static str)
    ensures
        out@ == number_error_message(e),
{
    match e {
        NumberError::Empty => "cannot parse integer from empty string",
        NumberError::InvalidDigit => "invalid digit found in string",
        NumberError::TooLarge => "number too large to fit in target type",
    }
}

/// Position of the first character for which `p` holds; the length where there
/// is none.
pub open spec fn position(s: Seq<char>, p: spec_fn(char) -> bool) -> nat
    decreases s.len(),
{
    if s.len() == 0 || p(s[0]) {
        0
    } else {
        1 + position(s.skip(1), p)
    }
}

/// The position found by scanning from the left.
pub proof fn lemma_position_is(s: Seq<char>, p: spec_fn(char) -> bool, i: int)
    requires
        0 <= i <= s.len(),
        forall|j: int| 0 <= j < i ==> !p(#[trigger] s[j]),
        i < s.len() ==> p(s[i]),
    ensures
        position(s, p) == i,
    decreases s.len(),
{
    if i > 0 {
        assert(!p(s[0]));
        assert forall|j: int| 0 <= j < i - 1 implies !p(#[trigger] s.skip(1)[j]) by {
            assert(!p(s[j + 1]));
        }
        lemma_position_is(s.skip(1), p, i - 1);
    }
}

/// What scanning from the left finds.
pub proof fn lemma_position(s: Seq<char>, p: spec_fn(char) -> bool)
    ensures
        position(s, p) <= s.len(),
        position(s, p) < s.len() ==> p(s[position(s, p) as int]),
        forall|j: int| 0 <= j < position(s, p) ==> !p(#[trigger] s[j]),
    decreases s.len(),
{
    if s.len() > 0 && !p(s[0]) {
        lemma_position(s.skip(1), p);
        assert forall|j: int| 0 <= j < position(s, p) implies !p(#[trigger] s[j]) by {
            if j > 0 {
                assert(!p(s.skip(1)[j - 1]));
            }
        }
    }
}

/// Whether a character is `sep`.
pub open spec fn char_is(sep: char) -> spec_fn(char) -> bool {
    |c: char| c == sep
}

/// The pieces of `s` between the occurrences of `sep`.
pub open spec fn split_on(s: Seq<char>, sep: char) -> Seq<Seq<char>>
    decreases s.len(),
    via split_on_terminates
{
    let at = position(s, char_is(sep));
    if at >= s.len() {
        seq![s]
    } else {
        seq![s.take(at as int)] + split_on(s.skip(at as int + 1), sep)
    }
}

#[via_fn]
proof fn split_on_terminates(s: Seq<char>, sep: char) {
}

/// The pieces of `s` between the occurrences of `sep`.
pub fn split_text(s: &str, sep: char) -> (out: Vec<String>)
    ensures
        out.deep_view() == split_on(s@, sep),
        out@.len() > 0,
{
    let chars: Vec<char> = chars_of(s);
    let mut out: Vec<String> = Vec::new();
    let mut start: usize = 0;
    let mut i: usize = 0;
    proof {
        assert(s@.skip(0) =~= s@);
        assert(out.deep_view() + split_on(s@, sep) =~= split_on(s@, sep));
    }
    while i < chars.len()
        invariant
            start <= i <= chars@.len(),
            chars@ == s@,
            split_on(s@, sep) == out.deep_view() + split_on(s@.skip(start as int), sep),
            forall|j: int| start <= j < i ==> #[trigger] s@[j] != sep,
        decreases chars@.len() - i,
    {
        if chars[i] == sep {
            let ghost rest = s@.skip(start as int);
            let ghost before = out.deep_view();
            let piece = text_of(&chars, start, i);
            proof {
                assert forall|j: int| 0 <= j < i - start implies #[trigger] rest[j] != sep by {
                    assert(s@[j + start] != sep);
                }
                lemma_position_is(rest, char_is(sep), i - start);
                assert(rest.take(i - start) =~= piece@);
                assert(rest.skip(i - start + 1) =~= s@.skip(i + 1));
            }
            out.push(piece);
            proof {
                assert(out.deep_view() =~= before.push(piece@));
                let tail = split_on(s@.skip(i + 1), sep);
                assert(before + (seq![piece@] + tail) =~= out.deep_view() + tail);
            }
            start = i + 1;
        }
        i = i + 1;
    }
    let ghost rest = s@.skip(start as int);
    let ghost before = out.deep_view();
    let piece = text_of(&chars, start, chars.len());
    proof {
        assert forall|j: int| 0 <= j < rest.len() implies #[trigger] rest[j] != sep by {
            assert(s@[j + start] != sep);
        }
        lemma_position_is(rest, char_is(sep), rest.len() as int);
        assert(rest =~= piece@);
    }
    out.push(piece);
    proof {
        assert(out.deep_view() =~= before + seq![piece@]);
    }
    out
}

/// The texts with `sep` between them.
pub open spec fn joined(parts: Seq<Seq<char>>, sep: Seq<char>) -> Seq<char>
    decreases parts.len(),
{
    if parts.len() == 0 {
        Seq::empty()
    } else if parts.len() == 1 {
        parts[0]
    } else {
        joined(parts.drop_last(), sep) + sep + parts.last()
    }
}

/// The texts with `sep` between them.
pub fn join_all(parts: &Vec<String>, sep: &str) -> (out: String)
    ensures
        out@ == joined(parts.deep_view(), sep@),
{
    let ghost items = parts.deep_view();
    let mut out: String = String::new();
    let mut i: usize = 0;
    proof {
        assert(items.take(0) =~= Seq::<Seq<char>>::empty());
    }
    while i < parts.len()
        invariant
            i <= parts@.len(),
            items == parts.deep_view(),
            out@ == joined(items.take(i as int), sep@),
        decreases parts@.len() - i,
    {
        proof {
            assert(items.take(i + 1).drop_last() =~= items.take(i as int));
            assert(items.take(i + 1).last() == parts@[i as int]@);
        }
        if i > 0 {
            out.append(sep);
        }
        out.append(parts[i].as_str());
        proof {
            if i == 0 {
                assert(out@ =~= parts@[0]@);
                assert(items.take(1)[0] == parts@[0]@);
            }
        }
        i = i + 1;
    }
    proof {
        assert(items.take(i as int) =~= items);
    }
    out
}

/// Whether `s` starts with `prefix`.
pub open spec fn starts_with_text(s: Seq<char>, prefix: Seq<char>) -> bool {
    prefix.len() <= s.len() && s.take(prefix.len() as int) == prefix
}

/// Whether `s` starts with `prefix`.
pub fn has_prefix(s: &str, prefix: &str) -> (yes: bool)
    ensures
        yes == starts_with_text(s@, prefix@),
{
    let a: Vec<char> = chars_of(s);
    let b: Vec<char> = chars_of(prefix);
    if b.len() > a.len() {
        return false;
    }
    let mut i: usize = 0;
    while i < b.len()
        invariant
            i <= b@.len() <= a@.len(),
            a@ == s@,
            b@ == prefix@,
            forall|j: int| 0 <= j < i ==> s@[j] == prefix@[j],
        decreases b@.len() - i,
    {
        if a[i] != b[i] {
            proof {
                assert(s@.take(prefix@.len() as int)[i as int] != prefix@[i as int]);
            }
            return false;
        }
        i = i + 1;
    }
    proof {
        assert(s@.take(prefix@.len() as int) =~= prefix@);
    }
    true
}

/// The decimal text of a number is that of its tens, and the digit of its ones.
pub proof fn law_decimal_is_in_base_ten(n: nat, d: nat)
    requires
        d < 10,
    ensures
        decimal(d).len() == 1,
        decimal(d)[0] as int == '0' as int + d,
        n > 0 ==> decimal(10 * n + d) == decimal(n) + decimal(d),
{
    if n > 0 {
        assert(decimal(10 * n + d) =~= decimal(n) + decimal(d));
    }
}

/// A signed number that is written reads back.
pub proof fn law_signed_decimal_round_trip(n: i32)
    ensures
        signed_value(signed_decimal(n as int)) == Some(n as int),
{
    let size: nat = if n < 0 { (-n) as nat } else { n as nat };
    lemma_decimal_digits(size);
    if n < 0 {
        reveal_strlit("-");
        let text = signed_decimal(n as int);
        assert(text.skip(1) =~= decimal(size));
        assert(text[0] == '-');
        lemma_decimal_value(size, 0x8000_0000);
    } else {
        law_decimal_round_trip(size, 0x7fff_ffff);
        assert(is_digit(decimal(size)[0]));
    }
}

proof fn lemma_split_last(a: Seq<char>, sep: char, b: Seq<char>)
    requires
        !b.contains(sep),
    ensures
        split_on(a + seq![sep] + b, sep) == split_on(a, sep).push(b),
    decreases a.len(),
{
    let whole = a + seq![sep] + b;
    let is_sep = char_is(sep);
    lemma_position(a, is_sep);
    let at = position(a, is_sep) as int;
    if at < a.len() {
        assert forall|j: int| 0 <= j < at implies !is_sep(#[trigger] whole[j]) by {
            assert(whole[j] == a[j]);
        }
        assert(whole[at] == a[at]);
        lemma_position_is(whole, is_sep, at);
        assert(whole.take(at) =~= a.take(at));
        assert(whole.skip(at + 1) =~= a.skip(at + 1) + seq![sep] + b);
        lemma_split_last(a.skip(at + 1), sep, b);
        assert(split_on(whole, sep) =~= split_on(a, sep).push(b));
    } else {
        assert forall|j: int| 0 <= j < a.len() implies !is_sep(#[trigger] whole[j]) by {
            assert(whole[j] == a[j]);
        }
        assert(whole[a.len() as int] == sep);
        lemma_position_is(whole, is_sep, a.len() as int);
        assert(whole.take(a.len() as int) =~= a);
        assert(whole.skip(a.len() as int + 1) =~= b);
        lemma_split_none(b, sep);
        lemma_split_none_at(a, sep);
        assert(split_on(whole, sep) =~= split_on(a, sep).push(b));
    }
}

proof fn lemma_split_none_at(s: Seq<char>, sep: char)
    requires
        position(s, char_is(sep)) >= s.len(),
    ensures
        split_on(s, sep) == seq![s],
{
}

proof fn lemma_split_none(s: Seq<char>, sep: char)
    requires
        !s.contains(sep),
    ensures
        split_on(s, sep) == seq![s],
{
    lemma_position(s, char_is(sep));
    let at = position(s, char_is(sep)) as int;
    if at < s.len() {
        assert(s[at] == sep);
    }
}

/// Texts that are joined by a separator that none of them holds are what the whole
/// is split into.
pub proof fn law_joined_reads_back(parts: Seq<Seq<char>>, sep: char)
    requires
        parts.len() > 0,
        forall|i: int| 0 <= i < parts.len() ==> !(#[trigger] parts[i]).contains(sep),
    ensures
        split_on(joined(parts, seq![sep]), sep) == parts,
    decreases parts.len(),
{
    assert(!parts[parts.len() - 1].contains(sep));
    if parts.len() == 1 {
        assert(!parts[0].contains(sep));
        lemma_split_none(parts[0], sep);
        assert(parts =~= seq![parts[0]]);
    } else {
        let before = parts.drop_last();
        assert forall|i: int| 0 <= i < before.len() implies !(#[trigger] before[i]).contains(
            sep,
        ) by {
            assert(before[i] == parts[i]);
        }
        law_joined_reads_back(before, sep);
        lemma_split_last(joined(before, seq![sep]), sep, parts.last());
        assert(before.push(parts.last()) =~= parts);
    }
}

/// A text that is split is its pieces joined again, and no piece holds the
/// separator.
pub proof fn law_split_is_undone_by_joining(s: Seq<char>, sep: char)
    ensures
        split_on(s, sep).len() > 0,
        forall|i: int|
            0 <= i < split_on(s, sep).len() ==> !(#[trigger] split_on(s, sep)[i]).contains(sep),
        joined(split_on(s, sep), seq![sep]) == s,
    decreases s.len(),
{
    let is_sep = char_is(sep);
    lemma_position(s, is_sep);
    let at = position(s, is_sep) as int;
    if at < s.len() {
        let head = s.take(at);
        let rest = s.skip(at + 1);
        law_split_is_undone_by_joining(rest, sep);
        let pieces = split_on(rest, sep);
        assert(split_on(s, sep) == seq![head] + pieces);
        lemma_joined_first(head, pieces, seq![sep]);
        assert(s =~= head + seq![sep] + rest);
        if head.contains(sep) {
            let j = choose|j: int| 0 <= j < head.len() && head[j] == sep;
            assert(is_sep(s[j]));
        }
        assert forall|i: int| 0 <= i < split_on(s, sep).len() implies !(#[trigger] split_on(
            s,
            sep,
        )[i]).contains(sep) by {
            if i > 0 {
                assert(split_on(s, sep)[i] == pieces[i - 1]);
            }
        }
    } else if s.contains(sep) {
        let j = choose|j: int| 0 <= j < s.len() && s[j] == sep;
        assert(is_sep(s[j]));
    }
}

proof fn lemma_joined_first(first: Seq<char>, rest: Seq<Seq<char>>, sep: Seq<char>)
    requires
        rest.len() > 0,
    ensures
        joined(seq![first] + rest, sep) == first + sep + joined(rest, sep),
    decreases rest.len(),
{
    let all = seq![first] + rest;
    if rest.len() == 1 {
        assert(all.drop_last() =~= seq![first]);
        assert(joined(seq![first], sep) == first);
    } else {
        lemma_joined_first(first, rest.drop_last(), sep);
        assert(all.drop_last() =~= seq![first] + rest.drop_last());
        assert(all.last() == rest.last());
        assert(joined(all, sep) =~= first + sep + joined(rest, sep));
    }
}

} // verus!
