//! Text primitives: character sequences, numbers in text, trimming, splitting.

use vstd::prelude::*;
use vstd::slice::slice_subrange;
use vstd::string::*;
use vstd::utf8::*;

verus! {

/// `String::push` of the standard library: appends one character at the end.
pub assume_specification[ String::push ](s: &mut String, c: char)
    ensures
        final(s)@ == old(s)@.push(c),
;

/// The characters of a string, one by one.
pub fn chars_of(s: &str) -> (chars: Vec<char>)
    ensures
        chars@ == s@,
{
    let mut chars: Vec<char> = Vec::new();
    for c in it: s.chars()
        invariant
            chars@ == s@.take(it.index() as int),
            it.seq() == s@,
    {
        chars.push(c);
    }
    assert(s@.take(s@.len() as int) == s@);
    chars
}

/// The string made of the given characters.
pub fn string_of(chars: &[char]) -> (s: String)
    ensures
        s@ == chars@,
{
    let mut s = String::new();
    let mut i: usize = 0;
    while i < chars.len()
        invariant
            i <= chars@.len(),
            s@ == chars@.take(i as int),
        decreases chars@.len() - i,
    {
        s.push(chars[i]);
        i = i + 1;
        assert(chars@.take(i as int) == chars@.take(i - 1).push(chars@[i - 1]));
    }
    assert(chars@.take(chars@.len() as int) == chars@);
    s
}

/// Whether two strings hold the same characters.
pub fn same_text(a: &str, b: &str) -> (same: bool)
    ensures
        same == (a@ == b@),
{
    a.to_owned() == b.to_owned()
}

/// Whether two byte strings are equal.
pub fn same_bytes(a: &[u8], b: &[u8]) -> (same: bool)
    ensures
        same == (a@ == b@),
{
    if a.len() != b.len() {
        return false;
    }
    let mut i: usize = 0;
    while i < a.len()
        invariant
            a@.len() == b@.len(),
            i <= a@.len(),
            forall|j: int| 0 <= j < i ==> a@[j] == b@[j],
        decreases a@.len() - i,
    {
        if a[i] != b[i] {
            return false;
        }
        i = i + 1;
    }
    assert(a@ =~= b@);
    true
}

/// The first text followed by the second.
pub fn join_text(a: &str, b: &str) -> (joined: String)
    ensures
        joined@ == a@ + b@,
{
    a.to_owned().concat(b)
}

/// A result whose error is a text, with that text taken by its characters.
pub open spec fn text_result<T>(r: Result<T, String>) -> Result<T, Seq<char>> {
    match r {
        Ok(v) => Ok(v),
        Err(e) => Err(e@),
    }
}

// ---------------------------------------------------------------------------
// Numbers in text
// ---------------------------------------------------------------------------

/// The decimal digit with the given value.
pub open spec fn decimal_digit(d: nat) -> char {
    (('0' as nat) + d) as char
}

/// A number written in decimal, without leading zeros.
pub open spec fn decimal(n: nat) -> Seq<char>
    decreases n,
{
    if n < 10 {
        seq![decimal_digit(n)]
    } else {
        decimal(n / 10).push(decimal_digit(n % 10))
    }
}

/// Writes a number in decimal.
pub fn decimal_text(n: u64) -> (s: String)
    ensures
        s@ == decimal(n as nat),
    decreases n,
{
    if n < 10 {
        let mut s = String::new();
        s.push((48 + (n as u8)) as char);
        assert(s@ == seq![decimal_digit(n as nat)]);
        s
    } else {
        let mut s = decimal_text(n / 10);
        let d: u8 = (n % 10) as u8;
        s.push((48 + d) as char);
        s
    }
}

/// Why a text is not a number.
#[derive(Clone, Copy, PartialEq, Eq, Structural, Debug)]
pub enum NumberError {
    /// There is no character at all.
    Empty,
    /// A character is not a digit of the radix.
    InvalidDigit,
    /// The number does not fit.
    Overflow,
}

/// What is said of a text that is not a number.
pub open spec fn number_error(e: NumberError) -> Seq<char> {
    match e {
        NumberError::Empty => "cannot parse integer from empty string"@,
        NumberError::InvalidDigit => "invalid digit found in string"@,
        NumberError::Overflow => "number too large to fit in target type"@,
    }
}

/// Words why a text is not a number.
pub fn number_error_text(e: NumberError) -> (text: String)
    ensures
        text@ == number_error(e),
{
    match e {
        NumberError::Empty => "cannot parse integer from empty string".to_owned(),
        NumberError::InvalidDigit => "invalid digit found in string".to_owned(),
        NumberError::Overflow => "number too large to fit in target type".to_owned(),
    }
}

/// The value of a digit in the given radix (at most sixteen).
pub open spec fn digit_value(c: char, radix: nat) -> Option<nat> {
    let v = if '0' <= c <= '9' {
        Some((c as nat - '0' as nat) as nat)
    } else if 'a' <= c <= 'f' {
        Some((c as nat - 'a' as nat + 10) as nat)
    } else if 'A' <= c <= 'F' {
        Some((c as nat - 'A' as nat + 10) as nat)
    } else {
        None
    };
    match v {
        Some(d) if d < radix => Some(d),
        _ => None,
    }
}

/// The number that a row of digits stands for, read from the left; the first
/// digit that is not one, or that no longer fits, decides the error.
pub open spec fn digits_value(digits: Seq<char>, radix: nat) -> Result<nat, NumberError>
    decreases digits.len(),
{
    if digits.len() == 0 {
        Ok(0)
    } else {
        match digits_value(digits.drop_last(), radix) {
            Err(e) => Err(e),
            Ok(v) => match digit_value(digits.last(), radix) {
                None => Err(NumberError::InvalidDigit),
                Some(d) => if v * radix + d > u64::MAX {
                    Err(NumberError::Overflow)
                } else {
                    Ok(v * radix + d)
                },
            },
        }
    }
}

/// The number that a text stands for: digits, after at most one plus sign.
pub open spec fn number_value(s: Seq<char>, radix: nat) -> Result<nat, NumberError> {
    if s.len() == 0 {
        Err(NumberError::Empty)
    } else if s.len() > 1 && s[0] == '+' {
        digits_value(s.skip(1), radix)
    } else {
        digits_value(s, radix)
    }
}

/// An error among the first digits stays the error of the whole row.
proof fn lemma_digits_error(digits: Seq<char>, radix: nat, n: int)
    requires
        0 <= n <= digits.len(),
        digits_value(digits.take(n), radix) is Err,
    ensures
        digits_value(digits, radix) == digits_value(digits.take(n), radix),
    decreases digits.len() - n,
{
    if n == digits.len() {
        assert(digits.take(n) == digits);
    } else {
        assert(digits.take(n + 1).drop_last() == digits.take(n));
        lemma_digits_error(digits, radix, n + 1);
    }
}

fn char_digit(c: char, radix: u64) -> (d: Option<u64>)
    requires
        radix == 10 || radix == 16,
    ensures
        match d {
            Some(v) => digit_value(c, radix as nat) == Some(v as nat),
            None => digit_value(c, radix as nat) is None,
        },
{
    let code: u32 = c as u32;
    let v: u64 = if '0' <= c && c <= '9' {
        (code - 48) as u64
    } else if 'a' <= c && c <= 'f' {
        (code - 97 + 10) as u64
    } else if 'A' <= c && c <= 'F' {
        (code - 65 + 10) as u64
    } else {
        return None;
    };
    if v < radix {
        Some(v)
    } else {
        None
    }
}

/// Reads a number in the given radix.
pub fn parse_number(s: &str, radix: u64) -> (r: Result<u64, NumberError>)
    requires
        radix == 10 || radix == 16,
    ensures
        match r {
            Ok(v) => number_value(s@, radix as nat) == Ok::<nat, NumberError>(v as nat),
            Err(e) => number_value(s@, radix as nat) == Err::<nat, NumberError>(e),
        },
{
    let chars = chars_of(s);
    if chars.len() == 0 {
        return Err(NumberError::Empty);
    }
    let start: usize = if chars.len() > 1 && chars[0] == '+' {
        1
    } else {
        0
    };
    let ghost digits = chars@.skip(start as int);
    proof {
        assert(start == 0 ==> digits == s@);
    }
    let mut value: u64 = 0;
    let mut i: usize = start;
    while i < chars.len()
        invariant
            radix == 10 || radix == 16,
            start <= i <= chars@.len(),
            digits == chars@.skip(start as int),
            number_value(s@, radix as nat) == digits_value(digits, radix as nat),
            digits_value(digits.take(i - start), radix as nat) == Ok::<nat, NumberError>(
                value as nat,
            ),
        decreases chars@.len() - i,
    {
        let ghost n = i - start;
        proof {
            assert(digits.take(n + 1).drop_last() == digits.take(n));
            assert(digits.take(n + 1).last() == chars@[i as int]);
        }
        match char_digit(chars[i], radix) {
            None => {
                proof {
                    lemma_digits_error(digits, radix as nat, n + 1);
                }
                return Err(NumberError::InvalidDigit);
            },
            Some(d) => {
                let wide: u128 = (value as u128) * (radix as u128) + (d as u128);
                if wide > u64::MAX as u128 {
                    proof {
                        lemma_digits_error(digits, radix as nat, n + 1);
                    }
                    return Err(NumberError::Overflow);
                }
                value = wide as u64;
            },
        }
        i = i + 1;
    }
    proof {
        assert(digits.take(digits.len() as int) == digits);
    }
    Ok(value)
}

proof fn lemma_decimal_digits(n: nat)
    requires
        n <= u64::MAX,
    ensures
        decimal(n).len() >= 1,
        decimal(n)[0] != '+',
        digits_value(decimal(n), 10) == Ok::<nat, NumberError>(n),
    decreases n,
{
    let text = decimal(n);
    if n < 10 {
        assert(text.drop_last() =~= Seq::<char>::empty());
        assert(digit_value(text.last(), 10) == Some(n));
        assert(digits_value(text.drop_last(), 10) == Ok::<nat, NumberError>(0));
    } else {
        let front = decimal(n / 10);
        let digit = decimal_digit(n % 10);
        lemma_decimal_digits(n / 10);
        assert(text == front.push(digit));
        assert(text.drop_last() =~= front);
        assert(text.last() == digit);
        assert(text[0] == front[0]);
        assert(digit_value(digit, 10) == Some(n % 10));
        assert((n / 10) * 10 + n % 10 == n);
    }
}

/// A number that is written in decimal reads back as the same number.
pub proof fn law_decimal_round_trip(n: u64)
    ensures
        number_value(decimal(n as nat), 10) == Ok::<nat, NumberError>(n as nat),
{
    lemma_decimal_digits(n as nat);
}

/// What a digit stands for, whatever the radix: itself, or from ten on for the
/// letters from `a` on, in either case.
pub open spec fn face_value(c: char) -> int {
    if '0' <= c <= '9' {
        c as int - '0' as int
    } else if 'a' <= c <= 'z' {
        c as int - 'a' as int + 10
    } else if 'A' <= c <= 'Z' {
        c as int - 'A' as int + 10
    } else {
        -1
    }
}

/// Whether every character is a digit of a radix.
pub open spec fn all_digits(digits: Seq<char>, radix: int) -> bool {
    forall|i: int| 0 <= i < digits.len() ==> 0 <= face_value(#[trigger] digits[i]) < radix
}

/// The sum of the digits of a number, each by its place: the first counts most.
pub open spec fn place_value(digits: Seq<char>, radix: int) -> int
    decreases digits.len(),
{
    if digits.len() == 0 {
        0
    } else {
        face_value(digits[0]) * vstd::arithmetic::power::pow(radix, (digits.len() - 1) as nat)
            + place_value(digits.skip(1), radix)
    }
}

proof fn lemma_place_value_push(digits: Seq<char>, c: char, radix: int)
    ensures
        place_value(digits.push(c), radix) == place_value(digits, radix) * radix + face_value(c),
    decreases digits.len(),
{
    let longer = digits.push(c);
    vstd::arithmetic::power::lemma_pow0(radix);
    if digits.len() == 0 {
        assert(longer.skip(1) =~= Seq::<char>::empty());
        assert(place_value(longer.skip(1), radix) == 0);
    } else {
        assert(longer.skip(1) =~= digits.skip(1).push(c));
        lemma_place_value_push(digits.skip(1), c, radix);
        let n = (digits.len() - 1) as nat;
        let f = face_value(digits[0]);
        let p = vstd::arithmetic::power::pow(radix, n);
        vstd::arithmetic::power::lemma_pow_adds(radix, n, 1);
        vstd::arithmetic::power::lemma_pow1(radix);
        assert(vstd::arithmetic::power::pow(radix, n + 1) == p * radix);
        let rest = place_value(digits.skip(1), radix);
        assert(f * (p * radix) + (rest * radix + face_value(c)) == (f * p + rest) * radix
            + face_value(c)) by (nonlinear_arith);
    }
}

proof fn lemma_place_value_grows(digits: Seq<char>, n: int, radix: int)
    requires
        0 <= n <= digits.len(),
        radix >= 1,
        all_digits(digits, radix),
    ensures
        0 <= place_value(digits.take(n), radix) <= place_value(digits, radix),
    decreases digits.len(),
{
    if digits.len() == 0 {
        assert(digits.take(n) =~= digits);
    } else {
        let front = digits.drop_last();
        assert(front.push(digits.last()) =~= digits);
        assert forall|i: int| 0 <= i < front.len() implies 0 <= face_value(#[trigger] front[i])
            < radix by {
            assert(front[i] == digits[i]);
        }
        lemma_place_value_push(front, digits.last(), radix);
        assert(digits[digits.len() - 1] == digits.last());
        lemma_place_value_grows(front, front.len() as int, radix);
        assert(front.take(front.len() as int) =~= front);
        let v = place_value(front, radix);
        assert(v * radix >= v) by (nonlinear_arith)
            requires
                v >= 0,
                radix >= 1,
        ;
        if n < digits.len() {
            lemma_place_value_grows(front, n, radix);
            assert(front.take(n) =~= digits.take(n));
        } else {
            assert(digits.take(n) =~= digits);
        }
    }
}

proof fn lemma_digits_by_place(digits: Seq<char>, radix: nat)
    requires
        2 <= radix <= 16,
    ensures
        digits_value(digits, radix) matches Ok(v) ==> all_digits(digits, radix as int) && v
            == place_value(digits, radix as int) && v <= u64::MAX,
        digits_value(digits, radix) == Err::<nat, NumberError>(NumberError::InvalidDigit)
            ==> !all_digits(digits, radix as int),
        digits_value(digits, radix) == Err::<nat, NumberError>(NumberError::Overflow) ==> exists|
            n: int,
        |
            0 <= n <= digits.len() && all_digits(digits.take(n), radix as int)
                && #[trigger] place_value(digits.take(n), radix as int) > u64::MAX,
        !(digits_value(digits, radix) == Err::<nat, NumberError>(NumberError::Empty)),
    decreases digits.len(),
{
    if digits.len() > 0 {
        let front = digits.drop_last();
        let c = digits.last();
        lemma_digits_by_place(front, radix);
        lemma_place_value_push(front, c, radix as int);
        assert(front.push(c) =~= digits);
        assert(digits[digits.len() - 1] == c);
        assert(digit_value(c, radix) matches Some(d) ==> d == face_value(c) && d < radix);
        assert(digit_value(c, radix) is None ==> !(0 <= face_value(c) < radix));
        if all_digits(digits, radix as int) {
            assert forall|i: int| 0 <= i < front.len() implies 0 <= face_value(
                #[trigger] front[i],
            ) < radix by {
                assert(front[i] == digits[i]);
            }
        }
        match digits_value(front, radix) {
            Err(NumberError::Overflow) => {
                let n = choose|n: int|
                    0 <= n <= front.len() && all_digits(front.take(n), radix as int)
                        && #[trigger] place_value(front.take(n), radix as int) > u64::MAX;
                assert(front.take(n) =~= digits.take(n));
                assert(place_value(digits.take(n), radix as int) > u64::MAX);
            },
            Ok(v) => {
                if digit_value(c, radix) is Some {
                    assert(all_digits(digits, radix as int)) by {
                        assert forall|i: int| 0 <= i < digits.len() implies 0 <= face_value(
                            #[trigger] digits[i],
                        ) < radix by {
                            if i < front.len() {
                                assert(front[i] == digits[i]);
                            }
                        }
                    }
                    assert(digits.take(digits.len() as int) =~= digits);
                    assert(place_value(digits.take(digits.len() as int), radix as int)
                        == place_value(digits, radix as int));
                }
            },
            _ => {},
        }
    }
}

/// The digits behind at most one plus sign.
pub open spec fn unsigned_part(s: Seq<char>) -> Seq<char> {
    if s.len() > 1 && s[0] == '+' {
        s.skip(1)
    } else {
        s
    }
}

/// A text is read as the number that its digits write by their places, and it is
/// read exactly if it has digits, all of them of the radix, and the number fits. A
/// plus sign in front does not matter. Otherwise it is said what was wrong: there was
/// no character, one that is no digit, or more digits than fit.
pub proof fn law_number_is_its_digits_by_place(s: Seq<char>, radix: nat)
    requires
        radix == 10 || radix == 16,
    ensures
        number_value(s, radix) is Ok <==> s.len() > 0 && all_digits(
            unsigned_part(s),
            radix as int,
        ) && place_value(unsigned_part(s), radix as int) <= u64::MAX,
        number_value(s, radix) matches Ok(v) ==> v == place_value(unsigned_part(s), radix as int),
        number_value(s, radix) == Err::<nat, NumberError>(NumberError::Empty) <==> s.len() == 0,
        number_value(s, radix) == Err::<nat, NumberError>(NumberError::InvalidDigit)
            ==> !all_digits(unsigned_part(s), radix as int),
        number_value(s, radix) == Err::<nat, NumberError>(NumberError::Overflow) ==> exists|n: int|
            0 <= n <= unsigned_part(s).len() && all_digits(
                unsigned_part(s).take(n),
                radix as int,
            ) && #[trigger] place_value(unsigned_part(s).take(n), radix as int) > u64::MAX,
{
    let digits = unsigned_part(s);
    lemma_digits_by_place(digits, radix);
    if s.len() > 0 && all_digits(digits, radix as int) && place_value(digits, radix as int)
        <= u64::MAX && digits_value(digits, radix) is Err {
        let n = choose|n: int|
            0 <= n <= digits.len() && all_digits(digits.take(n), radix as int)
                && #[trigger] place_value(digits.take(n), radix as int) > u64::MAX;
        lemma_place_value_grows(digits, n, radix as int);
    }
}

/// A number is written without leading zeros, and no two numbers are written alike.
pub proof fn law_decimal_is_plain(n: u64, m: u64)
    ensures
        decimal(n as nat).len() > 1 ==> decimal(n as nat)[0] != '0',
        decimal(n as nat) == decimal(m as nat) ==> n == m,
        forall|i: int|
            0 <= i < decimal(n as nat).len() ==> '0' <= #[trigger] decimal(n as nat)[i] <= '9',
{
    law_decimal_round_trip(n);
    law_decimal_round_trip(m);
    lemma_decimal_plain(n as nat);
}

proof fn lemma_decimal_plain(n: nat)
    ensures
        decimal(n).len() > 0,
        decimal(n).len() > 1 ==> decimal(n)[0] != '0',
        n > 0 ==> decimal(n)[0] != '0',
        forall|i: int| 0 <= i < decimal(n).len() ==> '0' <= #[trigger] decimal(n)[i] <= '9',
    decreases n,
{
    if n >= 10 {
        lemma_decimal_plain(n / 10);
        assert(decimal(n)[0] == decimal(n / 10)[0]);
        assert forall|i: int| 0 <= i < decimal(n).len() implies '0' <= #[trigger] decimal(n)[i]
            <= '9' by {
            if i < decimal(n / 10).len() {
                assert(decimal(n)[i] == decimal(n / 10)[i]);
            }
        }
    }
}

// ---------------------------------------------------------------------------
// Trimming
// ---------------------------------------------------------------------------

/// The characters with the Unicode property `White_Space`.
pub open spec fn is_white(c: char) -> bool {
    let n = c as u32;
    ||| 0x09 <= n <= 0x0d
    ||| n == 0x20
    ||| n == 0x85
    ||| n == 0xa0
    ||| n == 0x1680
    ||| 0x2000 <= n <= 0x200a
    ||| n == 0x2028
    ||| n == 0x2029
    ||| n == 0x202f
    ||| n == 0x205f
    ||| n == 0x3000
}

fn white(c: char) -> (r: bool)
    ensures
        r == is_white(c),
{
    let n: u32 = c as u32;
    (0x09 <= n && n <= 0x0d) || n == 0x20 || n == 0x85 || n == 0xa0 || n == 0x1680 || (0x2000 <= n
        && n <= 0x200a) || n == 0x2028 || n == 0x2029 || n == 0x202f || n == 0x205f || n == 0x3000
}

/// A text without its leading white space.
pub open spec fn trim_start(s: Seq<char>) -> Seq<char>
    decreases s.len(),
{
    if s.len() > 0 && is_white(s[0]) {
        trim_start(s.skip(1))
    } else {
        s
    }
}

/// A text without its trailing white space.
pub open spec fn trim_end(s: Seq<char>) -> Seq<char>
    decreases s.len(),
{
    if s.len() > 0 && is_white(s.last()) {
        trim_end(s.drop_last())
    } else {
        s
    }
}

/// A text without white space at either end.
pub open spec fn trimmed(s: Seq<char>) -> Seq<char> {
    trim_end(trim_start(s))
}

/// Removes the white space at both ends.
pub fn trim_text(s: &str) -> (r: String)
    ensures
        r@ == trimmed(s@),
{
    let chars = chars_of(s);
    let mut start: usize = 0;
    assert(chars@.skip(0) == chars@);
    while start < chars.len() && white(chars[start])
        invariant
            start <= chars@.len(),
            trim_start(chars@.skip(start as int)) == trim_start(s@),
        decreases chars@.len() - start,
    {
        assert(chars@.skip(start as int).skip(1) == chars@.skip(start + 1));
        start = start + 1;
    }
    let ghost rest = chars@.skip(start as int);
    let mut end: usize = chars.len();
    assert(chars@.subrange(start as int, end as int) == rest);
    while end > start && white(chars[end - 1])
        invariant
            start <= end <= chars@.len(),
            trim_end(chars@.subrange(start as int, end as int)) == trim_end(rest),
        decreases end,
    {
        assert(chars@.subrange(start as int, end as int).drop_last() == chars@.subrange(
            start as int,
            end - 1,
        ));
        end = end - 1;
    }
    string_of(slice_subrange(chars.as_slice(), start, end))
}

/// A text without any `0x` in front, however often it is repeated.
pub open spec fn without_0x(s: Seq<char>) -> Seq<char>
    decreases s.len(),
{
    if s.len() >= 2 && s[0] == '0' && s[1] == 'x' {
        without_0x(s.skip(2))
    } else {
        s
    }
}

/// Removes every leading `0x`.
pub fn strip_0x(s: &str) -> (r: String)
    ensures
        r@ == without_0x(s@),
{
    let chars = chars_of(s);
    let mut start: usize = 0;
    assert(chars@.skip(0) == chars@);
    while chars.len() - start >= 2 && chars[start] == '0' && chars[start + 1] == 'x'
        invariant
            start <= chars@.len(),
            without_0x(chars@.skip(start as int)) == without_0x(s@),
        decreases chars@.len() - start,
    {
        assert(chars@.skip(start as int).skip(2) == chars@.skip(start + 2));
        start = start + 2;
    }
    assert(chars@.subrange(start as int, chars@.len() as int) == chars@.skip(start as int));
    string_of(slice_subrange(chars.as_slice(), start, chars.len()))
}

/// Whether every character of a text is white space.
pub open spec fn all_white(s: Seq<char>) -> bool {
    forall|i: int| 0 <= i < s.len() ==> is_white(#[trigger] s[i])
}

proof fn lemma_trim_start(s: Seq<char>) -> (n: int)
    ensures
        0 <= n <= s.len(),
        trim_start(s) == s.skip(n),
        all_white(s.take(n)),
        n < s.len() ==> !is_white(s[n]),
    decreases s.len(),
{
    if s.len() > 0 && is_white(s[0]) {
        let m = lemma_trim_start(s.skip(1));
        assert(s.skip(1).skip(m) =~= s.skip(m + 1));
        assert forall|i: int| 0 <= i < m + 1 implies is_white(#[trigger] s.take(m + 1)[i]) by {
            if i > 0 {
                assert(s.skip(1).take(m)[i - 1] == s[i]);
            }
        }
        if m < s.skip(1).len() {
            assert(s.skip(1)[m] == s[m + 1]);
        }
        m + 1
    } else {
        assert(s.skip(0) =~= s);
        0
    }
}

proof fn lemma_trim_end(s: Seq<char>) -> (n: int)
    ensures
        0 <= n <= s.len(),
        trim_end(s) == s.take(n),
        all_white(s.skip(n)),
        n > 0 ==> !is_white(s[n - 1]),
    decreases s.len(),
{
    if s.len() > 0 && is_white(s.last()) {
        let m = lemma_trim_end(s.drop_last());
        assert(s.drop_last().take(m) =~= s.take(m));
        assert forall|i: int| 0 <= i < s.len() - m implies is_white(#[trigger] s.skip(m)[i]) by {
            if i + m < s.len() - 1 {
                assert(s.drop_last().skip(m)[i] == s[i + m]);
            }
        }
        m
    } else {
        assert(s.take(s.len() as int) =~= s);
        s.len() as int
    }
}

/// Trimming takes the white space at both ends and nothing else: what is left starts
/// and ends with something else, and with what was taken it is the text again.
pub proof fn law_trimming_takes_white_ends(s: Seq<char>) -> (ends: (Seq<char>, Seq<char>))
    ensures
        s == ends.0 + trimmed(s) + ends.1,
        all_white(ends.0),
        all_white(ends.1),
        trimmed(s).len() > 0 ==> !is_white(trimmed(s)[0]) && !is_white(trimmed(s).last()),
{
    let n = lemma_trim_start(s);
    let rest = s.skip(n);
    let m = lemma_trim_end(rest);
    let ends = (s.take(n), rest.skip(m));
    assert(s =~= ends.0 + trimmed(s) + ends.1);
    if m > 0 {
        assert(rest.take(m)[0] == s[n]);
    }
    ends
}

/// White space is, of ASCII, the blank and what stands from tabulator to carriage
/// return.
pub proof fn law_white_space_of_ascii(c: char)
    requires
        c as u32 <= 127,
    ensures
        is_white(c) <==> c == ' ' || c == '\t' || c == '\n' || c == '\r' || c as u32 == 11 || c
            as u32 == 12,
{
}

/// Stripping takes every `0x` in front, and nothing else.
pub proof fn law_stripping_takes_prefixes(s: Seq<char>) -> (n: nat)
    ensures
        2 * n <= s.len(),
        without_0x(s) == s.skip(2 * n as int),
        forall|i: int|
            0 <= i < 2 * n ==> #[trigger] s[i] == (if i % 2 == 0 {
                '0'
            } else {
                'x'
            }),
        !(without_0x(s).len() >= 2 && without_0x(s)[0] == '0' && without_0x(s)[1] == 'x'),
    decreases s.len(),
{
    if s.len() >= 2 && s[0] == '0' && s[1] == 'x' {
        let m = law_stripping_takes_prefixes(s.skip(2));
        assert(s.skip(2).skip(2 * m as int) =~= s.skip(2 * (m + 1) as int));
        assert forall|i: int| 0 <= i < 2 * (m + 1) implies #[trigger] s[i] == (if i % 2 == 0 {
            '0'
        } else {
            'x'
        }) by {
            if i >= 2 {
                assert(s.skip(2)[i - 2] == s[i]);
            }
        }
        m + 1
    } else {
        assert(s.skip(0) =~= s);
        0
    }
}

// ---------------------------------------------------------------------------
// Searching and splitting
// ---------------------------------------------------------------------------

/// Whether `needle` stands in `text` at position `at`.
pub open spec fn stands_at(text: Seq<char>, needle: Seq<char>, at: int) -> bool {
    0 <= at <= text.len() - needle.len() && text.subrange(at, at + needle.len()) == needle
}

/// Whether `needle` occurs in `text`.
pub open spec fn occurs_in(text: Seq<char>, needle: Seq<char>) -> bool {
    exists|at: int| #[trigger] stands_at(text, needle, at)
}

/// Whether `needle` occurs in `text`.
pub fn contains_text(text: &str, needle: &str) -> (r: bool)
    ensures
        r == occurs_in(text@, needle@),
{
    let t = chars_of(text);
    let n = chars_of(needle);
    if n.len() > t.len() {
        return false;
    }
    let last: usize = t.len() - n.len();
    let mut at: usize = 0;
    loop
        invariant
            t@ == text@,
            n@ == needle@,
            n@.len() <= t@.len(),
            last == t@.len() - n@.len(),
            at <= last,
            forall|a: int| 0 <= a < at ==> !stands_at(text@, needle@, a),
        decreases last - at,
    {
        let mut k: usize = 0;
        while k < n.len() && t[at + k] == n[k]
            invariant
                n@.len() <= t@.len(),
                at + n.len() <= t.len(),
                k <= n@.len(),
                forall|j: int| 0 <= j < k ==> t@[at + j] == n@[j],
            decreases n@.len() - k,
        {
            k = k + 1;
        }
        if k == n.len() {
            assert(t@.subrange(at as int, at + n@.len()) =~= n@);
            assert(stands_at(text@, needle@, at as int));
            return true;
        }
        assert(!stands_at(text@, needle@, at as int)) by {
            assert(t@.subrange(at as int, at + n@.len())[k as int] != n@[k as int]);
        }
        if at == last {
            return false;
        }
        at = at + 1;
    }
}

/// The characters of each string in a row of strings.
pub open spec fn texts(row: Seq<String>) -> Seq<Seq<char>> {
    row.map_values(|s: String| s@)
}

/// A text cut at every occurrence of a separator; never empty.
pub open spec fn split_on(s: Seq<char>, sep: char) -> Seq<Seq<char>>
    decreases s.len(),
{
    if s.len() == 0 {
        seq![Seq::empty()]
    } else {
        let front = split_on(s.drop_last(), sep);
        if s.last() == sep {
            front.push(Seq::empty())
        } else {
            front.drop_last().push(front.last().push(s.last()))
        }
    }
}

/// A cut text has at least one piece.
pub proof fn lemma_split_nonempty(s: Seq<char>, sep: char)
    ensures
        split_on(s, sep).len() >= 1,
    decreases s.len(),
{
    if s.len() > 0 {
        lemma_split_nonempty(s.drop_last(), sep);
    }
}

/// Parts with a separator between each two of them.
pub open spec fn rejoined(parts: Seq<Seq<char>>, sep: char) -> Seq<char>
    decreases parts.len(),
{
    if parts.len() == 0 {
        Seq::empty()
    } else if parts.len() == 1 {
        parts[0]
    } else {
        rejoined(parts.drop_last(), sep).push(sep) + parts.last()
    }
}

proof fn lemma_rejoined_push(parts: Seq<Seq<char>>, sep: char, c: char)
    requires
        parts.len() > 0,
    ensures
        rejoined(parts.drop_last().push(parts.last().push(c)), sep) == rejoined(parts, sep).push(
            c,
        ),
        rejoined(parts.push(Seq::empty()), sep) == rejoined(parts, sep).push(sep),
{
    let longer = parts.drop_last().push(parts.last().push(c));
    assert(longer.drop_last() =~= parts.drop_last());
    assert(rejoined(longer, sep) =~= rejoined(parts, sep).push(c));
    let more = parts.push(Seq::empty());
    assert(more.drop_last() =~= parts);
    assert(rejoined(more, sep) =~= rejoined(parts, sep).push(sep));
}

/// A text is cut at every separator and nowhere else: no part has one in it, and with
/// one between each two of them the parts are the text again.
pub proof fn law_splitting_cuts_at_separators(s: Seq<char>, sep: char)
    ensures
        split_on(s, sep).len() >= 1,
        rejoined(split_on(s, sep), sep) == s,
        forall|i: int| 0 <= i < split_on(s, sep).len() ==> !(#[trigger] split_on(s, sep)[i]).contains(sep),
    decreases s.len(),
{
    let parts = split_on(s, sep);
    if s.len() == 0 {
        assert(rejoined(parts, sep) =~= s);
    } else {
        let front = split_on(s.drop_last(), sep);
        law_splitting_cuts_at_separators(s.drop_last(), sep);
        lemma_rejoined_push(front, sep, s.last());
        assert(s.drop_last().push(s.last()) =~= s);
        assert forall|i: int| 0 <= i < parts.len() implies !(#[trigger] parts[i]).contains(sep) by {
            if i < parts.len() - 1 {
                assert(parts[i] == front[i]);
            } else if s.last() != sep {
                let old_part = front.last();
                assert(parts[i] == old_part.push(s.last()));
                assert(!front[front.len() - 1].contains(sep));
                if parts[i].contains(sep) {
                    let k = choose|k: int| 0 <= k < parts[i].len() && parts[i][k] == sep;
                    assert(old_part[k] == sep);
                }
            }
        }
    }
}

/// A text occurs in another exactly if the other has it in its middle, with anything
/// or nothing around it.
pub proof fn law_occurrence_is_anywhere(text: Seq<char>, needle: Seq<char>)
    ensures
        forall|a: Seq<char>, b: Seq<char>| occurs_in(#[trigger] (a + needle + b), needle),
        occurs_in(text, needle) ==> exists|a: Seq<char>, b: Seq<char>|
            text == #[trigger] (a + needle + b),
{
    assert forall|a: Seq<char>, b: Seq<char>| occurs_in(#[trigger] (a + needle + b), needle) by {
        let whole = a + needle + b;
        let at = a.len() as int;
        assert(whole.subrange(at, at + needle.len()) =~= needle);
        assert(stands_at(whole, needle, at));
    }
    if occurs_in(text, needle) {
        let at = choose|at: int| #[trigger] stands_at(text, needle, at);
        let a = text.take(at);
        let b = text.skip(at + needle.len());
        assert(text =~= a + needle + b);
    }
}

/// Cuts a text at every occurrence of a separator.
pub fn split_text(s: &str, sep: char) -> (parts: Vec<String>)
    ensures
        texts(parts@) == split_on(s@, sep),
        parts@.len() >= 1,
{
    let chars = chars_of(s);
    let mut parts: Vec<String> = Vec::new();
    let mut current: String = String::new();
    let mut i: usize = 0;
    assert(texts(parts@).push(current@) == split_on(chars@.take(0), sep));
    while i < chars.len()
        invariant
            i <= chars@.len(),
            texts(parts@).push(current@) == split_on(chars@.take(i as int), sep),
        decreases chars@.len() - i,
    {
        let c = chars[i];
        let ghost front = split_on(chars@.take(i as int), sep);
        let ghost old_parts = parts@;
        let ghost old_current = current@;
        proof {
            assert(chars@.take(i + 1).drop_last() == chars@.take(i as int));
            assert(front.drop_last() == texts(old_parts));
            assert(front.last() == old_current);
        }
        if c == sep {
            parts.push(current);
            current = String::new();
            assert(texts(parts@).push(current@) =~= front.push(Seq::empty()));
        } else {
            current.push(c);
        }
        i = i + 1;
    }
    assert(chars@.take(chars@.len() as int) == chars@);
    let ghost before = parts@;
    parts.push(current);
    assert(texts(parts@) =~= texts(before).push(current@));
    parts
}

// ---------------------------------------------------------------------------
// Unicode services of the standard library
// ---------------------------------------------------------------------------

/// The lower-case form of an ASCII character.
pub open spec fn ascii_lower(c: char) -> char {
    if 'A' <= c <= 'Z' {
        ((c as u32) + 32) as char
    } else {
        c
    }
}

/// The upper-case form of an ASCII character.
pub open spec fn ascii_upper(c: char) -> char {
    if 'a' <= c <= 'z' {
        ((c as u32) - 32) as char
    } else {
        c
    }
}

/// A text with the letters `A` to `Z` in lower case; every other character stays.
pub open spec fn ascii_lowered(s: Seq<char>) -> Seq<char> {
    s.map_values(|c: char| ascii_lower(c))
}

/// A text with the letters `a` to `z` in upper case; every other character stays.
pub open spec fn ascii_uppered(s: Seq<char>) -> Seq<char> {
    s.map_values(|c: char| ascii_upper(c))
}

/// Writes the letters `A` to `Z` of a text in lower case.
pub fn lower_ascii(s: &str) -> (r: String)
    ensures
        r@ == ascii_lowered(s@),
{
    let chars = chars_of(s);
    let mut r = String::new();
    let mut i: usize = 0;
    assert(r@ =~= ascii_lowered(chars@.take(0)));
    while i < chars.len()
        invariant
            i <= chars@.len(),
            r@ == ascii_lowered(chars@.take(i as int)),
        decreases chars@.len() - i,
    {
        let c: char = chars[i];
        if 'A' <= c && c <= 'Z' {
            r.push((c as u8 + 32) as char);
        } else {
            r.push(c);
        }
        assert(chars@.take(i + 1) =~= chars@.take(i as int).push(c));
        assert(r@ =~= ascii_lowered(chars@.take(i + 1)));
        i = i + 1;
    }
    assert(chars@.take(i as int) =~= chars@);
    r
}

/// What `String::from_utf8_lossy` gives for some bytes.
pub uninterp spec fn utf8_lossy(bytes: Seq<u8>) -> Seq<char>;

/// `String::from_utf8_lossy` of the standard library. The text it makes of
/// arbitrary bytes is named `utf8_lossy`; of valid UTF-8 it is the text that the
/// bytes encode.
#[verifier::external_body]
pub(crate) fn from_utf8_lossy(bytes: &[u8]) -> (r: String)
    ensures
        r@ == utf8_lossy(bytes@),
        valid_utf8(bytes@) ==> r@ == decode_utf8(bytes@),
{
    String::from_utf8_lossy(bytes).into_owned()
}

/// Lowering changes the letters `A` to `Z`, each to its own small letter thirty-two
/// places on, and nothing else, place by place.
pub proof fn law_lowering_goes_letter_by_letter(s: Seq<char>, i: int)
    requires
        0 <= i < s.len(),
    ensures
        ascii_lowered(s).len() == s.len(),
        'A' <= s[i] <= 'Z' ==> ascii_lowered(s)[i] as u32 == s[i] as u32 + 32,
        !('A' <= s[i] <= 'Z') ==> ascii_lowered(s)[i] == s[i],
{
}

/// A row of texts is seen as it is, text by text.
pub proof fn law_texts_are_seen_whole(row: Seq<String>)
    ensures
        texts(row).len() == row.len(),
        forall|i: int| 0 <= i < row.len() ==> #[trigger] texts(row)[i] == row[i]@,
{
}

/// Each reason why a text is not a number has its own words.
pub proof fn law_number_errors_are_told_apart()
    ensures
        number_error(NumberError::Empty) == "cannot parse integer from empty string"@,
        number_error(NumberError::InvalidDigit) == "invalid digit found in string"@,
        number_error(NumberError::Overflow) == "number too large to fit in target type"@,
{
}

/// A text without the separator is one part.
pub proof fn lemma_split_without(s: Seq<char>, sep: char)
    requires
        !s.contains(sep),
    ensures
        split_on(s, sep) == seq![s],
    decreases s.len(),
{
    if s.len() == 0 {
        assert(s =~= Seq::<char>::empty());
    } else {
        let front = s.drop_last();
        assert(!front.contains(sep)) by {
            if front.contains(sep) {
                let i = choose|i: int| 0 <= i < front.len() && front[i] == sep;
                assert(s[i] == sep);
            }
        }
        lemma_split_without(front, sep);
        assert(s.last() != sep) by {
            assert(s[s.len() - 1] == s.last());
        }
        assert(seq![front].drop_last().push(seq![front].last().push(s.last())) =~= seq![s]) by {
            assert(front.push(s.last()) =~= s);
        }
    }
}

/// Trimming takes off what white space stands around a text.
pub proof fn lemma_trimmed_padded(front: Seq<char>, s: Seq<char>, back: Seq<char>)
    requires
        all_white(front),
        all_white(back),
        s.len() > 0,
        !is_white(s[0]),
        !is_white(s.last()),
    ensures
        trimmed(front + s + back) == s,
    decreases front.len() + back.len(),
{
    let whole = front + s + back;
    if front.len() > 0 {
        let less = front.skip(1);
        assert(whole[0] == front[0]);
        assert(whole.skip(1) =~= less + s + back);
        assert forall|i: int| 0 <= i < less.len() implies is_white(#[trigger] less[i]) by {
            assert(front[i + 1] == less[i]);
        }
        lemma_trimmed_padded(less, s, back);
    } else {
        assert(whole[0] == s[0]);
        assert(trim_start(whole) == whole);
        if back.len() > 0 {
            let less = back.drop_last();
            assert(whole.last() == back[back.len() - 1]);
            assert(whole.drop_last() =~= front + s + less);
            assert forall|i: int| 0 <= i < less.len() implies is_white(#[trigger] less[i]) by {
                assert(back[i] == less[i]);
            }
            lemma_trimmed_padded(front, s, less);
            let shorter = front + s + less;
            assert(shorter[0] == s[0]);
            assert(trim_start(shorter) == shorter);
        } else {
            assert(whole =~= s);
        }
    }
}

/// An outcome is seen as it is: its value, or the text of its error.
pub proof fn law_outcome_is_seen_whole<T>(r: Result<T, String>)
    ensures
        r matches Ok(v) ==> text_result(r) == Ok::<T, Seq<char>>(v),
        r matches Err(e) ==> text_result(r) == Err::<T, Seq<char>>(e@),
{
}

} // verus!
