//! Decimal numerals as they appear on the wire: ASCII digits, most significant
//! first, with an optional leading sign for the numbers a client sends.

use vstd::prelude::*;

verus! {

/// ASCII code of `'0'`.
pub const ASCII_ZERO: u8 = 48;

/// ASCII code of `'9'`.
pub const ASCII_NINE: u8 = 57;

/// ASCII code of `'+'`.
pub const ASCII_PLUS: u8 = 43;

/// ASCII code of `'-'`.
pub const ASCII_MINUS: u8 = 45;

/// `b` is one of the ASCII digits `'0'` to `'9'`.
pub open spec fn is_digit(b: u8) -> bool {
    ASCII_ZERO <= b <= ASCII_NINE
}

/// Every byte of `s` is an ASCII digit.
pub open spec fn all_digits(s: Seq<u8>) -> bool {
    forall|i: int| 0 <= i < s.len() ==> is_digit(#[trigger] s[i])
}

/// The natural number that the digit string `s` denotes. The empty string
/// denotes zero; callers that need a numeral ask for a non-empty one.
pub open spec fn digits_value(s: Seq<u8>) -> nat
    decreases s.len(),
{
    if s.len() == 0 {
        0
    } else {
        digits_value(s.drop_last()) * 10 + (s.last() - ASCII_ZERO) as nat
    }
}

/// `s` begins with a sign character.
pub open spec fn has_sign(s: Seq<u8>) -> bool {
    s.len() > 0 && (s[0] == ASCII_PLUS || s[0] == ASCII_MINUS)
}

/// The digits of a numeral: everything after the optional sign.
pub open spec fn numeral_digits(s: Seq<u8>) -> Seq<u8> {
    if has_sign(s) {
        s.skip(1)
    } else {
        s
    }
}

/// `s` is a signed decimal numeral: an optional `'+'` or `'-'` followed by one
/// or more digits and nothing else.
pub open spec fn is_numeral(s: Seq<u8>) -> bool {
    numeral_digits(s).len() > 0 && all_digits(numeral_digits(s))
}

/// The integer that the numeral `s` denotes.
pub open spec fn numeral_value(s: Seq<u8>) -> int
    recommends
        is_numeral(s),
{
    if s.len() > 0 && s[0] == ASCII_MINUS {
        -(digits_value(numeral_digits(s)) as int)
    } else {
        digits_value(numeral_digits(s)) as int
    }
}

/// What reading `s` as a 32-bit signed integer gives: the value of the numeral
/// when `s` is one and the value fits, nothing otherwise.
pub open spec fn parsed_i32(s: Seq<u8>) -> Option<i32> {
    if is_numeral(s) && i32::MIN <= numeral_value(s) <= i32::MAX {
        Some(numeral_value(s) as i32)
    } else {
        None
    }
}

/// The shortest digit string that denotes `n`.
pub open spec fn decimal_digits(n: nat) -> Seq<u8>
    decreases n,
{
    if n < 10 {
        seq![(ASCII_ZERO + n) as u8]
    } else {
        decimal_digits(n / 10).push((ASCII_ZERO + n % 10) as u8)
    }
}

/// Appending a digit multiplies the value by ten and adds the digit.
pub proof fn lemma_digits_value_push(s: Seq<u8>, d: u8)
    requires
        is_digit(d),
    ensures
        digits_value(s.push(d)) == digits_value(s) * 10 + (d - ASCII_ZERO),
{
    assert(s.push(d).drop_last() =~= s);
}

/// A digit string never denotes less than one of its prefixes.
pub proof fn lemma_digits_value_monotone(s: Seq<u8>, k: int)
    requires
        all_digits(s),
        0 <= k <= s.len(),
    ensures
        digits_value(s.take(k)) <= digits_value(s),
    decreases s.len() - k,
{
    if k == s.len() {
        assert(s.take(k) =~= s);
    } else {
        lemma_digits_value_monotone(s, k + 1);
        assert(s.take(k + 1).drop_last() =~= s.take(k));
    }
}

/// The digits written for `n` are digits, at least one of them, and they denote
/// `n` again.
pub proof fn lemma_decimal_digits_round_trip(n: nat)
    ensures
        decimal_digits(n).len() >= 1,
        all_digits(decimal_digits(n)),
        digits_value(decimal_digits(n)) == n,
    decreases n,
{
    if n < 10 {
        let s = decimal_digits(n);
        assert(digits_value(s.drop_last()) == 0);
    } else {
        lemma_decimal_digits_round_trip(n / 10);
        lemma_digits_value_push(decimal_digits(n / 10), (ASCII_ZERO + n % 10) as u8);
    }
}

/// A number that fits is read back from the digits written for it.
pub proof fn lemma_digits_parse_back(n: nat)
    requires
        n <= i32::MAX,
    ensures
        parsed_i32(decimal_digits(n)) == Some(n as i32),
{
    // The digits begin with a digit, not with a sign.
    lemma_decimal_digits_round_trip(n);
}

/// Two numbers with the same digits are the same number.
pub proof fn lemma_decimal_digits_injective(a: nat, b: nat)
    requires
        decimal_digits(a) == decimal_digits(b),
    ensures
        a == b,
{
    lemma_decimal_digits_round_trip(a);
    lemma_decimal_digits_round_trip(b);
}

/// Reads a signed decimal numeral as an `i32`.
///
/// Accepts an optional sign followed by one or more ASCII digits; leading zeros
/// are allowed. Anything else, and any value outside the range of `i32`, gives
/// `None`.
pub fn parse_i32(s: &[u8]) -> (r: Option<i32>)
    ensures
        r == parsed_i32(s@),
{
    let n: usize = s.len();
    let mut start: usize = 0;
    let mut negative: bool = false;
    if n > 0 && (s[0] == ASCII_PLUS || s[0] == ASCII_MINUS) {
        negative = s[0] == ASCII_MINUS;
        start = 1;
    }
    if start == n {
        return None;
    }
    let ghost digits = numeral_digits(s@);
    let limit: i64 = if negative {
        2147483648
    } else {
        2147483647
    };
    let mut acc: i64 = 0;
    let mut i: usize = start;
    while i < n
        invariant
            start <= i <= n,
            n == s@.len(),
            digits == numeral_digits(s@),
            digits == s@.subrange(start as int, n as int),
            negative == (s@.len() > 0 && s@[0] == ASCII_MINUS),
            limit == if negative { 2147483648i64 } else { 2147483647i64 },
            all_digits(digits.take(i - start)),
            acc == digits_value(digits.take(i - start)),
            0 <= acc <= limit,
        decreases n - i,
    {
        let b: u8 = s[i];
        if b < ASCII_ZERO || b > ASCII_NINE {
            assert(!is_digit(digits[i - start]));
            return None;
        }
        let ghost prefix = digits.take(i - start);
        let ghost longer = digits.take(i - start + 1);
        proof {
            assert(longer =~= prefix.push(b));
            lemma_digits_value_push(prefix, b);
        }
        let next: i64 = acc * 10 + (b - ASCII_ZERO) as i64;
        if next > limit {
            proof {
                if all_digits(digits) {
                    lemma_digits_value_monotone(digits, i - start + 1);
                }
            }
            return None;
        }
        acc = next;
        i = i + 1;
    }
    assert(digits.take(n - start) =~= digits);
    if negative {
        Some((0 - acc) as i32)
    } else {
        Some(acc as i32)
    }
}

/// Writes `n` in decimal, without sign or leading zeros.
pub fn render_u32(n: u32) -> (digits: Vec<u8>)
    ensures
        digits@ == decimal_digits(n as nat),
{
    let mut reversed: Vec<u8> = Vec::new();
    let mut rest: u32 = n;
    reversed.push(ASCII_ZERO + (rest % 10) as u8);
    rest = rest / 10;
    let ghost mut done: Seq<u8> = seq![(ASCII_ZERO + n % 10) as u8];
    // `done` holds the digits written so far in reading order; `reversed` holds
    // them least significant first.
    while rest > 0
        invariant
            reversed@.len() == done.len(),
            done.len() >= 1,
            forall|j: int| 0 <= j < done.len() ==> reversed@[j] == done[done.len() - 1 - j],
            decimal_digits(n as nat) == if rest == 0 {
                done
            } else {
                decimal_digits(rest as nat) + done
            },
        decreases rest,
    {
        let d: u8 = ASCII_ZERO + (rest % 10) as u8;
        proof {
            done = seq![d] + done;
        }
        reversed.push(d);
        rest = rest / 10;
    }
    let mut digits: Vec<u8> = Vec::new();
    let mut k: usize = reversed.len();
    while k > 0
        invariant
            k <= reversed@.len(),
            reversed@.len() == done.len(),
            forall|j: int| 0 <= j < done.len() ==> reversed@[j] == done[done.len() - 1 - j],
            digits@ == done.take(done.len() - k),
        decreases k,
    {
        k = k - 1;
        digits.push(reversed[k]);
    }
    digits
}

} // verus!
