//! Small verified helpers over strings and numbers that the configuration
//! rules are written with: decimal formatting, decimal parsing, and plain
//! string comparisons.

use vstd::prelude::*;
use vstd::string::StrSliceExecFns;
use vstd::string::StringExecFns;

verus! {

/// Character-by-character string equality.
pub fn str_eq(a: &str, b: &str) -> (equal: bool)
    ensures
        equal == (a@ == b@),
{
    let a_len = a.unicode_len();
    let b_len = b.unicode_len();
    if a_len != b_len {
        proof {
            assert(a@ != b@);
        }
        return false;
    }
    let mut i: usize = 0;
    while i < a_len
        invariant
            0 <= i <= a_len,
            a_len == a@.len(),
            a_len == b@.len(),
            forall|j: int| 0 <= j < i ==> a@[j] == b@[j],
        decreases a_len - i,
    {
        if a.get_char(i) != b.get_char(i) {
            proof {
                assert(a@[i as int] != b@[i as int]);
            }
            return false;
        }
        i = i + 1;
    }
    proof {
        assert(a@ =~= b@);
    }
    true
}

/// The character for one decimal digit.
pub open spec fn digit_char(d: nat) -> char {
    if d == 0 {
        '0'
    } else if d == 1 {
        '1'
    } else if d == 2 {
        '2'
    } else if d == 3 {
        '3'
    } else if d == 4 {
        '4'
    } else if d == 5 {
        '5'
    } else if d == 6 {
        '6'
    } else if d == 7 {
        '7'
    } else if d == 8 {
        '8'
    } else {
        '9'
    }
}

/// The decimal digits of `n`, most significant first.
pub open spec fn dec_of(n: nat) -> Seq<char>
    decreases n,
{
    if n < 10 {
        seq![digit_char(n)]
    } else {
        dec_of(n / 10).push(digit_char(n % 10))
    }
}

/// The decimal form of a signed number: a minus sign before the digits of
/// its magnitude.
pub open spec fn int_dec_of(n: int) -> Seq<char> {
    if n < 0 {
        seq!['-'] + dec_of((-n) as nat)
    } else {
        dec_of(n as nat)
    }
}

/// The words `true` and `false` write themselves.
pub open spec fn bool_str_of(b: bool) -> Seq<char> {
    if b {
        "true"@
    } else {
        "false"@
    }
}

/// One decimal digit as a string slice.
fn digit_str(d: u64) -> (s: &'static str)
    requires
        d < 10,
    ensures
        s@ =~= seq![digit_char(d as nat)],
{
    proof {
        reveal_strlit("0");
        reveal_strlit("1");
        reveal_strlit("2");
        reveal_strlit("3");
        reveal_strlit("4");
        reveal_strlit("5");
        reveal_strlit("6");
        reveal_strlit("7");
        reveal_strlit("8");
        reveal_strlit("9");
    }
    if d == 0 {
        "0"
    } else if d == 1 {
        "1"
    } else if d == 2 {
        "2"
    } else if d == 3 {
        "3"
    } else if d == 4 {
        "4"
    } else if d == 5 {
        "5"
    } else if d == 6 {
        "6"
    } else if d == 7 {
        "7"
    } else if d == 8 {
        "8"
    } else {
        "9"
    }
}

/// Appends the decimal digits of `n`.
pub fn append_dec(n: u64, out: &mut String)
    ensures
        final(out)@ == old(out)@ + dec_of(n as nat),
    decreases n,
{
    if n < 10 {
        out.append(digit_str(n));
    } else {
        append_dec(n / 10, out);
        out.append(digit_str(n % 10));
        proof {
            assert(old(out)@ + dec_of((n / 10) as nat) + seq![digit_char((n % 10) as nat)]
                =~= old(out)@ + dec_of(n as nat));
        }
    }
}

/// An unsigned number in decimal.
pub fn u64_to_string(n: u64) -> (s: String)
    ensures
        s@ == dec_of(n as nat),
{
    let mut s = String::new();
    append_dec(n, &mut s);
    proof {
        assert(Seq::<char>::empty() + dec_of(n as nat) =~= dec_of(n as nat));
    }
    s
}

/// A signed number in decimal, with a minus sign when negative.
pub fn i32_to_string(n: i32) -> (s: String)
    ensures
        s@ == int_dec_of(n as int),
{
    if n >= 0 {
        let s = u64_to_string(n as u64);
        s
    } else {
        let magnitude: u64 = (-(n as i64)) as u64;
        let mut s = String::from_str("-");
        append_dec(magnitude, &mut s);
        proof {
            reveal_strlit("-");
            assert("-"@ =~= seq!['-']);
            assert("-"@ + dec_of(magnitude as nat) =~= int_dec_of(n as int));
        }
        s
    }
}

/// The word `true` or `false`.
pub fn bool_to_string(b: bool) -> (s: String)
    ensures
        s@ == bool_str_of(b),
{
    if b {
        String::from_str("true")
    } else {
        String::from_str("false")
    }
}

/// Whether `c` is a decimal digit.
pub open spec fn is_digit(c: char) -> bool {
    '0' <= c && c <= '9'
}

pub open spec fn digit_val(c: char) -> nat {
    (c as nat - '0' as nat) as nat
}

pub open spec fn all_digits(s: Seq<char>) -> bool {
    forall|i: int| 0 <= i < s.len() ==> is_digit(s[i])
}

/// The value of a string of decimal digits.
pub open spec fn dec_val(s: Seq<char>) -> nat
    decreases s.len(),
{
    if s.len() == 0 {
        0
    } else {
        dec_val(s.drop_last()) * 10 + digit_val(s.last())
    }
}

/// The part of a number after an optional single leading plus sign.
pub open spec fn digits_part(s: Seq<char>) -> Seq<char> {
    if s.len() > 0 && s[0] == '+' {
        s.drop_first()
    } else {
        s
    }
}

/// Why a string failed to parse as a number.
#[derive(Clone, Copy, Debug, PartialEq, Eq, Structural)]
pub enum NumberParseError {
    /// The string was empty.
    Empty,
    /// A character was not a decimal digit.
    InvalidDigit,
    /// The value does not fit the target type.
    Overflow,
}

/// Appending digits never shrinks the value.
proof fn lemma_dec_val_prefix(s: Seq<char>, k: int)
    requires
        0 <= k <= s.len(),
    ensures
        dec_val(s) >= dec_val(s.take(k)),
    decreases s.len() - k,
{
    if k < s.len() {
        lemma_dec_val_prefix(s, k + 1);
        assert(s.take(k + 1).drop_last() =~= s.take(k));
        assert(dec_val(s.take(k + 1)) == dec_val(s.take(k)) * 10 + digit_val(s.take(k + 1).last()));
        assert(dec_val(s.take(k)) * 10 >= dec_val(s.take(k)));
    } else {
        assert(s.take(k) =~= s);
    }
}

/// What parsing an unsigned decimal number of at most `max` yields: an
/// optional single leading plus sign, then decimal digits.
pub open spec fn parse_unsigned_spec(s: Seq<char>, max: u64) -> Result<u64, NumberParseError> {
    if s.len() == 0 {
        Err(NumberParseError::Empty)
    } else if digits_part(s).len() == 0 || !all_digits(digits_part(s)) {
        Err(NumberParseError::InvalidDigit)
    } else if dec_val(digits_part(s)) > max {
        Err(NumberParseError::Overflow)
    } else {
        Ok(dec_val(digits_part(s)) as u64)
    }
}

/// Parses an unsigned decimal number of at most `max`, as the
/// configuration rules read numbers.
pub fn parse_unsigned(s: &str, max: u64) -> (parsed: Result<u64, NumberParseError>)
    ensures
        parsed == parse_unsigned_spec(s@, max),
{
    let len = s.unicode_len();
    if len == 0 {
        return Err(NumberParseError::Empty);
    }
    let start: usize = if s.get_char(0) == '+' {
        1
    } else {
        0
    };
    proof {
        if start == 1 {
            assert(digits_part(s@) =~= s@.skip(1));
        } else {
            assert(digits_part(s@) =~= s@);
        }
    }
    if start == len {
        return Err(NumberParseError::InvalidDigit);
    }
    let ghost dp = digits_part(s@);
    // first pass: every character must be a digit
    let mut i: usize = start;
    while i < len
        invariant
            start <= i <= len,
            len == s@.len(),
            start == 0 || start == 1,
            dp == digits_part(s@),
            dp =~= s@.skip(start as int),
            forall|j: int| 0 <= j < i - start ==> is_digit(dp[j]),
        decreases len - i,
    {
        let c = s.get_char(i);
        if c < '0' || c > '9' {
            proof {
                assert(dp[i - start] == s@[i as int]);
                assert(!is_digit(dp[i - start]));
                assert(!all_digits(dp));
            }
            return Err(NumberParseError::InvalidDigit);
        }
        i = i + 1;
    }
    proof {
        assert(all_digits(dp));
    }
    // second pass: accumulate, stopping as soon as the value is too large
    let mut value: u64 = 0;
    let mut k: usize = start;
    while k < len
        invariant
            start <= k <= len,
            len == s@.len(),
            start == 0 || start == 1,
            dp == digits_part(s@),
            dp =~= s@.skip(start as int),
            all_digits(dp),
            max <= u64::MAX,
            value == dec_val(dp.take(k - start)),
            value <= max,
        decreases len - k,
    {
        let c = s.get_char(k);
        proof {
            assert(dp[k - start] == s@[k as int]);
            assert(is_digit(dp[k - start]));
        }
        let d: u64 = (c as u32 as u64) - ('0' as u32 as u64);
        proof {
            assert(d == digit_val(dp[k - start]));
            assert(dp.take(k - start + 1).drop_last() =~= dp.take(k - start));
            assert(dp.take(k - start + 1).last() == dp[k - start]);
        }
        if value > (u64::MAX - d) / 10 || value * 10 + d > max {
            proof {
                if value <= (u64::MAX - d) / 10 {
                    assert(dec_val(dp.take(k - start + 1)) == value * 10 + d);
                    assert(dec_val(dp.take(k - start + 1)) > max);
                } else {
                    assert(value * 10 + d > max) by (nonlinear_arith)
                        requires
                            value > (u64::MAX - d) / 10,
                            max <= u64::MAX,
                            d < 10,
                    ;
                    assert(dec_val(dp.take(k - start + 1)) == value * 10 + d);
                    assert(dec_val(dp.take(k - start + 1)) > max);
                }
                lemma_dec_val_prefix(dp, k - start + 1);
                assert(dec_val(dp) > max);
            }
            return Err(NumberParseError::Overflow);
        }
        value = value * 10 + d;
        k = k + 1;
    }
    proof {
        assert(dp.take(len - start) =~= dp);
    }
    Ok(value)
}

/// The lower-cased form of a string of characters. What Unicode lowercasing
/// does to each character takes pages to state; the name pins down only
/// that it is a function of the characters alone.
pub uninterp spec fn lower_of(s: Seq<char>) -> Seq<char>;

/// Lower-cases a string.
///
/// Relies on str::to_lowercase: the result depends on the characters alone,
/// and lowercasing an empty string yields an empty string.
#[verifier::external_body]
pub fn to_lowercase_string(s: &str) -> (lowered: String)
    ensures
        lowered@ == lower_of(s@),
        s@.len() == 0 ==> lowered@.len() == 0,
{
    s.to_lowercase()
}

/// The position of the last dot in a string, or `-1` when it has none.
pub open spec fn last_dot_index(s: Seq<char>) -> int
    decreases s.len(),
{
    if s.len() == 0 {
        -1
    } else if s.last() == '.' {
        s.len() - 1
    } else {
        last_dot_index(s.drop_last())
    }
}

/// Finds the last dot in a string.
pub fn rfind_dot(s: &str) -> (position: Option<usize>)
    ensures
        match position {
            Some(i) => i == last_dot_index(s@) && i < s@.len() && s@[i as int] == '.',
            None => last_dot_index(s@) < 0,
        },
{
    let len = s.unicode_len();
    let mut i: usize = len;
    proof {
        assert(s@.take(len as int) =~= s@);
    }
    while i > 0
        invariant
            0 <= i <= len,
            len == s@.len(),
            last_dot_index(s@.take(i as int)) == last_dot_index(s@),
        decreases i,
    {
        i = i - 1;
        let c = s.get_char(i);
        proof {
            assert(s@.take(i + 1).last() == s@[i as int]);
            assert(s@.take(i + 1).drop_last() =~= s@.take(i as int));
        }
        if c == '.' {
            proof {
                lemma_last_dot_bounds(s@);
            }
            return Some(i);
        }
    }
    proof {
        assert(s@.take(0) =~= Seq::<char>::empty());
    }
    None
}

proof fn lemma_last_dot_bounds(s: Seq<char>)
    ensures
        -1 <= last_dot_index(s) < s.len(),
        last_dot_index(s) >= 0 ==> s[last_dot_index(s)] == '.',
    decreases s.len(),
{
    if s.len() > 0 && s.last() != '.' {
        lemma_last_dot_bounds(s.drop_last());
    }
}

} // verus!
