//! Numeric literals as they appear in EDS files and in user input.
use vstd::prelude::*;

verus! {

/// The largest value of a `u32`.
pub const U32_MAX: u32 = 0xFFFF_FFFF;

/// The characters that carry the Unicode `White_Space` property.
pub open spec fn is_white_space(c: char) -> bool {
    let u = c as u32;
    (9 <= u && u <= 13) || u == 32 || u == 0x85 || u == 0xA0 || u == 0x1680 || (0x2000 <= u
        && u <= 0x200A) || u == 0x2028 || u == 0x2029 || u == 0x202F || u == 0x205F || u == 0x3000
}

/// A decimal digit `0`..`9`.
pub open spec fn is_dec_digit(c: char) -> bool {
    '0' as u32 <= c as u32 && c as u32 <= '9' as u32
}

/// A hexadecimal digit, in either case.
pub open spec fn is_hex_digit(c: char) -> bool {
    is_dec_digit(c) || ('a' as u32 <= c as u32 && c as u32 <= 'f' as u32) || ('A' as u32 <= c as u32
        && c as u32 <= 'F' as u32)
}

/// A digit of the given radix (10 or 16).
pub open spec fn is_digit_in(c: char, radix: nat) -> bool {
    if radix == 16 {
        is_hex_digit(c)
    } else {
        is_dec_digit(c)
    }
}

/// The value of one digit character.
pub open spec fn digit_of(c: char) -> nat {
    if is_dec_digit(c) {
        (c as u32 - '0' as u32) as nat
    } else if 'a' as u32 <= c as u32 && c as u32 <= 'f' as u32 {
        (c as u32 - 'a' as u32 + 10) as nat
    } else {
        (c as u32 - 'A' as u32 + 10) as nat
    }
}

/// The value of a string of digits, most significant first.
pub open spec fn digits_value(s: Seq<char>, radix: nat) -> nat
    decreases s.len(),
{
    if s.len() == 0 {
        0
    } else {
        digits_value(s.drop_last(), radix) * radix + digit_of(s.last())
    }
}

/// Every character of `s` is a digit of `radix`.
pub open spec fn all_digits(s: Seq<char>, radix: nat) -> bool {
    forall|i: int| 0 <= i < s.len() ==> is_digit_in(#[trigger] s[i], radix)
}

/// An unsigned integer in `radix`, as `from_str_radix` reads it: an optional
/// `+`, then at least one digit, with a value of at most `max`.
pub open spec fn radix_parse(s: Seq<char>, radix: nat, max: nat) -> Option<nat> {
    let body = if s.len() > 0 && s[0] == '+' {
        s.drop_first()
    } else {
        s
    };
    if body.len() > 0 && all_digits(body, radix) && digits_value(body, radix) <= max {
        Some(digits_value(body, radix))
    } else {
        None
    }
}

/// `s` without its leading white space.
pub open spec fn trim_start(s: Seq<char>) -> Seq<char>
    decreases s.len(),
{
    if s.len() > 0 && is_white_space(s[0]) {
        trim_start(s.drop_first())
    } else {
        s
    }
}

/// `s` without its trailing white space.
pub open spec fn trim_end(s: Seq<char>) -> Seq<char>
    decreases s.len(),
{
    if s.len() > 0 && is_white_space(s.last()) {
        trim_end(s.drop_last())
    } else {
        s
    }
}

/// `s` without surrounding white space.
pub open spec fn trimmed(s: Seq<char>) -> Seq<char> {
    trim_end(trim_start(s))
}

/// `s` begins with the two characters `0x`.
pub open spec fn has_hex_prefix(s: Seq<char>) -> bool {
    s.len() >= 2 && s[0] == '0' && s[1] == 'x'
}

/// The numeric-literal rule: trim white space; after a `0x` prefix read
/// hexadecimal; otherwise read hexadecimal and, failing that, decimal.
/// The value must fit in a `u32`.
pub open spec fn numeric_literal(s: Seq<char>) -> Option<nat> {
    let t = trimmed(s);
    if has_hex_prefix(t) {
        radix_parse(t.subrange(2, t.len() as int), 16, U32_MAX as nat)
    } else {
        match radix_parse(t, 16, U32_MAX as nat) {
            Some(v) => Some(v),
            None => radix_parse(t, 10, U32_MAX as nat),
        }
    }
}

/// Tells whether `c` is white space in the sense of `char::is_whitespace`.
pub fn is_white_space_char(c: char) -> (r: bool)
    ensures
        r == is_white_space(c),
{
    let u = c as u32;
    (9 <= u && u <= 13) || u == 32 || u == 0x85 || u == 0xA0 || u == 0x1680 || (0x2000 <= u && u
        <= 0x200A) || u == 0x2028 || u == 0x2029 || u == 0x202F || u == 0x205F || u == 0x3000
}

/// The value of a digit of `radix`, or `None` for any other character.
pub fn digit_in(c: char, radix: u32) -> (r: Option<u32>)
    requires
        radix == 10 || radix == 16,
    ensures
        r is Some <==> is_digit_in(c, radix as nat),
        r is Some ==> r->0 as nat == digit_of(c) && r->0 < radix,
{
    let u = c as u32;
    if '0' as u32 <= u && u <= '9' as u32 {
        Some(u - '0' as u32)
    } else if radix == 16 && 'a' as u32 <= u && u <= 'f' as u32 {
        Some(u - 'a' as u32 + 10)
    } else if radix == 16 && 'A' as u32 <= u && u <= 'F' as u32 {
        Some(u - 'A' as u32 + 10)
    } else {
        None
    }
}

proof fn lemma_digits_value_prefix(s: Seq<char>, i: int, radix: nat)
    requires
        0 <= i <= s.len(),
        radix >= 1,
    ensures
        digits_value(s.subrange(0, i), radix) <= digits_value(s, radix),
    decreases s.len(),
{
    if i < s.len() {
        let p = s.drop_last();
        lemma_digits_value_prefix(p, i, radix);
        assert(p.subrange(0, i) =~= s.subrange(0, i));
        let v = digits_value(p, radix);
        assert(v <= v * radix) by (nonlinear_arith)
            requires
                radix >= 1,
        ;
    } else {
        assert(s.subrange(0, i) =~= s);
    }
}

/// Reads `s` as an unsigned integer of `radix` whose value is at most `max`.
pub fn parse_radix(s: &str, radix: u32, max: u32) -> (r: Option<u32>)
    requires
        radix == 10 || radix == 16,
    ensures
        match radix_parse(s@, radix as nat, max as nat) {
            Some(v) => r == Some(v as u32),
            None => r is None,
        },
{
    let n = s.unicode_len();
    let start: usize = if n > 0 && s.get_char(0) == '+' {
        1
    } else {
        0
    };
    let ghost body = if s@.len() > 0 && s@[0] == '+' {
        s@.drop_first()
    } else {
        s@
    };
    assert(body =~= s@.subrange(start as int, n as int));
    if start == n {
        return None;
    }
    let mut acc: u64 = 0;
    let mut i: usize = start;
    while i < n
        invariant
            start <= i <= n,
            n == s@.len(),
            body == s@.subrange(start as int, n as int),
            body == (if s@.len() > 0 && s@[0] == '+' {
                s@.drop_first()
            } else {
                s@
            }),
            radix == 10 || radix == 16,
            acc as nat == digits_value(s@.subrange(start as int, i as int), radix as nat),
            acc <= max,
            forall|k: int| start <= k < i ==> is_digit_in(#[trigger] s@[k], radix as nat),
        decreases n - i,
    {
        let c = s.get_char(i);
        let d = match digit_in(c, radix) {
            Some(d) => d,
            None => {
                assert(body[i - start] == c);
                assert(!is_digit_in(body[i - start], radix as nat));
                return None;
            },
        };
        let ghost prev = s@.subrange(start as int, i as int);
        let ghost next = s@.subrange(start as int, i + 1);
        assert(next.drop_last() =~= prev);
        assert(next.last() == c);
        assert(acc * radix <= 0xFFFF_FFFFu64 * 16) by (nonlinear_arith)
            requires
                acc <= 0xFFFF_FFFFu64,
                radix <= 16,
        ;
        acc = acc * radix as u64 + d as u64;
        assert(acc as nat == digits_value(next, radix as nat));
        i = i + 1;
        if acc > max as u64 {
            proof {
                assert(next =~= body.subrange(0, (i - start) as int));
                lemma_digits_value_prefix(body, (i - start) as int, radix as nat);
                assert(digits_value(body, radix as nat) > max);
            }
            return None;
        }
    }
    proof {
        assert(s@.subrange(start as int, i as int) =~= body);
        assert(all_digits(body, radix as nat)) by {
            assert forall|k: int| 0 <= k < body.len() implies is_digit_in(
                #[trigger] body[k],
                radix as nat,
            ) by {
                assert(body[k] == s@[k + start]);
            }
        }
    }
    Some(acc as u32)
}

proof fn lemma_trim_start_skip(s: Seq<char>, lo: int)
    requires
        0 <= lo < s.len(),
        is_white_space(s[lo]),
    ensures
        trim_start(s.subrange(lo, s.len() as int)) == trim_start(s.subrange(lo + 1, s.len() as int)),
{
    assert(s.subrange(lo, s.len() as int).drop_first() =~= s.subrange(lo + 1, s.len() as int));
}

proof fn lemma_trim_end_skip(s: Seq<char>, hi: int)
    requires
        0 < hi <= s.len(),
        is_white_space(s[hi - 1]),
    ensures
        trim_end(s.subrange(0, hi)) == trim_end(s.subrange(0, hi - 1)),
{
    assert(s.subrange(0, hi).drop_last() =~= s.subrange(0, hi - 1));
}

/// `s` with surrounding white space removed, as `str::trim` does.
pub fn trim(s: &str) -> (r: &str)
    ensures
        r@ == trimmed(s@),
{
    let n = s.unicode_len();
    let mut lo: usize = 0;
    assert(s@.subrange(0, n as int) =~= s@);
    while lo < n && is_white_space_char(s.get_char(lo))
        invariant
            lo <= n,
            n == s@.len(),
            trim_start(s@) == trim_start(s@.subrange(lo as int, n as int)),
        decreases n - lo,
    {
        proof {
            lemma_trim_start_skip(s@, lo as int);
        }
        lo = lo + 1;
    }
    let ghost t = s@.subrange(lo as int, n as int);
    assert(trim_start(s@) == t);
    let mut hi: usize = n;
    assert(t.subrange(0, (n - lo) as int) =~= t);
    while hi > lo && is_white_space_char(s.get_char(hi - 1))
        invariant
            lo <= hi <= n,
            n == s@.len(),
            t == s@.subrange(lo as int, n as int),
            trim_end(t) == trim_end(t.subrange(0, hi - lo)),
        decreases hi,
    {
        proof {
            lemma_trim_end_skip(t, hi - lo);
        }
        hi = hi - 1;
    }
    assert(trim_end(t.subrange(0, hi - lo)) == t.subrange(0, hi - lo));
    assert(t.subrange(0, hi - lo) =~= s@.subrange(lo as int, hi as int));
    s.substring_char(lo, hi)
}

/// Reads `s` by the numeric-literal rule (see [`numeric_literal`]).
pub fn numeric_value(s: &str) -> (r: Option<u32>)
    ensures
        match numeric_literal(s@) {
            Some(v) => r == Some(v as u32),
            None => r is None,
        },
{
    let t = trim(s);
    let n = t.unicode_len();
    if n >= 2 && t.get_char(0) == '0' && t.get_char(1) == 'x' {
        parse_radix(t.substring_char(2, n), 16, U32_MAX)
    } else {
        match parse_radix(t, 16, U32_MAX) {
            Some(v) => Some(v),
            None => parse_radix(t, 10, U32_MAX),
        }
    }
}

/// Why a number typed by a user was refused.
#[derive(Debug, Clone, Copy, PartialEq, Eq)]
pub enum NumberError {
    /// The text is not a numeric literal.
    Malformed,
    /// The value lies outside the accepted range.
    OutOfRange,
}

/// Reads `input` by the numeric-literal rule and accepts the value only
/// where `lo <= value <= hi`.
pub fn parse_hex_or_dec(input: &str, lo: u32, hi: u32) -> (r: Result<u32, NumberError>)
    ensures
        match numeric_literal(input@) {
            None => r == Err::<u32, NumberError>(NumberError::Malformed),
            Some(v) => if lo <= v <= hi {
                r == Ok::<u32, NumberError>(v as u32)
            } else {
                r == Err::<u32, NumberError>(NumberError::OutOfRange)
            },
        },
{
    match numeric_value(input) {
        None => Err(NumberError::Malformed),
        Some(v) => if lo <= v && v <= hi {
            Ok(v)
        } else {
            Err(NumberError::OutOfRange)
        },
    }
}

/// A `0x` prefix followed by hexadecimal digits whose value fits in a
/// `u32` reads as that value.
pub proof fn lemma_prefixed_hex_literal(digits: Seq<char>)
    requires
        digits.len() > 0,
        all_digits(digits, 16),
        digits_value(digits, 16) <= U32_MAX,
    ensures
        numeric_literal(seq!['0', 'x'] + digits) == Some(digits_value(digits, 16)),
{
    let t = seq!['0', 'x'] + digits;
    assert(t[0] == '0');
    assert(t.last() == digits.last());
    assert(is_hex_digit(digits[digits.len() - 1]));
    assert(trim_start(t) == t);
    assert(trim_end(t) == t);
    assert(t.subrange(2, t.len() as int) =~= digits);
    assert(is_hex_digit(digits[0]));
}

/// Decimal digits are read as decimal where their hexadecimal reading does
/// not fit in a `u32` but their decimal reading does.
pub proof fn lemma_decimal_literal_fallback(digits: Seq<char>)
    requires
        digits.len() > 0,
        all_digits(digits, 10),
        digits_value(digits, 16) > U32_MAX,
        digits_value(digits, 10) <= U32_MAX,
    ensures
        numeric_literal(digits) == Some(digits_value(digits, 10)),
{
    assert(is_dec_digit(digits[0]));
    assert(is_dec_digit(digits[digits.len() - 1]));
    assert(trim_start(digits) == digits);
    assert(trim_end(digits) == digits);
    if digits.len() >= 2 {
        assert(is_dec_digit(digits[1]));
    }
    assert(all_digits(digits, 16)) by {
        assert forall|i: int| 0 <= i < digits.len() implies is_digit_in(
            #[trigger] digits[i],
            16,
        ) by {
            assert(is_digit_in(digits[i], 10));
        }
    }
}

} // verus!
