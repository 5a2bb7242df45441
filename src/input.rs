//! What a user types at the prompts: a request direction and a payload.
use vstd::prelude::*;
use crate::numeric::{all_digits, digit_of, trim, trimmed};
use crate::sdo_handler::SdoRequestType;

verus! {

/// `c` with an ASCII capital letter made small.
pub open spec fn ascii_lower(c: char) -> char {
    if 'A' as u32 <= c as u32 && c as u32 <= 'Z' as u32 {
        ((c as u32) + 32) as char
    } else {
        c
    }
}

/// The texts are equal once ASCII capitals are made small.
pub open spec fn same_ignoring_ascii_case(a: Seq<char>, b: Seq<char>) -> bool {
    a.len() == b.len() && forall|i: int| 0 <= i < a.len() ==> ascii_lower(#[trigger] a[i]) == ascii_lower(b[i])
}

/// The direction that a typed word names: `upload` or `download`, in any case.
pub open spec fn request_type_of(s: Seq<char>) -> Option<SdoRequestType> {
    if same_ignoring_ascii_case(s, "upload"@) {
        Some(SdoRequestType::Upload)
    } else if same_ignoring_ascii_case(s, "download"@) {
        Some(SdoRequestType::Download)
    } else {
        None
    }
}

fn lower_char(c: char) -> (r: char)
    ensures
        r == ascii_lower(c),
{
    if 'A' <= c && c <= 'Z' {
        ((c as u8) + 32) as char
    } else {
        c
    }
}

/// Tells whether two texts are equal once ASCII capitals are made small.
pub fn eq_ignoring_ascii_case(a: &str, b: &str) -> (r: bool)
    ensures
        r == same_ignoring_ascii_case(a@, b@),
{
    let n = a.unicode_len();
    if n != b.unicode_len() {
        return false;
    }
    let mut i: usize = 0;
    while i < n
        invariant
            i <= n,
            n == a@.len(),
            n == b@.len(),
            forall|k: int| 0 <= k < i ==> ascii_lower(#[trigger] a@[k]) == ascii_lower(b@[k]),
        decreases n - i,
    {
        if lower_char(a.get_char(i)) != lower_char(b.get_char(i)) {
            return false;
        }
        i = i + 1;
    }
    true
}

/// Reads a direction word (see [`request_type_of`]).
pub fn parse_request_type(s: &str) -> (r: Option<SdoRequestType>)
    ensures
        r == request_type_of(s@),
{
    if eq_ignoring_ascii_case(s, "upload") {
        Some(SdoRequestType::Upload)
    } else if eq_ignoring_ascii_case(s, "download") {
        Some(SdoRequestType::Download)
    } else {
        None
    }
}

/// `s` without every leading `0x`.
pub open spec fn strip_hex_prefixes(s: Seq<char>) -> Seq<char>
    decreases s.len(),
{
    if s.len() >= 2 && s[0] == '0' && s[1] == 'x' {
        strip_hex_prefixes(s.subrange(2, s.len() as int))
    } else {
        s
    }
}

/// The bytes that an even number of hexadecimal digits stands for, two
/// digits a byte, high digit first.
pub open spec fn hex_bytes_match(s: Seq<char>, b: Seq<u8>) -> bool {
    &&& b.len() * 2 == s.len()
    &&& forall|i: int|
        0 <= i < b.len() ==> #[trigger] b[i] as nat == digit_of(s[2 * i]) * 16 + digit_of(
            s[2 * i + 1],
        )
}

/// Relies on `hex::decode`: text of an even number of hexadecimal digits,
/// in either case, gives one byte per pair of digits, high digit first; any
/// other text gives an error.
#[verifier::external_body]
fn hex_decode(s: &str) -> (r: Option<Vec<u8>>)
    ensures
        r is Some <==> (s@.len() % 2 == 0 && all_digits(s@, 16)),
        r is Some ==> hex_bytes_match(s@, r->0@),
{
    match hex::decode(s) {
        Ok(v) => Some(v),
        Err(_) => None,
    }
}

/// The payload typed as hexadecimal digits: white space around it and any
/// leading `0x` are dropped first.
pub fn decode_message(input: &str) -> (r: Option<Vec<u8>>)
    ensures
        ({
            let h = strip_hex_prefixes(trimmed(input@));
            &&& r is Some <==> (h.len() % 2 == 0 && all_digits(h, 16))
            &&& r is Some ==> hex_bytes_match(h, r->0@)
        }),
{
    let mut t = trim(input);
    let mut n = t.unicode_len();
    while n >= 2 && t.get_char(0) == '0' && t.get_char(1) == 'x'
        invariant
            n == t@.len(),
            strip_hex_prefixes(trimmed(input@)) == strip_hex_prefixes(t@),
        decreases n,
    {
        t = t.substring_char(2, n);
        n = t.unicode_len();
    }
    hex_decode(t)
}

} // verus!
