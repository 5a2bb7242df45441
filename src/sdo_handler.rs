//! Checks an SDO request against the object it addresses.
use vstd::prelude::*;
use crate::eds_parser::ObjectEntry;
use crate::numeric::{has_hex_prefix, parse_radix, radix_parse};

verus! {

/// The direction of an SDO transfer.
#[derive(Debug, Clone, Copy, PartialEq, Eq)]
pub enum SdoRequestType {
    /// Read the object (needs `r` in its access rights).
    Upload,
    /// Write the object (needs `w` in its access rights).
    Download,
}

/// Why a request was refused.
#[derive(Debug, Clone)]
pub enum SdoError {
    /// The object's data type is not a hexadecimal code.
    InvalidDataTypeFormat(String),
    /// The data type code has no known length.
    UnsupportedDataType(u16),
    /// The payload does not have the length of the data type.
    LengthMismatch { expected: usize, actual: usize, data_type: u16 },
    /// The access rights do not allow the direction.
    AccessDenied(String),
}

/// An [`SdoError`] as values.
pub enum SdoFailure {
    InvalidDataTypeFormat(Seq<char>),
    UnsupportedDataType(u16),
    LengthMismatch { expected: nat, actual: nat, data_type: u16 },
    AccessDenied(Seq<char>),
}

impl View for SdoError {
    type V = SdoFailure;

    open spec fn view(&self) -> SdoFailure {
        match self {
            SdoError::InvalidDataTypeFormat(s) => SdoFailure::InvalidDataTypeFormat(s@),
            SdoError::UnsupportedDataType(c) => SdoFailure::UnsupportedDataType(*c),
            SdoError::LengthMismatch { expected, actual, data_type } => SdoFailure::LengthMismatch {
                expected: *expected as nat,
                actual: *actual as nat,
                data_type: *data_type,
            },
            SdoError::AccessDenied(m) => SdoFailure::AccessDenied(m@),
        }
    }
}

/// A data type text read as a code: hexadecimal, after an optional `0x`.
pub open spec fn data_type_code(t: Seq<char>) -> Option<nat> {
    if has_hex_prefix(t) {
        radix_parse(t.subrange(2, t.len() as int), 16, 0xFFFF)
    } else {
        radix_parse(t, 16, 0xFFFF)
    }
}

/// The payload length of each supported data type code. The string types
/// (0x0009, 0x000A, 0x000B) are given a fixed length of 8 bytes: their real
/// length is not checked.
pub open spec fn type_length(code: u16) -> Option<nat> {
    if code == 0x0001 || code == 0x0002 || code == 0x0005 {
        Some(1)
    } else if code == 0x0003 || code == 0x0006 {
        Some(2)
    } else if code == 0x0004 || code == 0x0007 || code == 0x0008 {
        Some(4)
    } else if code == 0x0009 || code == 0x000A || code == 0x000B || code == 0x0010 || code
        == 0x0011 || code == 0x0015 {
        Some(8)
    } else {
        None
    }
}

/// The text holds the character `c`.
pub open spec fn has_char(t: Seq<char>, c: char) -> bool {
    exists|i: int| 0 <= i < t.len() && t[i] == c
}

/// The outcome of a request, as values: the data type is decoded, its
/// length is compared with the payload's, then the access rights are
/// checked; the first failing step decides.
pub open spec fn sdo_outcome(
    data_type: Seq<char>,
    access: Seq<char>,
    req: SdoRequestType,
    len: nat,
) -> Result<(), SdoFailure> {
    match data_type_code(data_type) {
        None => Err(SdoFailure::InvalidDataTypeFormat(data_type)),
        Some(code) => match type_length(code as u16) {
            None => Err(SdoFailure::UnsupportedDataType(code as u16)),
            Some(n) => if len != n {
                Err(SdoFailure::LengthMismatch { expected: n, actual: len, data_type: code as u16 })
            } else {
                match req {
                    SdoRequestType::Upload => if has_char(access, 'r') {
                        Ok(())
                    } else {
                        Err(SdoFailure::AccessDenied("Read access denied"@))
                    },
                    SdoRequestType::Download => if has_char(access, 'w') {
                        Ok(())
                    } else {
                        Err(SdoFailure::AccessDenied("Write access denied"@))
                    },
                }
            },
        },
    }
}

/// A validation result as values.
pub open spec fn sdo_result_view(r: Result<(), SdoError>) -> Result<(), SdoFailure> {
    match r {
        Ok(()) => Ok(()),
        Err(e) => Err(e@),
    }
}

/// Decodes a data type text (see [`data_type_code`]).
pub fn decode_data_type(t: &str) -> (r: Option<u16>)
    ensures
        match data_type_code(t@) {
            Some(v) => r == Some(v as u16),
            None => r is None,
        },
{
    let n = t.unicode_len();
    let v = if n >= 2 && t.get_char(0) == '0' && t.get_char(1) == 'x' {
        parse_radix(t.substring_char(2, n), 16, 0xFFFF)
    } else {
        parse_radix(t, 16, 0xFFFF)
    };
    match v {
        Some(x) => Some(x as u16),
        None => None,
    }
}

/// The payload length of a data type code (see [`type_length`]).
pub fn expected_length(code: u16) -> (r: Option<usize>)
    ensures
        match type_length(code) {
            Some(n) => r == Some(n as usize),
            None => r is None,
        },
{
    if code == 0x0001 || code == 0x0002 || code == 0x0005 {
        Some(1)
    } else if code == 0x0003 || code == 0x0006 {
        Some(2)
    } else if code == 0x0004 || code == 0x0007 || code == 0x0008 {
        Some(4)
    } else if code == 0x0009 || code == 0x000A || code == 0x000B || code == 0x0010 || code
        == 0x0011 || code == 0x0015 {
        Some(8)
    } else {
        None
    }
}

/// Tells whether `t` holds the character `c`.
pub fn contains_char(t: &str, c: char) -> (r: bool)
    ensures
        r == has_char(t@, c),
{
    let n = t.unicode_len();
    let mut i: usize = 0;
    while i < n
        invariant
            i <= n,
            n == t@.len(),
            forall|k: int| 0 <= k < i ==> t@[k] != c,
        decreases n - i,
    {
        if t.get_char(i) == c {
            return true;
        }
        i = i + 1;
    }
    false
}

/// Checks a request of direction `req_type` with payload `data` against
/// the object `obj` (see [`sdo_outcome`]).
pub fn validate_sdo_message(obj: &ObjectEntry, req_type: SdoRequestType, data: &[u8]) -> (r:
    Result<(), SdoError>)
    ensures
        sdo_result_view(r) == sdo_outcome(
            obj.data_type@,
            obj.access_rights@,
            req_type,
            data@.len(),
        ),
{
    let code = match decode_data_type(obj.data_type.as_str()) {
        Some(c) => c,
        None => return Err(SdoError::InvalidDataTypeFormat(obj.data_type.clone())),
    };
    let expected = match expected_length(code) {
        Some(n) => n,
        None => return Err(SdoError::UnsupportedDataType(code)),
    };
    if data.len() != expected {
        return Err(SdoError::LengthMismatch { expected, actual: data.len(), data_type: code });
    }
    match req_type {
        SdoRequestType::Upload => {
            if !contains_char(obj.access_rights.as_str(), 'r') {
                return Err(SdoError::AccessDenied("Read access denied".to_string()));
            }
        },
        SdoRequestType::Download => {
            if !contains_char(obj.access_rights.as_str(), 'w') {
                return Err(SdoError::AccessDenied("Write access denied".to_string()));
            }
        },
    }
    Ok(())
}

/// The upper-case hexadecimal digit of `d` (also the decimal digit for `d < 10`).
pub open spec fn digit_char(d: nat) -> char {
    if d == 0 {
        '0'
    } else if d == 1 {
        '1'
    } else if d == 2 {
        '2'
    } else if d == 3 {
        '3'
    } else if d == 4 {
        '4'
    } else if d == 5 {
        '5'
    } else if d == 6 {
        '6'
    } else if d == 7 {
        '7'
    } else if d == 8 {
        '8'
    } else if d == 9 {
        '9'
    } else if d == 10 {
        'A'
    } else if d == 11 {
        'B'
    } else if d == 12 {
        'C'
    } else if d == 13 {
        'D'
    } else if d == 14 {
        'E'
    } else {
        'F'
    }
}

/// `n` written in decimal.
pub open spec fn decimal_text(n: nat) -> Seq<char>
    decreases n,
{
    if n < 10 {
        seq![digit_char(n)]
    } else {
        decimal_text(n / 10).push(digit_char(n % 10))
    }
}

/// `c` written as four upper-case hexadecimal digits.
pub open spec fn hex4_text(c: u16) -> Seq<char> {
    seq![
        digit_char((c / 4096) as nat),
        digit_char(((c / 256) % 16) as nat),
        digit_char(((c / 16) % 16) as nat),
        digit_char((c % 16) as nat),
    ]
}

/// The sentence that describes a refusal.
pub open spec fn sdo_message(e: SdoFailure) -> Seq<char> {
    match e {
        SdoFailure::InvalidDataTypeFormat(t) => "Invalid DataType format: "@ + t,
        SdoFailure::UnsupportedDataType(c) => "Unsupported DataType: 0x"@ + hex4_text(c),
        SdoFailure::LengthMismatch { expected, actual, data_type } => "Message length mismatch: expected "@
            + decimal_text(expected) + (if expected == 1 {
            " byte"@
        } else {
            " bytes"@
        }) + " for DataType 0x"@ + hex4_text(data_type) + ", got "@ + decimal_text(actual),
        SdoFailure::AccessDenied(m) => "Access denied: "@ + m,
    }
}

fn digit_text(d: usize) -> (r: &'static str)
    requires
        d < 16,
    ensures
        r@ == seq![digit_char(d as nat)],
{
    match d {
        0 => {
            proof {
                reveal_strlit("0");
            }
            "0"
        },
        1 => {
            proof {
                reveal_strlit("1");
            }
            "1"
        },
        2 => {
            proof {
                reveal_strlit("2");
            }
            "2"
        },
        3 => {
            proof {
                reveal_strlit("3");
            }
            "3"
        },
        4 => {
            proof {
                reveal_strlit("4");
            }
            "4"
        },
        5 => {
            proof {
                reveal_strlit("5");
            }
            "5"
        },
        6 => {
            proof {
                reveal_strlit("6");
            }
            "6"
        },
        7 => {
            proof {
                reveal_strlit("7");
            }
            "7"
        },
        8 => {
            proof {
                reveal_strlit("8");
            }
            "8"
        },
        9 => {
            proof {
                reveal_strlit("9");
            }
            "9"
        },
        10 => {
            proof {
                reveal_strlit("A");
            }
            "A"
        },
        11 => {
            proof {
                reveal_strlit("B");
            }
            "B"
        },
        12 => {
            proof {
                reveal_strlit("C");
            }
            "C"
        },
        13 => {
            proof {
                reveal_strlit("D");
            }
            "D"
        },
        14 => {
            proof {
                reveal_strlit("E");
            }
            "E"
        },
        _ => {
            proof {
                reveal_strlit("F");
            }
            "F"
        },
    }
}

/// `n` written in decimal.
pub fn decimal_string(n: usize) -> (r: String)
    ensures
        r@ == decimal_text(n as nat),
    decreases n,
{
    if n < 10 {
        digit_text(n).to_string()
    } else {
        let mut s = decimal_string(n / 10);
        s.append(digit_text(n % 10));
        s
    }
}

/// `c` written as four upper-case hexadecimal digits.
pub fn hex4_string(c: u16) -> (r: String)
    ensures
        r@ == hex4_text(c),
{
    let mut s = digit_text((c / 4096) as usize).to_string();
    s.append(digit_text(((c / 256) % 16) as usize));
    s.append(digit_text(((c / 16) % 16) as usize));
    s.append(digit_text((c % 16) as usize));
    assert(s@ =~= hex4_text(c));
    s
}

impl SdoError {
    /// A sentence that describes the refusal.
    pub fn message(&self) -> (r: String)
        ensures
            r@ == sdo_message(self@),
    {
        match self {
            SdoError::InvalidDataTypeFormat(t) => {
                let mut s = "Invalid DataType format: ".to_string();
                s.append(t.as_str());
                s
            },
            SdoError::UnsupportedDataType(c) => {
                let mut s = "Unsupported DataType: 0x".to_string();
                let h = hex4_string(*c);
                s.append(h.as_str());
                s
            },
            SdoError::LengthMismatch { expected, actual, data_type } => {
                let mut s = "Message length mismatch: expected ".to_string();
                let e = decimal_string(*expected);
                s.append(e.as_str());
                if *expected == 1 {
                    s.append(" byte");
                } else {
                    s.append(" bytes");
                }
                s.append(" for DataType 0x");
                let h = hex4_string(*data_type);
                s.append(h.as_str());
                s.append(", got ");
                let a = decimal_string(*actual);
                s.append(a.as_str());
                s
            },
            SdoError::AccessDenied(m) => {
                let mut s = "Access denied: ".to_string();
                s.append(m.as_str());
                s
            },
        }
    }
}

/// The outcome of the access check alone.
pub open spec fn access_outcome(access: Seq<char>, req: SdoRequestType) -> Result<(), SdoFailure> {
    match req {
        SdoRequestType::Upload => if has_char(access, 'r') {
            Ok(())
        } else {
            Err(SdoFailure::AccessDenied("Read access denied"@))
        },
        SdoRequestType::Download => if has_char(access, 'w') {
            Ok(())
        } else {
            Err(SdoFailure::AccessDenied("Write access denied"@))
        },
    }
}

/// For every code of the table, a payload of exactly its length passes the
/// length check (the access rights alone decide), and a payload one byte
/// shorter or longer fails with `LengthMismatch` that cites both lengths.
pub proof fn lemma_length_check(
    data_type: Seq<char>,
    access: Seq<char>,
    req: SdoRequestType,
    code: u16,
)
    requires
        data_type_code(data_type) == Some(code as nat),
        type_length(code) is Some,
    ensures
        ({
            let n = type_length(code)->0;
            &&& sdo_outcome(data_type, access, req, n) == access_outcome(access, req)
            &&& sdo_outcome(data_type, access, req, n + 1) == Err::<(), SdoFailure>(
                SdoFailure::LengthMismatch { expected: n, actual: n + 1, data_type: code },
            )
            &&& sdo_outcome(data_type, access, req, (n - 1) as nat) == Err::<(), SdoFailure>(
                SdoFailure::LengthMismatch { expected: n, actual: (n - 1) as nat, data_type: code },
            )
        }),
{
}

/// `ro` allows an upload and refuses a download; `wo` the reverse; `rw`
/// allows both (for a payload of the right length).
pub proof fn lemma_access_rights(data_type: Seq<char>, code: u16)
    requires
        data_type_code(data_type) == Some(code as nat),
        type_length(code) is Some,
    ensures
        ({
            let n = type_length(code)->0;
            &&& sdo_outcome(data_type, "ro"@, SdoRequestType::Upload, n) is Ok
            &&& sdo_outcome(data_type, "ro"@, SdoRequestType::Download, n) == Err::<(), SdoFailure>(
                SdoFailure::AccessDenied("Write access denied"@),
            )
            &&& sdo_outcome(data_type, "wo"@, SdoRequestType::Download, n) is Ok
            &&& sdo_outcome(data_type, "wo"@, SdoRequestType::Upload, n) == Err::<(), SdoFailure>(
                SdoFailure::AccessDenied("Read access denied"@),
            )
            &&& sdo_outcome(data_type, "rw"@, SdoRequestType::Upload, n) is Ok
            &&& sdo_outcome(data_type, "rw"@, SdoRequestType::Download, n) is Ok
        }),
{
    reveal_strlit("ro");
    reveal_strlit("wo");
    reveal_strlit("rw");
    assert("ro"@[0] == 'r');
    assert("wo"@[0] == 'w');
    assert("rw"@[0] == 'r');
    assert("rw"@[1] == 'w');
    assert(!has_char("ro"@, 'w'));
    assert(!has_char("wo"@, 'r'));
}

/// A data type code outside the table (0x0099 among them) fails with
/// `UnsupportedDataType`, whatever the payload, direction and access.
pub proof fn lemma_unsupported_code(
    data_type: Seq<char>,
    access: Seq<char>,
    req: SdoRequestType,
    len: nat,
    code: u16,
)
    requires
        data_type_code(data_type) == Some(code as nat),
        type_length(code) is None,
    ensures
        sdo_outcome(data_type, access, req, len) == Err::<(), SdoFailure>(
            SdoFailure::UnsupportedDataType(code),
        ),
{
}

/// 0x0099 is not in the table.
pub proof fn lemma_code_0099_unsupported()
    ensures
        type_length(0x0099) is None,
{
}

} // verus!
