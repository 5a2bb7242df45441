use sdo_rust_tool::eds_parser::ObjectEntry;
use sdo_rust_tool::input::{decode_message, parse_request_type};
use sdo_rust_tool::sdo_handler::{
    decimal_string, expected_length, hex4_string, validate_sdo_message, SdoError, SdoRequestType,
};
use std::collections::HashMap;

fn object(data_type: &str, access: &str) -> ObjectEntry {
    ObjectEntry {
        name: "Obj".to_string(),
        data_type: data_type.to_string(),
        access_rights: access.to_string(),
        sub_objects: HashMap::new(),
    }
}

const TABLE: [(u16, usize); 14] = [
    (0x0001, 1), (0x0002, 1), (0x0003, 2), (0x0004, 4), (0x0005, 1), (0x0006, 2), (0x0007, 4),
    (0x0008, 4), (0x0009, 8), (0x000A, 8), (0x000B, 8), (0x0010, 8), (0x0011, 8), (0x0015, 8),
];

#[test]
fn every_table_code_checks_its_length() {
    for (code, len) in TABLE {
        assert_eq!(expected_length(code), Some(len));
        let obj = object(&format!("0x{:04X}", code), "rw");
        let exact = vec![0u8; len];
        assert!(validate_sdo_message(&obj, SdoRequestType::Upload, &exact).is_ok());
        assert!(validate_sdo_message(&obj, SdoRequestType::Download, &exact).is_ok());
        for wrong in [len - 1, len + 1] {
            let data = vec![0xAAu8; wrong];
            match validate_sdo_message(&obj, SdoRequestType::Upload, &data) {
                Err(SdoError::LengthMismatch { expected, actual, data_type }) => {
                    assert_eq!((expected, actual, data_type), (len, wrong, code));
                }
                other => panic!("unexpected {:?}", other),
            }
        }
    }
}

#[test]
fn access_rights_by_direction() {
    let ro = object("0x0006", "ro");
    assert!(validate_sdo_message(&ro, SdoRequestType::Upload, &[1, 2]).is_ok());
    let e = validate_sdo_message(&ro, SdoRequestType::Download, &[1, 2]).unwrap_err();
    assert_eq!(e.message(), "Access denied: Write access denied");
    let wo = object("0x0006", "wo");
    assert!(validate_sdo_message(&wo, SdoRequestType::Download, &[1, 2]).is_ok());
    let e = validate_sdo_message(&wo, SdoRequestType::Upload, &[1, 2]).unwrap_err();
    assert!(matches!(&e, SdoError::AccessDenied(m) if m == "Read access denied"));
    let rw = object("0x0006", "rw");
    assert!(validate_sdo_message(&rw, SdoRequestType::Upload, &[1, 2]).is_ok());
    assert!(validate_sdo_message(&rw, SdoRequestType::Download, &[1, 2]).is_ok());
}

#[test]
fn unsupported_code_regardless_of_payload() {
    let obj = object("0x0099", "rw");
    for data in [vec![], vec![1u8], vec![1, 2, 3, 4], vec![0; 8]] {
        let e = validate_sdo_message(&obj, SdoRequestType::Upload, &data).unwrap_err();
        assert!(matches!(e, SdoError::UnsupportedDataType(0x0099)));
        assert_eq!(e.message(), "Unsupported DataType: 0x0099");
    }
}

#[test]
fn invalid_data_type_format() {
    let obj = object("UNKNOWN", "rw");
    let e = validate_sdo_message(&obj, SdoRequestType::Upload, &[1]).unwrap_err();
    assert!(matches!(&e, SdoError::InvalidDataTypeFormat(s) if s == "UNKNOWN"));
    assert_eq!(e.message(), "Invalid DataType format: UNKNOWN");
}

#[test]
fn data_type_without_prefix_and_lower_case() {
    let obj = object("000a", "rw");
    assert!(validate_sdo_message(&obj, SdoRequestType::Upload, &[0; 8]).is_ok());
}

#[test]
fn length_check_comes_before_access_check() {
    let obj = object("0x0007", "ro");
    let e = validate_sdo_message(&obj, SdoRequestType::Download, &[1]).unwrap_err();
    assert_eq!(
        e.message(),
        "Message length mismatch: expected 4 bytes for DataType 0x0007, got 1"
    );
    let obj = object("0x0005", "rw");
    let e = validate_sdo_message(&obj, SdoRequestType::Upload, &[]).unwrap_err();
    assert_eq!(
        e.message(),
        "Message length mismatch: expected 1 byte for DataType 0x0005, got 0"
    );
}

#[test]
fn number_rendering() {
    assert_eq!(decimal_string(0), "0");
    assert_eq!(decimal_string(1234567), "1234567");
    assert_eq!(hex4_string(0xBEEF), "BEEF");
    assert_eq!(hex4_string(0x0015), "0015");
}

#[test]
fn message_bytes_from_hex() {
    assert_eq!(decode_message(" 0xA0ff "), Some(vec![0xA0, 0xFF]));
    assert_eq!(decode_message("7f"), Some(vec![0x7F]));
    assert_eq!(decode_message(""), Some(vec![]));
    assert_eq!(decode_message("0x123"), None);
    assert_eq!(decode_message("zz"), None);
}

#[test]
fn request_type_words() {
    assert_eq!(parse_request_type("upload"), Some(SdoRequestType::Upload));
    assert_eq!(parse_request_type("DownLoad"), Some(SdoRequestType::Download));
    assert_eq!(parse_request_type("read"), None);
    assert_eq!(parse_request_type(" upload"), None);
}
