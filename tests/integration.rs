use sdo_rust_tool::eds_parser::{parse_eds, ObjectEntry};
use sdo_rust_tool::input::decode_message;
use sdo_rust_tool::numeric::parse_hex_or_dec;
use sdo_rust_tool::sdo_handler::{validate_sdo_message, SdoRequestType};
use std::collections::HashMap;

const SAMPLE_EDS: &str = "[FileInfo]
FileName=sample.eds

[1000]
ParameterName=Device Type
DataType=0x0007
AccessType=ro
DefaultValue=0x00000191

[1018]
ParameterName=Identity Object
Sub1=0x12345678
";

#[test]
fn test_object_id_parsing() {
    let obj_dec = parse_hex_or_dec("1018", 0, 0xFFFF).unwrap();
    assert_eq!(obj_dec, 0x1018);
    let obj_hex = parse_hex_or_dec("0x1018", 0, 0xFFFF).unwrap();
    assert_eq!(obj_hex, 0x1018);
}

#[test]
fn test_subobject_id_parsing() {
    let sub_dec = parse_hex_or_dec("1", 0, 0xFF).unwrap();
    assert_eq!(sub_dec as u8, 1);
}

#[test]
fn test_object_exists_in_eds() {
    let dict = parse_eds(SAMPLE_EDS).unwrap();
    assert!(dict.lookup_object(0x1018).is_some(), "Identity object must exist");
}

#[test]
fn test_message_length_and_structure() {
    let sample_obj = ObjectEntry {
        name: "Sample".to_string(),
        data_type: "0x0007".to_string(),
        access_rights: "rw".to_string(),
        sub_objects: HashMap::new(),
    };
    let valid_data: [u8; 4] = [0x01, 0x02, 0x03, 0x04];
    validate_sdo_message(&sample_obj, SdoRequestType::Download, &valid_data).unwrap();

    let invalid_data: [u8; 2] = [0x01, 0x02];
    let err = validate_sdo_message(&sample_obj, SdoRequestType::Download, &invalid_data).unwrap_err();
    assert!(err.message().contains("length mismatch"));
}

#[test]
fn test_hex_message_conversion() {
    let hex_str = "0x01020304";
    let bytes = decode_message(hex_str).unwrap();
    assert_eq!(bytes, vec![1, 2, 3, 4]);
}
