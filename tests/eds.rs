use sdo_rust_tool::eds_parser::{build_object_dict, classify_section, parse_eds, EdsError, SectionKind};
use sdo_rust_tool::ini_doc::{IniEntry, IniSection};
use sdo_rust_tool::sdo_handler::{validate_sdo_message, SdoError, SdoRequestType};

const SPEED_EDS: &str = "[1000]
DefaultValue=0x191

[1018]
Sub1=0x12345678

[2001]
ParameterName=Speed
DataType=0x0007
AccessType=rw
";

fn section(name: &str, entries: &[(&str, &str)]) -> IniSection {
    IniSection {
        name: Some(name.to_string()),
        entries: entries
            .iter()
            .map(|(k, v)| IniEntry { key: k.to_string(), value: v.to_string() })
            .collect(),
    }
}

#[test]
fn end_to_end_speed_object() {
    let dict = parse_eds(SPEED_EDS).unwrap();
    assert_eq!(dict.device_type, 0x191);
    assert_eq!(dict.vendor_id, 0x1234_5678);
    let obj = dict.lookup_object(0x2001).unwrap();
    assert_eq!(obj.name, "Speed");
    assert_eq!(obj.data_type, "0x0007");
    assert_eq!(obj.access_rights, "rw");
    assert!(validate_sdo_message(obj, SdoRequestType::Upload, &[1, 2, 3, 4]).is_ok());
    let err = validate_sdo_message(obj, SdoRequestType::Download, &[1, 2]).unwrap_err();
    match &err {
        SdoError::LengthMismatch { expected, actual, data_type } => {
            assert_eq!((*expected, *actual, *data_type), (4, 2, 7));
        }
        other => panic!("unexpected error {:?}", other),
    }
    assert_eq!(
        err.message(),
        "Message length mismatch: expected 4 bytes for DataType 0x0007, got 2"
    );
}

#[test]
fn missing_device_type_fails() {
    let e = parse_eds("[1018]\nSub1=0x1\n[2000]\nParameterName=X\n").unwrap_err();
    assert!(matches!(e, EdsError::MissingDeviceType));
    assert_eq!(e.message(), "Missing mandatory object 0x1000");
    let e = parse_eds("[1000]\nParameterName=Device Type\n[1018]\nSub1=1\n").unwrap_err();
    assert!(matches!(e, EdsError::MissingDeviceType));
}

#[test]
fn missing_identity_fails() {
    let e = parse_eds("[1000]\nDefaultValue=0x191\n[2000]\nParameterName=X\n").unwrap_err();
    assert!(matches!(e, EdsError::MissingIdentity));
    assert_eq!(e.message(), "Missing Identity object 0x1018");
}

#[test]
fn malformed_device_type_is_parse_error() {
    let e = parse_eds("[1000]\nDefaultValue=zz\n[1018]\nSub1=1\n").unwrap_err();
    assert!(matches!(e, EdsError::Parse(_)));
}

#[test]
fn malformed_ini_is_parse_error() {
    let e = parse_eds("=5\n").unwrap_err();
    assert!(matches!(e, EdsError::Parse(_)));
    assert!(e.message().starts_with("EDS parse error: "));
}

#[test]
fn malformed_vendor_defaults_to_zero() {
    let dict = parse_eds("[1000]\nDefaultValue=0x191\n[1018]\nSub1=not-a-number\n").unwrap();
    assert_eq!(dict.vendor_id, 0);
    let dict = parse_eds("[1000]\nDefaultValue=0x191\n[1018]\nParameterName=Identity\n").unwrap();
    assert_eq!(dict.vendor_id, 0);
    let dict = parse_eds("[1000]\nDefaultValue=0x191\n[1018]\n1=0x42\n").unwrap();
    assert_eq!(dict.vendor_id, 0x42);
}

#[test]
fn object_then_sub_object_merge() {
    let secs = vec![
        section("1000", &[("DefaultValue", "0x191")]),
        section("1018", &[("Sub1", "0x1")]),
        section("200A", &[("ParameterName", "Gain"), ("DataType", "0x0006"), ("AccessType", "rw")]),
        section("200A3sub", &[("Value", "12"), ("DataType", "0x0005")]),
    ];
    let dict = build_object_dict(&secs).unwrap();
    let obj = dict.lookup_object(0x200A).unwrap();
    assert_eq!(obj.name, "Gain");
    assert_eq!(obj.data_type, "0x0006");
    let sub = obj.sub_objects.get(&3).unwrap();
    assert_eq!(sub.value.as_deref(), Some("12"));
    assert_eq!(sub.default_value, None);
    assert_eq!(sub.access, "rw");
}

#[test]
fn sub_object_then_object_merge() {
    let dict = parse_eds(
        "[1000]\nDefaultValue=0x191\n[1018]\nSub1=0x1\n\
         [2001 Sub 0x2]\nDefaultValue=7\nAccessType=ro\n\
         [2001]\nParameterName=Speed\nDataType=0x0007\n",
    )
    .unwrap();
    let obj = dict.lookup_object(0x2001).unwrap();
    assert_eq!(obj.name, "Speed");
    assert_eq!(obj.data_type, "0x0007");
    assert_eq!(obj.access_rights, "ro");
    let sub = obj.sub_objects.get(&2).unwrap();
    assert_eq!(sub.default_value.as_deref(), Some("7"));
    assert_eq!(sub.value, None);
    assert_eq!(sub.data_type, "0x0005");
    assert_eq!(sub.access, "ro");
}

#[test]
fn sub_object_alone_creates_placeholder() {
    let dict = parse_eds("[1000]\nDefaultValue=1\n[1018]\n[3000 Sub 1]\nValue=5\n").unwrap();
    let obj = dict.lookup_object(0x3000).unwrap();
    assert_eq!(obj.name, "Unnamed");
    assert_eq!(obj.data_type, "UNKNOWN");
    assert_eq!(obj.access_rights, "rw");
    assert_eq!(obj.sub_objects.len(), 1);
}

#[test]
fn object_defaults() {
    let dict = parse_eds("[1000]\nDefaultValue=1\n[1018]\n[4000]\n").unwrap();
    let obj = dict.lookup_object(0x4000).unwrap();
    assert_eq!(obj.name, "Unnamed");
    assert_eq!(obj.data_type, "0x0005");
    assert_eq!(obj.access_rights, "ro");
    assert!(obj.sub_objects.is_empty());
    assert!(dict.lookup_object(0x4001).is_none());
}

#[test]
fn skipped_sections_are_tolerated() {
    let dict = parse_eds(
        "[FileInfo]\nFileName=x\n[Comments]\nLines=0\n[1000]\nDefaultValue=1\n[1018]\n\
         [nothex]\nParameterName=X\n[5000 Sub 999]\nValue=1\n[12345]\nParameterName=Y\n",
    )
    .unwrap();
    assert_eq!(dict.objects.len(), 2);
    assert!(dict.lookup_object(0x5000).is_none());
}

#[test]
fn first_value_of_a_repeated_key_wins() {
    let dict = parse_eds("[1000]\nDefaultValue=1\n[1018]\n[6000]\nParameterName=A\nParameterName=B\n").unwrap();
    assert_eq!(dict.lookup_object(0x6000).unwrap().name, "A");
}

#[test]
fn classify_section_names() {
    assert_eq!(classify_section("2001"), SectionKind::Object(0x2001));
    assert_eq!(classify_section("2001 Sub 3"), SectionKind::SubObject(0x2001, 3));
    assert_eq!(classify_section("2001 Sub 0x1F"), SectionKind::SubObject(0x2001, 0x1F));
    assert_eq!(classify_section("ABC12sub"), SectionKind::SubObject(0xABC, 12));
    assert_eq!(classify_section("2001sub"), SectionKind::Skip);
    assert_eq!(classify_section("2001 Sub 256"), SectionKind::Skip);
    assert_eq!(classify_section("DeviceInfo"), SectionKind::Skip);
    assert_eq!(classify_section("Dummy"), SectionKind::Skip);
    assert_eq!(classify_section(""), SectionKind::Skip);
    assert_eq!(classify_section("10000"), SectionKind::Skip);
}
