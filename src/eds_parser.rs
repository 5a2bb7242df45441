//! The object dictionary and its construction from the sections of an EDS file.
use std::collections::HashMap;
use vstd::prelude::*;
use crate::ini_doc::{
    entries_view, entry_value, find_section, find_value, ini_document, load_ini_sections,
    section_entries, sections_view, str_eq, IniEntry, IniSection,
};
use crate::numeric::{
    has_hex_prefix, is_dec_digit, numeric_literal, numeric_value, parse_radix, radix_parse,
    digit_in,
};

verus! {

broadcast use vstd::std_specs::hash::group_hash_axioms;

/// A section as values: its name and its entries.
pub type SectionValue = (Option<Seq<char>>, Seq<(Seq<char>, Seq<char>)>);

/// Why an EDS text could not become a dictionary.
#[derive(Debug, Clone)]
pub enum EdsError {
    /// The text is not a well-formed INI document, or the device type is
    /// not a number.
    Parse(String),
    /// There is no object 0x1000 with a `DefaultValue`.
    MissingDeviceType,
    /// There is no section for object 0x1018.
    MissingIdentity,
}

/// The kind of an [`EdsError`], without its message.
#[derive(Debug, Clone, Copy, PartialEq, Eq)]
pub enum EdsFailure {
    Parse,
    MissingDeviceType,
    MissingIdentity,
}

impl View for EdsError {
    type V = EdsFailure;

    open spec fn view(&self) -> EdsFailure {
        match self {
            EdsError::Parse(_) => EdsFailure::Parse,
            EdsError::MissingDeviceType => EdsFailure::MissingDeviceType,
            EdsError::MissingIdentity => EdsFailure::MissingIdentity,
        }
    }
}

impl EdsError {
    /// A sentence that describes the error.
    pub fn message(&self) -> (r: String)
        ensures
            match self {
                EdsError::Parse(m) => r@ == "EDS parse error: "@ + m@,
                EdsError::MissingDeviceType => r@ == "Missing mandatory object 0x1000"@,
                EdsError::MissingIdentity => r@ == "Missing Identity object 0x1018"@,
            },
    {
        match self {
            EdsError::Parse(m) => {
                let mut s = "EDS parse error: ".to_string();
                s.append(m.as_str());
                s
            },
            EdsError::MissingDeviceType => "Missing mandatory object 0x1000".to_string(),
            EdsError::MissingIdentity => "Missing Identity object 0x1018".to_string(),
        }
    }
}

/// One sub-index of an object.
#[derive(Debug, Clone)]
pub struct SubObjectEntry {
    pub value: Option<String>,
    pub default_value: Option<String>,
    pub data_type: String,
    pub access: String,
}

/// One object of the dictionary.
#[derive(Debug, Clone)]
pub struct ObjectEntry {
    pub name: String,
    pub data_type: String,
    pub access_rights: String,
    pub sub_objects: HashMap<u8, SubObjectEntry>,
}

/// The dictionary read from an EDS file.
#[derive(Debug, Clone)]
pub struct ObjectDict {
    pub device_type: u32,
    pub vendor_id: u32,
    pub objects: HashMap<u16, ObjectEntry>,
}

/// A sub-object as values.
pub struct SubObjectModel {
    pub value: Option<Seq<char>>,
    pub default_value: Option<Seq<char>>,
    pub data_type: Seq<char>,
    pub access: Seq<char>,
}

/// An object as values.
pub struct ObjectModel {
    pub name: Seq<char>,
    pub data_type: Seq<char>,
    pub access_rights: Seq<char>,
    pub sub_objects: Map<u8, SubObjectModel>,
}

/// A dictionary as values.
pub struct DictModel {
    pub device_type: u32,
    pub vendor_id: u32,
    pub objects: Map<u16, ObjectModel>,
}

pub open spec fn opt_view(o: Option<String>) -> Option<Seq<char>> {
    match o {
        Some(s) => Some(s@),
        None => None,
    }
}

impl View for SubObjectEntry {
    type V = SubObjectModel;

    open spec fn view(&self) -> SubObjectModel {
        SubObjectModel {
            value: opt_view(self.value),
            default_value: opt_view(self.default_value),
            data_type: self.data_type@,
            access: self.access@,
        }
    }
}

/// The sub-objects of a map, as values.
pub open spec fn sub_objects_view(m: Map<u8, SubObjectEntry>) -> Map<u8, SubObjectModel> {
    m.map_values(|s: SubObjectEntry| s@)
}

impl View for ObjectEntry {
    type V = ObjectModel;

    open spec fn view(&self) -> ObjectModel {
        ObjectModel {
            name: self.name@,
            data_type: self.data_type@,
            access_rights: self.access_rights@,
            sub_objects: sub_objects_view(self.sub_objects@),
        }
    }
}

/// The objects of a map, as values.
pub open spec fn objects_view(m: Map<u16, ObjectEntry>) -> Map<u16, ObjectModel> {
    m.map_values(|e: ObjectEntry| e@)
}

impl View for ObjectDict {
    type V = DictModel;

    open spec fn view(&self) -> DictModel {
        DictModel {
            device_type: self.device_type,
            vendor_id: self.vendor_id,
            objects: objects_view(self.objects@),
        }
    }
}

impl ObjectDict {
    /// The object at `id`, if the dictionary has one.
    pub fn lookup_object(&self, id: u16) -> (r: Option<&ObjectEntry>)
        ensures
            r is Some <==> self@.objects.contains_key(id),
            r is Some ==> r->0@ == self@.objects[id],
    {
        self.objects.get(&id)
    }
}

/// What a section name stands for.
#[derive(Debug, Clone, Copy, PartialEq, Eq)]
pub enum SectionKind {
    /// Not an object: skipped.
    Skip,
    /// A whole object, at this index.
    Object(u16),
    /// A sub-object, at this index and sub-index.
    SubObject(u16, u8),
}

/// Section names that never hold an object.
pub open spec fn is_reserved_section(n: Seq<char>) -> bool {
    n == "FileInfo"@ || n == "DeviceInfo"@ || n == "DummyUsage"@ || n == "Comments"@ || n
        == "MandatoryObjects"@ || n == "OptionalObjects"@ || n == "ManufacturerObjects"@ || n
        == "Dummy"@
}

/// The name ends in `sub`.
pub open spec fn ends_with_sub(n: Seq<char>) -> bool {
    n.len() >= 3 && n[n.len() - 3] == 's' && n[n.len() - 2] == 'u' && n[n.len() - 1] == 'b'
}

/// Where the run of decimal digits at the end of `s` begins.
pub open spec fn digit_run_start(s: Seq<char>) -> int
    decreases s.len(),
{
    if s.len() > 0 && is_dec_digit(s.last()) {
        digit_run_start(s.drop_last())
    } else {
        s.len() as int
    }
}

/// ` Sub ` stands at position `i` of `n`.
pub open spec fn sub_marker_at(n: Seq<char>, i: int) -> bool {
    0 <= i && i + 5 <= n.len() && n[i] == ' ' && n[i + 1] == 'S' && n[i + 2] == 'u' && n[i + 3]
        == 'b' && n[i + 4] == ' '
}

/// The first position at or after `i` where ` Sub ` stands.
pub open spec fn sub_marker_from(n: Seq<char>, i: int) -> Option<int>
    decreases n.len() - i,
{
    if i < 0 || i + 5 > n.len() {
        None
    } else if sub_marker_at(n, i) {
        Some(i)
    } else {
        sub_marker_from(n, i + 1)
    }
}

/// An object index: hexadecimal, at most 0xFFFF.
pub open spec fn index_value(t: Seq<char>) -> Option<nat> {
    radix_parse(t, 16, 0xFFFF)
}

/// A sub-index token: hexadecimal after `0x`, else decimal; at most 0xFF.
pub open spec fn sub_index_value(t: Seq<char>) -> Option<nat> {
    if has_hex_prefix(t) {
        radix_parse(t.subrange(2, t.len() as int), 16, 0xFF)
    } else {
        radix_parse(t, 10, 0xFF)
    }
}

/// The kind of a section from an index text and a sub-index token.
pub open spec fn sub_object_kind(index: Option<nat>, sub: Option<nat>) -> SectionKind {
    match (index, sub) {
        (Some(i), Some(s)) => SectionKind::SubObject(i as u16, s as u8),
        _ => SectionKind::Skip,
    }
}

/// How a section name is read.
/// - `<index><digits>sub`: the trailing digits before `sub` are the
///   sub-index (decimal), what precedes them the index;
/// - `<index> Sub <sub-index>`, split at the first ` Sub `;
/// - otherwise the whole name is the index.
/// Reserved names, empty names and names whose parts do not parse are skipped.
pub open spec fn section_kind(n: Seq<char>) -> SectionKind {
    if n.len() == 0 || is_reserved_section(n) {
        SectionKind::Skip
    } else if ends_with_sub(n) {
        let stripped = n.subrange(0, n.len() - 3);
        let k = digit_run_start(stripped);
        if k == stripped.len() {
            SectionKind::Skip
        } else {
            sub_object_kind(
                index_value(stripped.subrange(0, k)),
                radix_parse(stripped.subrange(k, stripped.len() as int), 10, 0xFF),
            )
        }
    } else {
        match sub_marker_from(n, 0) {
            Some(p) => sub_object_kind(
                index_value(n.subrange(0, p)),
                sub_index_value(n.subrange(p + 5, n.len() as int)),
            ),
            None => match index_value(n) {
                Some(i) => SectionKind::Object(i as u16),
                None => SectionKind::Skip,
            },
        }
    }
}

fn is_reserved_name(n: &str) -> (r: bool)
    ensures
        r == is_reserved_section(n@),
{
    str_eq(n, "FileInfo") || str_eq(n, "DeviceInfo") || str_eq(n, "DummyUsage") || str_eq(
        n,
        "Comments",
    ) || str_eq(n, "MandatoryObjects") || str_eq(n, "OptionalObjects") || str_eq(
        n,
        "ManufacturerObjects",
    ) || str_eq(n, "Dummy")
}

fn find_digit_run(s: &str) -> (k: usize)
    ensures
        k == digit_run_start(s@),
        k <= s@.len(),
{
    let mut k = s.unicode_len();
    assert(s@.subrange(0, k as int) =~= s@);
    while k > 0 && digit_in(s.get_char(k - 1), 10).is_some()
        invariant
            k <= s@.len(),
            digit_run_start(s@) == digit_run_start(s@.subrange(0, k as int)),
        decreases k,
    {
        assert(s@.subrange(0, k as int).drop_last() =~= s@.subrange(0, k - 1));
        k = k - 1;
    }
    k
}

fn find_sub_marker(n: &str) -> (r: Option<usize>)
    ensures
        match sub_marker_from(n@, 0) {
            Some(p) => r is Some && r->0 as int == p,
            None => r is None,
        },
        r is Some ==> r->0 + 5 <= n@.len(),
{
    let len = n.unicode_len();
    let mut i: usize = 0;
    while i < len && len - i >= 5
        invariant
            len == n@.len(),
            i <= len,
            sub_marker_from(n@, 0) == sub_marker_from(n@, i as int),
        decreases len - i,
    {
        if n.get_char(i) == ' ' && n.get_char(i + 1) == 'S' && n.get_char(i + 2) == 'u'
            && n.get_char(i + 3) == 'b' && n.get_char(i + 4) == ' ' {
            return Some(i);
        }
        i = i + 1;
    }
    None
}

fn parse_sub_index(t: &str) -> (r: Option<u8>)
    ensures
        match sub_index_value(t@) {
            Some(v) => r == Some(v as u8),
            None => r is None,
        },
{
    let n = t.unicode_len();
    let v = if n >= 2 && t.get_char(0) == '0' && t.get_char(1) == 'x' {
        parse_radix(t.substring_char(2, n), 16, 0xFF)
    } else {
        parse_radix(t, 10, 0xFF)
    };
    match v {
        Some(x) => Some(x as u8),
        None => None,
    }
}

fn parse_index(t: &str) -> (r: Option<u16>)
    ensures
        match index_value(t@) {
            Some(v) => r == Some(v as u16),
            None => r is None,
        },
{
    match parse_radix(t, 16, 0xFFFF) {
        Some(x) => Some(x as u16),
        None => None,
    }
}

/// Reads a section name (see [`section_kind`]).
pub fn classify_section(name: &str) -> (r: SectionKind)
    ensures
        r == section_kind(name@),
{
    let n = name.unicode_len();
    if n == 0 || is_reserved_name(name) {
        return SectionKind::Skip;
    }
    if n >= 3 && name.get_char(n - 3) == 's' && name.get_char(n - 2) == 'u' && name.get_char(n - 1)
        == 'b' {
        let stripped = name.substring_char(0, n - 3);
        let k = find_digit_run(stripped);
        if k == n - 3 {
            return SectionKind::Skip;
        }
        let index = parse_index(stripped.substring_char(0, k));
        let sub = parse_radix(stripped.substring_char(k, n - 3), 10, 0xFF);
        match (index, sub) {
            (Some(i), Some(s)) => SectionKind::SubObject(i, s as u8),
            _ => SectionKind::Skip,
        }
    } else {
        match find_sub_marker(name) {
            Some(p) => {
                let index = parse_index(name.substring_char(0, p));
                let sub = parse_sub_index(name.substring_char(p + 5, n));
                match (index, sub) {
                    (Some(i), Some(s)) => SectionKind::SubObject(i, s),
                    _ => SectionKind::Skip,
                }
            },
            None => match parse_index(name) {
                Some(i) => SectionKind::Object(i),
                None => SectionKind::Skip,
            },
        }
    }
}

/// The value of `key` among `entries`, or `default` where it is absent.
pub open spec fn value_or(
    entries: Seq<(Seq<char>, Seq<char>)>,
    key: Seq<char>,
    default: Seq<char>,
) -> Seq<char> {
    match entry_value(entries, key) {
        Some(v) => v,
        None => default,
    }
}

/// The object that a sub-object section creates where its index has none yet.
pub open spec fn placeholder_model() -> ObjectModel {
    ObjectModel {
        name: "Unnamed"@,
        data_type: "UNKNOWN"@,
        access_rights: "rw"@,
        sub_objects: Map::empty(),
    }
}

/// The sub-object that a sub-object section describes.
pub open spec fn sub_object_model(entries: Seq<(Seq<char>, Seq<char>)>) -> SubObjectModel {
    SubObjectModel {
        value: entry_value(entries, "Value"@),
        default_value: entry_value(entries, "DefaultValue"@),
        data_type: value_or(entries, "DataType"@, "0x0005"@),
        access: value_or(entries, "AccessType"@, "rw"@),
    }
}

/// The objects after one more section: an object section sets the name, type
/// and access of its index and keeps the sub-objects already there; a
/// sub-object section adds or replaces one sub-object, creating the object
/// where needed.
pub open spec fn apply_section(m: Map<u16, ObjectModel>, sec: SectionValue) -> Map<
    u16,
    ObjectModel,
> {
    match sec.0 {
        None => m,
        Some(name) => match section_kind(name) {
            SectionKind::Skip => m,
            SectionKind::Object(idx) => m.insert(
                idx,
                ObjectModel {
                    name: value_or(sec.1, "ParameterName"@, "Unnamed"@),
                    data_type: value_or(sec.1, "DataType"@, "0x0005"@),
                    access_rights: value_or(sec.1, "AccessType"@, "ro"@),
                    sub_objects: if m.contains_key(idx) {
                        m[idx].sub_objects
                    } else {
                        Map::empty()
                    },
                },
            ),
            SectionKind::SubObject(idx, sub) => {
                let base = if m.contains_key(idx) {
                    m[idx]
                } else {
                    placeholder_model()
                };
                m.insert(
                    idx,
                    ObjectModel {
                        name: base.name,
                        data_type: base.data_type,
                        access_rights: base.access_rights,
                        sub_objects: base.sub_objects.insert(sub, sub_object_model(sec.1)),
                    },
                )
            },
        },
    }
}

/// The objects that a list of sections yields, taken in order.
pub open spec fn objects_of(secs: Seq<SectionValue>) -> Map<u16, ObjectModel>
    decreases secs.len(),
{
    if secs.len() == 0 {
        Map::empty()
    } else {
        apply_section(objects_of(secs.drop_last()), secs.last())
    }
}

/// The `DefaultValue` of the first section `1000`.
pub open spec fn device_field(secs: Seq<SectionValue>) -> Option<Seq<char>> {
    match section_entries(secs, "1000"@) {
        Some(e) => entry_value(e, "DefaultValue"@),
        None => None,
    }
}

/// The vendor id in an identity section: `Sub1`, else `1`, read as a
/// number; 0 where absent or not a number.
pub open spec fn vendor_of(identity: Seq<(Seq<char>, Seq<char>)>) -> u32 {
    let field = match entry_value(identity, "Sub1"@) {
        Some(v) => Some(v),
        None => entry_value(identity, "1"@),
    };
    match field {
        Some(v) => match numeric_literal(v) {
            Some(n) => n as u32,
            None => 0,
        },
        None => 0,
    }
}

/// The dictionary that a list of sections yields, or why there is none.
pub open spec fn eds_model(secs: Seq<SectionValue>) -> Result<DictModel, EdsFailure> {
    match device_field(secs) {
        None => Err(EdsFailure::MissingDeviceType),
        Some(f) => match numeric_literal(f) {
            None => Err(EdsFailure::Parse),
            Some(d) => match section_entries(secs, "1018"@) {
                None => Err(EdsFailure::MissingIdentity),
                Some(identity) => Ok(
                    DictModel {
                        device_type: d as u32,
                        vendor_id: vendor_of(identity),
                        objects: objects_of(secs),
                    },
                ),
            },
        },
    }
}

/// A parse result as values.
pub open spec fn outcome_view(r: Result<ObjectDict, EdsError>) -> Result<DictModel, EdsFailure> {
    match r {
        Ok(d) => Ok(d@),
        Err(e) => Err(e@),
    }
}

/// The dictionary that an EDS text yields, or why there is none.
pub open spec fn eds_text_model(text: Seq<char>) -> Result<DictModel, EdsFailure> {
    match ini_document(text) {
        None => Err(EdsFailure::Parse),
        Some(secs) => eds_model(secs),
    }
}

/// Reads `s` by the numeric-literal rule.
pub fn parse_hex_or_dec(s: &str) -> (r: Result<u32, EdsError>)
    ensures
        match numeric_literal(s@) {
            Some(v) => r is Ok && r->Ok_0 == v as u32,
            None => r is Err && r->Err_0@ == EdsFailure::Parse,
        },
{
    match numeric_value(s) {
        Some(v) => Ok(v),
        None => {
            let mut m = "not a number: ".to_string();
            m.append(s);
            Err(EdsError::Parse(m))
        },
    }
}

fn value_or_default(entries: &Vec<IniEntry>, key: &str, default: &str) -> (r: String)
    ensures
        r@ == value_or(entries_view(entries@), key@, default@),
{
    match find_value(entries, key) {
        Some(v) => v,
        None => default.to_string(),
    }
}

fn placeholder() -> (r: ObjectEntry)
    ensures
        r@ == placeholder_model(),
{
    let r = ObjectEntry {
        name: "Unnamed".to_string(),
        data_type: "UNKNOWN".to_string(),
        access_rights: "rw".to_string(),
        sub_objects: HashMap::new(),
    };
    assert(sub_objects_view(r.sub_objects@) =~= Map::empty());
    r
}

fn sub_object_of(entries: &Vec<IniEntry>) -> (r: SubObjectEntry)
    ensures
        r@ == sub_object_model(entries_view(entries@)),
{
    SubObjectEntry {
        value: find_value(entries, "Value"),
        default_value: find_value(entries, "DefaultValue"),
        data_type: value_or_default(entries, "DataType", "0x0005"),
        access: value_or_default(entries, "AccessType", "rw"),
    }
}

/// Adds one section to the objects (see [`apply_section`]).
fn apply_section_to(objects: &mut HashMap<u16, ObjectEntry>, sec: &IniSection)
    ensures
        objects_view(final(objects)@) == apply_section(objects_view(old(objects)@), sec@),
{
    let name = match &sec.name {
        Some(n) => n,
        None => return ,
    };
    let ghost m0 = objects_view(old(objects)@);
    match classify_section(name.as_str()) {
        SectionKind::Skip => {},
        SectionKind::Object(idx) => {
            let subs = match objects.remove(&idx) {
                Some(e) => e.sub_objects,
                None => HashMap::new(),
            };
            let e = ObjectEntry {
                name: value_or_default(&sec.entries, "ParameterName", "Unnamed"),
                data_type: value_or_default(&sec.entries, "DataType", "0x0005"),
                access_rights: value_or_default(&sec.entries, "AccessType", "ro"),
                sub_objects: subs,
            };
            assert(m0.contains_key(idx) ==> e@.sub_objects == m0[idx].sub_objects);
            assert(!m0.contains_key(idx) ==> e@.sub_objects =~= Map::<u8, SubObjectModel>::empty());
            objects.insert(idx, e);
            assert(objects_view(objects@) =~= apply_section(m0, sec@));
        },
        SectionKind::SubObject(idx, sub) => {
            let mut e = match objects.remove(&idx) {
                Some(e) => e,
                None => placeholder(),
            };
            let ghost base = e@;
            let so = sub_object_of(&sec.entries);
            e.sub_objects.insert(sub, so);
            assert(sub_objects_view(e.sub_objects@) =~= base.sub_objects.insert(sub, so@));
            objects.insert(idx, e);
            assert(objects_view(objects@) =~= apply_section(m0, sec@));
        },
    }
}

/// Builds the dictionary from the sections of an EDS file.
pub fn build_object_dict(secs: &Vec<IniSection>) -> (r: Result<ObjectDict, EdsError>)
    ensures
        outcome_view(r) == eds_model(sections_view(secs@)),
{
    let ghost sv = sections_view(secs@);
    let dev = match find_section(secs, "1000") {
        Some(i) => find_value(&secs[i].entries, "DefaultValue"),
        None => None,
    };
    let device_type = match dev {
        None => return Err(EdsError::MissingDeviceType),
        Some(f) => parse_hex_or_dec(f.as_str())?,
    };
    let identity = match find_section(secs, "1018") {
        Some(i) => i,
        None => return Err(EdsError::MissingIdentity),
    };
    let field = match find_value(&secs[identity].entries, "Sub1") {
        Some(v) => Some(v),
        None => find_value(&secs[identity].entries, "1"),
    };
    let vendor_id = match field {
        Some(v) => match numeric_value(v.as_str()) {
            Some(n) => n,
            None => 0,
        },
        None => 0,
    };
    let mut objects: HashMap<u16, ObjectEntry> = HashMap::new();
    assert(objects_view(objects@) =~= Map::empty());
    let mut i: usize = 0;
    while i < secs.len()
        invariant
            i <= secs@.len(),
            sv == sections_view(secs@),
            objects_view(objects@) == objects_of(sv.subrange(0, i as int)),
        decreases secs@.len() - i,
    {
        apply_section_to(&mut objects, &secs[i]);
        assert(sv.subrange(0, i + 1).drop_last() =~= sv.subrange(0, i as int));
        i = i + 1;
    }
    assert(sv.subrange(0, i as int) =~= sv);
    Ok(ObjectDict { device_type, vendor_id, objects })
}

/// Reads an EDS text into a dictionary.
pub fn parse_eds(text: &str) -> (r: Result<ObjectDict, EdsError>)
    ensures
        outcome_view(r) == eds_text_model(text@),
{
    match load_ini_sections(text) {
        Ok(secs) => build_object_dict(&secs),
        Err(m) => Err(EdsError::Parse(m)),
    }
}

/// Without a section `1000` there is no dictionary: the failure is
/// `MissingDeviceType`, whatever else the sections hold.
pub proof fn lemma_missing_device_type(secs: Seq<SectionValue>)
    requires
        section_entries(secs, "1000"@) is None,
    ensures
        eds_model(secs) == Err::<DictModel, EdsFailure>(EdsFailure::MissingDeviceType),
{
}

/// Where the device type reads as a number but there is no section `1018`,
/// the failure is `MissingIdentity`.
pub proof fn lemma_missing_identity(secs: Seq<SectionValue>)
    requires
        device_field(secs) is Some,
        numeric_literal(device_field(secs)->0) is Some,
        section_entries(secs, "1018"@) is None,
    ensures
        eds_model(secs) == Err::<DictModel, EdsFailure>(EdsFailure::MissingIdentity),
{
}

/// A section `1018` whose vendor field is there but is not a number still
/// gives a dictionary, with vendor id 0.
pub proof fn lemma_malformed_vendor_is_zero(secs: Seq<SectionValue>)
    requires
        device_field(secs) is Some,
        numeric_literal(device_field(secs)->0) is Some,
        section_entries(secs, "1018"@) is Some,
        ({
            let identity = section_entries(secs, "1018"@)->0;
            let field = match entry_value(identity, "Sub1"@) {
                Some(v) => Some(v),
                None => entry_value(identity, "1"@),
            };
            field is Some && numeric_literal(field->0) is None
        }),
    ensures
        eds_model(secs) is Ok,
        eds_model(secs)->Ok_0.vendor_id == 0,
{
}

/// An index that has both an object section and a sub-object section ends
/// up as one object that holds the fields of the first and the sub-object
/// of the second, in whichever order the two sections come.
pub proof fn lemma_object_and_sub_object_merge(
    prior: Seq<SectionValue>,
    top: SectionValue,
    sub: SectionValue,
    idx: u16,
    si: u8,
)
    requires
        top.0 is Some,
        section_kind(top.0->0) == SectionKind::Object(idx),
        sub.0 is Some,
        section_kind(sub.0->0) == SectionKind::SubObject(idx, si),
    ensures
        ({
            let a = objects_of(prior.push(top).push(sub));
            let b = objects_of(prior.push(sub).push(top));
            &&& a.contains_key(idx)
            &&& b.contains_key(idx)
            &&& a[idx].name == value_or(top.1, "ParameterName"@, "Unnamed"@)
            &&& b[idx].name == value_or(top.1, "ParameterName"@, "Unnamed"@)
            &&& a[idx].data_type == value_or(top.1, "DataType"@, "0x0005"@)
            &&& b[idx].data_type == value_or(top.1, "DataType"@, "0x0005"@)
            &&& a[idx].access_rights == value_or(top.1, "AccessType"@, "ro"@)
            &&& b[idx].access_rights == value_or(top.1, "AccessType"@, "ro"@)
            &&& a[idx].sub_objects.contains_key(si)
            &&& b[idx].sub_objects.contains_key(si)
            &&& a[idx].sub_objects[si] == sub_object_model(sub.1)
            &&& b[idx].sub_objects[si] == sub_object_model(sub.1)
        }),
{
    assert(prior.push(top).push(sub).drop_last() =~= prior.push(top));
    assert(prior.push(top).drop_last() =~= prior);
    assert(prior.push(sub).push(top).drop_last() =~= prior.push(sub));
    assert(prior.push(sub).drop_last() =~= prior);
    let m = objects_of(prior);
    let m1 = apply_section(m, top);
    assert(objects_of(prior.push(top)) == m1);
    assert(objects_of(prior.push(top).push(sub)) == apply_section(m1, sub));
    assert(m1.contains_key(idx));
    let m2 = apply_section(m, sub);
    assert(objects_of(prior.push(sub)) == m2);
    assert(objects_of(prior.push(sub).push(top)) == apply_section(m2, top));
    assert(m2.contains_key(idx));
    assert(m2[idx].sub_objects.contains_key(si));
}

} // verus!
