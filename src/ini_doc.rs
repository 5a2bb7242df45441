//! An INI document as a list of sections, read with the rust-ini crate.
use vstd::prelude::*;

verus! {

/// One `key = value` line of a section.
pub struct IniEntry {
    pub key: String,
    pub value: String,
}

/// One section: its name (`None` for the lines before any header) and its
/// entries in file order.
pub struct IniSection {
    pub name: Option<String>,
    pub entries: Vec<IniEntry>,
}

impl View for IniEntry {
    type V = (Seq<char>, Seq<char>);

    open spec fn view(&self) -> (Seq<char>, Seq<char>) {
        (self.key@, self.value@)
    }
}

impl View for IniSection {
    type V = (Option<Seq<char>>, Seq<(Seq<char>, Seq<char>)>);

    open spec fn view(&self) -> (Option<Seq<char>>, Seq<(Seq<char>, Seq<char>)>) {
        (
            match self.name {
                Some(n) => Some(n@),
                None => None,
            },
            entries_view(self.entries@),
        )
    }
}

/// The entries of a section, as values.
pub open spec fn entries_view(v: Seq<IniEntry>) -> Seq<(Seq<char>, Seq<char>)> {
    v.map_values(|e: IniEntry| e@)
}

/// The sections of a list, as values.
pub open spec fn sections_view(v: Seq<IniSection>) -> Seq<
    (Option<Seq<char>>, Seq<(Seq<char>, Seq<char>)>),
> {
    v.map_values(|s: IniSection| s@)
}

/// What rust-ini reads from a text: its sections in order, or `None` where
/// the text is not a well-formed INI document.
pub uninterp spec fn ini_document(text: Seq<char>) -> Option<
    Seq<(Option<Seq<char>>, Seq<(Seq<char>, Seq<char>)>)>,
>;

/// Relies on rust-ini's `Ini::load_from_str`, walked with `Ini::iter` and
/// `Properties::iter`: sections in the order of the text (the general
/// section first), entries in the order of the text, or the `ParseError`
/// as text. The result depends on the text alone.
#[verifier::external_body]
pub(crate) fn load_ini_sections(text: &str) -> (r: Result<Vec<IniSection>, String>)
    ensures
        match r {
            Ok(v) => ini_document(text@) == Some(sections_view(v@)),
            Err(_) => ini_document(text@) is None,
        },
{
    match ini::Ini::load_from_str(text) {
        Ok(doc) => Ok(doc.iter().map(|(name, props)| IniSection {
            name: name.map(|n| n.to_string()),
            entries: props.iter().map(|(k, v)| IniEntry { key: k.to_string(), value: v.to_string() }).collect(),
        }).collect()),
        Err(e) => Err(e.to_string()),
    }
}

/// The entries of the first section called `name`, as `Ini::section` finds it.
pub open spec fn section_entries(
    secs: Seq<(Option<Seq<char>>, Seq<(Seq<char>, Seq<char>)>)>,
    name: Seq<char>,
) -> Option<Seq<(Seq<char>, Seq<char>)>>
    decreases secs.len(),
{
    if secs.len() == 0 {
        None
    } else if secs[0].0 == Some(name) {
        Some(secs[0].1)
    } else {
        section_entries(secs.drop_first(), name)
    }
}

/// The value of the first entry called `key`, as `Properties::get` finds it.
pub open spec fn entry_value(entries: Seq<(Seq<char>, Seq<char>)>, key: Seq<char>) -> Option<
    Seq<char>,
>
    decreases entries.len(),
{
    if entries.len() == 0 {
        None
    } else if entries[0].0 == key {
        Some(entries[0].1)
    } else {
        entry_value(entries.drop_first(), key)
    }
}

/// Tells whether two strings hold the same characters.
pub fn str_eq(a: &str, b: &str) -> (r: bool)
    ensures
        r == (a@ == b@),
{
    let n = a.unicode_len();
    let m = b.unicode_len();
    if n != m {
        return false;
    }
    let mut i: usize = 0;
    while i < n
        invariant
            i <= n,
            n == a@.len(),
            m == b@.len(),
            n == m,
            forall|k: int| 0 <= k < i ==> a@[k] == b@[k],
        decreases n - i,
    {
        if a.get_char(i) != b.get_char(i) {
            return false;
        }
        i = i + 1;
    }
    assert(a@ =~= b@);
    true
}

proof fn lemma_section_entries_skip(
    secs: Seq<(Option<Seq<char>>, Seq<(Seq<char>, Seq<char>)>)>,
    name: Seq<char>,
    i: int,
)
    requires
        0 <= i < secs.len(),
        secs[i].0 != Some(name),
    ensures
        section_entries(secs.subrange(i, secs.len() as int), name) == section_entries(
            secs.subrange(i + 1, secs.len() as int),
            name,
        ),
{
    assert(secs.subrange(i, secs.len() as int).drop_first() =~= secs.subrange(
        i + 1,
        secs.len() as int,
    ));
}

/// The position of the first section called `name`.
pub fn find_section(secs: &Vec<IniSection>, name: &str) -> (r: Option<usize>)
    ensures
        match r {
            Some(i) => i < secs@.len() && section_entries(sections_view(secs@), name@) == Some(
                sections_view(secs@)[i as int].1,
            ),
            None => section_entries(sections_view(secs@), name@) is None,
        },
{
    let ghost sv = sections_view(secs@);
    let mut i: usize = 0;
    assert(sv.subrange(0, sv.len() as int) =~= sv);
    while i < secs.len()
        invariant
            i <= secs@.len(),
            sv == sections_view(secs@),
            section_entries(sv, name@) == section_entries(
                sv.subrange(i as int, sv.len() as int),
                name@,
            ),
        decreases secs@.len() - i,
    {
        let found = match &secs[i].name {
            Some(n) => str_eq(n.as_str(), name),
            None => false,
        };
        if found {
            return Some(i);
        }
        proof {
            lemma_section_entries_skip(sv, name@, i as int);
        }
        i = i + 1;
    }
    None
}

proof fn lemma_entry_value_skip(entries: Seq<(Seq<char>, Seq<char>)>, key: Seq<char>, i: int)
    requires
        0 <= i < entries.len(),
        entries[i].0 != key,
    ensures
        entry_value(entries.subrange(i, entries.len() as int), key) == entry_value(
            entries.subrange(i + 1, entries.len() as int),
            key,
        ),
{
    assert(entries.subrange(i, entries.len() as int).drop_first() =~= entries.subrange(
        i + 1,
        entries.len() as int,
    ));
}

/// The value of the first entry called `key`, copied.
pub fn find_value(entries: &Vec<IniEntry>, key: &str) -> (r: Option<String>)
    ensures
        match r {
            Some(v) => entry_value(entries_view(entries@), key@) == Some(v@),
            None => entry_value(entries_view(entries@), key@) is None,
        },
{
    let ghost ev = entries_view(entries@);
    let mut i: usize = 0;
    assert(ev.subrange(0, ev.len() as int) =~= ev);
    while i < entries.len()
        invariant
            i <= entries@.len(),
            ev == entries_view(entries@),
            entry_value(ev, key@) == entry_value(ev.subrange(i as int, ev.len() as int), key@),
        decreases entries@.len() - i,
    {
        if str_eq(entries[i].key.as_str(), key) {
            return Some(entries[i].value.clone());
        }
        proof {
            lemma_entry_value_skip(ev, key@, i as int);
        }
        i = i + 1;
    }
    None
}

} // verus!
