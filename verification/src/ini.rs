//! INI sections of the AWS config and credentials files, as the
//! `configparser` crate reads them.
use vstd::prelude::*;
use crate::types::opt_view;

verus! {

/// One `key = value` line of a section (`value` is `None` for a key
/// without a delimiter).
pub struct IniEntry {
    pub key: String,
    pub value: Option<String>,
}

/// One section of an INI text with its entries.
pub struct IniSection {
    pub name: String,
    pub entries: Vec<IniEntry>,
}

/// View of an entry.
pub open spec fn entry_view(e: IniEntry) -> (Seq<char>, Option<Seq<char>>) {
    (e.key@, opt_view(e.value))
}

/// View of a section.
pub struct IniSectionView {
    pub name: Seq<char>,
    pub entries: Seq<(Seq<char>, Option<Seq<char>>)>,
}

impl View for IniSection {
    type V = IniSectionView;

    open spec fn view(&self) -> IniSectionView {
        IniSectionView { name: self.name@, entries: self.entries@.map_values(|e: IniEntry| entry_view(e)) }
    }
}

/// Views of a sequence of sections.
pub open spec fn section_views(s: Seq<IniSection>) -> Seq<IniSectionView> {
    s.map_values(|x: IniSection| x@)
}

/// What `configparser` reads from a text in case-sensitive mode: a map
/// from section name to a map from key to optional value, or `None`
/// where it reports a syntax error.
pub uninterp spec fn ini_sections(text: Seq<char>) -> Option<Map<Seq<char>, Map<Seq<char>, Option<Seq<char>>>>>;

/// The entries list the keys of `m` once each, with their values.
pub open spec fn entries_agree(
    es: Seq<(Seq<char>, Option<Seq<char>>)>,
    m: Map<Seq<char>, Option<Seq<char>>>,
) -> bool {
    &&& forall|i: int, j: int| 0 <= i < j < es.len() ==> es[i].0 != es[j].0
    &&& forall|i: int| 0 <= i < es.len() ==> #[trigger] m.contains_key(es[i].0) && m[es[i].0] == es[i].1
    &&& forall|k: Seq<char>| #[trigger] m.contains_key(k) ==> exists|i: int| 0 <= i < es.len() && es[i].0 == k
}

/// The sections list the sections of `m` once each, with their entries.
pub open spec fn sections_agree(
    secs: Seq<IniSectionView>,
    m: Map<Seq<char>, Map<Seq<char>, Option<Seq<char>>>>,
) -> bool {
    &&& forall|i: int, j: int| 0 <= i < j < secs.len() ==> secs[i].name != secs[j].name
    &&& forall|i: int|
        0 <= i < secs.len() ==> #[trigger] m.contains_key(secs[i].name) && entries_agree(
            secs[i].entries,
            m[secs[i].name],
        )
    &&& forall|k: Seq<char>| #[trigger] m.contains_key(k) ==> exists|i: int| 0 <= i < secs.len() && secs[i].name == k
}

/// Parses an INI text with `configparser::ini::Ini::new_cs` followed by
/// `Ini::read`. The sections and entries come out in the order of the
/// crate's hash maps, which is left open: the contract states only that
/// they list the named result's map exactly once each. The error text of
/// a failed read is dropped.
#[verifier::external_body]
pub(crate) fn parse_ini(text: String) -> (r: Option<Vec<IniSection>>)
    ensures
        r is Some <==> ini_sections(text@) is Some,
        r matches Some(v) ==> sections_agree(section_views(v@), ini_sections(text@)->0),
{
    match configparser::ini::Ini::new_cs().read(text) {
        Ok(map) => Some(
            map.into_iter().map(|(name, props)| IniSection {
                name,
                entries: props.into_iter().map(|(key, value)| IniEntry { key, value }).collect(),
            }).collect(),
        ),
        Err(_) => None,
    }
}

/// The value of `key` in a section: `None` when the key is absent or has
/// no value.
pub open spec fn section_value(s: IniSectionView, key: Seq<char>) -> Option<Seq<char>> {
    if exists|i: int| 0 <= i < s.entries.len() && s.entries[i].0 == key {
        s.entries[choose|i: int| 0 <= i < s.entries.len() && s.entries[i].0 == key].1
    } else {
        None
    }
}

impl IniSection {
    /// The value of `key` in this section, if the key is present with a
    /// value.
    pub fn value(&self, key: &str) -> (r: Option<String>)
        ensures
            (forall|i: int, j: int|
                0 <= i < j < self@.entries.len() ==> self@.entries[i].0 != self@.entries[j].0)
                ==> opt_view(r) == section_value(self@, key@),
    {
        let n = self.entries.len();
        let ghost es = self@.entries;
        for i in 0..n
            invariant
                n == self.entries@.len(),
                es == self@.entries,
                forall|j: int| 0 <= j < i ==> es[j].0 != key@,
        {
            if crate::text::str_eq(self.entries[i].key.as_str(), key) {
                proof {
                    assert(es[i as int].0 == key@);
                    if forall|p: int, q: int| 0 <= p < q < es.len() ==> es[p].0 != es[q].0 {
                        let c = choose|c: int| 0 <= c < es.len() && es[c].0 == key@;
                        assert(c == i);
                    }
                }
                return crate::types::copy_opt(&self.entries[i].value);
            }
        }
        None
    }
}

} // verus!
