//! One entry of the catalog, its lookups and its BibTeX text.

use crate::author::{authors_of, authors_text, extract_authors_from_string, format_authors};
use crate::fields::{distinct_keys, text_of, value_of, with_entry, FieldMap};
use crate::order::{compare_text, optional_order};
use crate::text::to_chars;
use std::cmp::Ordering;
use vstd::prelude::*;
use vstd::std_specs::cmp::{PartialEqSpecImpl, PartialOrdSpecImpl};
use vstd::string::StringExecFns;

pub use crate::vocabulary::{FieldType, ReferenceType};

verus! {

/// One entry: its fields, among them the key and the type of the entry.
#[derive(Debug)]
pub struct Reference {
    pub fields: FieldMap,
}

impl View for Reference {
    type V = Seq<(FieldType, Seq<char>)>;

    /// The fields in their order.
    open spec fn view(&self) -> Seq<(FieldType, Seq<char>)> {
        self.fields@
    }
}

/// The views of a sequence of entries.
pub open spec fn reference_views(references: Seq<Reference>) -> Seq<Seq<(FieldType, Seq<char>)>> {
    references.map_values(|r: Reference| r@)
}

/// The view of a text that may be missing.
pub open spec fn owned_text(value: Option<String>) -> Option<Seq<char>> {
    match value {
        Some(s) => Some(s@),
        None => None,
    }
}

/// The fields of a new entry: `fields`, with the key and the name of the type put under
/// `FieldType::Key` and `FieldType::Type`.
pub open spec fn entry_of(
    key: Seq<char>,
    reference_type: ReferenceType,
    fields: Seq<(FieldType, Seq<char>)>,
) -> Seq<(FieldType, Seq<char>)> {
    with_entry(with_entry(fields, FieldType::Key, key), FieldType::Type, reference_type.name())
}

/// How the authors of an entry are shown; `None` for an entry without an author field.
pub open spec fn formatted_author_of(entries: Seq<(FieldType, Seq<char>)>) -> Option<Seq<char>> {
    match value_of(entries, FieldType::Author) {
        Some(authors) => Some(authors_text(authors_of(authors))),
        None => None,
    }
}

/// The key that stands in the first line of the BibTeX text: the key of the entry; for an
/// entry without one, its author field; and without that too, nothing.
pub open spec fn output_key(entries: Seq<(FieldType, Seq<char>)>) -> Seq<char> {
    match value_of(entries, FieldType::Key) {
        Some(key) => key,
        None => match value_of(entries, FieldType::Author) {
            Some(author) => author,
            None => Seq::empty(),
        },
    }
}

/// The line of the BibTeX text that holds one field.
pub open spec fn field_line(entry: (FieldType, Seq<char>)) -> Seq<char> {
    "    "@ + entry.0.name() + " = {"@ + entry.1 + "},\n"@
}

/// The lines of the fields, in the order of the entries.
pub open spec fn field_lines(entries: Seq<(FieldType, Seq<char>)>) -> Seq<char>
    decreases entries.len(),
{
    if entries.len() == 0 {
        Seq::empty()
    } else {
        field_lines(entries.drop_last()) + field_line(entries.last())
    }
}

/// The BibTeX text of an entry. Its first line names the type `article`, whatever the type of
/// the entry is, and the key; then comes one line for each field, the key and the type among
/// them; then the closing brace.
pub open spec fn bibtex_of(entries: Seq<(FieldType, Seq<char>)>) -> Seq<char> {
    "@article{"@ + output_key(entries) + ",\n"@ + field_lines(entries) + "}\n"@
}

/// Whether two entries hold the same value, or none, under every field name.
pub open spec fn same_fields(
    a: Seq<(FieldType, Seq<char>)>,
    b: Seq<(FieldType, Seq<char>)>,
) -> bool {
    forall|key: FieldType| value_of(a, key) == value_of(b, key)
}

impl Reference {
    /// Whether each field name stands once.
    pub open spec fn well_formed(&self) -> bool {
        distinct_keys(self@)
    }

    /// The entry with this key, type and fields.
    pub fn new(key: String, reference_type: ReferenceType, fields: FieldMap) -> (r: Reference)
        ensures
            r@ == entry_of(key@, reference_type, fields@),
            fields.well_formed() ==> r.well_formed(),
    {
        let mut fields = fields;
        fields.insert(FieldType::Key, key);
        fields.insert(FieldType::Type, reference_type.to_string());
        Reference { fields }
    }

    /// The values under `visible_headers`, one for each header and in their order.
    pub fn as_array(&self, visible_headers: &Vec<FieldType>) -> (cells: Vec<Option<String>>)
        ensures
            cells@.len() == visible_headers@.len(),
            forall|i: int|
                0 <= i < cells@.len() ==> owned_text(#[trigger] cells@[i]) == value_of(
                    self@,
                    visible_headers@[i],
                ),
    {
        let mut cells: Vec<Option<String>> = Vec::new();
        let mut i: usize = 0;
        while i < visible_headers.len()
            invariant
                i <= visible_headers.len(),
                cells@.len() == i,
                forall|j: int|
                    0 <= j < i ==> owned_text(#[trigger] cells@[j]) == value_of(
                        self@,
                        visible_headers@[j],
                    ),
            decreases visible_headers.len() - i,
        {
            let cell = match self.fields.get(&visible_headers[i]) {
                Some(value) => Some(value.clone()),
                None => None,
            };
            cells.push(cell);
            i += 1;
        }
        cells
    }

    /// The key of the entry.
    pub fn key(&self) -> (value: Option<&String>)
        ensures
            text_of(value) == value_of(self@, FieldType::Key),
    {
        self.fields.get(&FieldType::Key)
    }

    /// The title of the entry.
    pub fn title(&self) -> (value: Option<&String>)
        ensures
            text_of(value) == value_of(self@, FieldType::Title),
    {
        self.fields.get(&FieldType::Title)
    }

    /// The year of the entry.
    pub fn year(&self) -> (value: Option<&String>)
        ensures
            text_of(value) == value_of(self@, FieldType::Year),
    {
        self.fields.get(&FieldType::Year)
    }

    /// The authors of the entry as they are shown: each reduced to the last name and the
    /// initial of the first name where the name could be told apart, with `"; "` between them.
    pub fn formatted_author(&self) -> (value: Option<String>)
        ensures
            owned_text(value) == formatted_author_of(self@),
    {
        match self.fields.get(&FieldType::Author) {
            Some(authors) => {
                let names = extract_authors_from_string(authors);
                Some(format_authors(&names))
            },
            None => None,
        }
    }

    /// The name of the type of the entry.
    pub fn reference_type(&self) -> (value: Option<&String>)
        ensures
            text_of(value) == value_of(self@, FieldType::Type),
    {
        self.fields.get(&FieldType::Type)
    }

    /// The BibTeX text of the entry.
    pub fn to_bibtex(&self) -> (bibtex: String)
        ensures
            bibtex@ == bibtex_of(self@),
    {
        let mut bibtex = String::from_str("@article{");
        match self.fields.get(&FieldType::Key) {
            Some(key) => bibtex.append(key.as_str()),
            None => match self.fields.get(&FieldType::Author) {
                Some(author) => bibtex.append(author.as_str()),
                None => {},
            },
        }
        bibtex.append(",\n");
        let ghost head = bibtex@;
        assert(head =~= "@article{"@ + output_key(self@) + ",\n"@);
        let mut i: usize = 0;
        assert(self@.take(0) =~= Seq::<(FieldType, Seq<char>)>::empty());
        while i < self.fields.len()
            invariant
                i <= self@.len(),
                bibtex@ == head + field_lines(self@.take(i as int)),
            decreases self@.len() - i,
        {
            let ghost before = bibtex@;
            bibtex.append("    ");
            bibtex.append(self.fields.key_at(i).to_string().as_str());
            bibtex.append(" = {");
            bibtex.append(self.fields.value_at(i).as_str());
            bibtex.append("},\n");
            proof {
                let upto = self@.take(i + 1);
                assert(upto.drop_last() =~= self@.take(i as int));
                assert(upto.last() == self@[i as int]);
                assert(bibtex@ =~= before + field_line(self@[i as int]));
            }
            i += 1;
        }
        assert(self@.take(i as int) =~= self@);
        bibtex.append("}\n");
        bibtex
    }

    /// How this entry stands to `other` by their author fields: an entry without one comes
    /// first, and two author fields stand as their texts do in the order of the dictionary.
    pub fn cmp(&self, other: &Reference) -> (o: Ordering)
        ensures
            o == optional_order(
                value_of(self@, FieldType::Author),
                value_of(other@, FieldType::Author),
            ),
    {
        compare_optional(self.fields.get(&FieldType::Author), other.fields.get(&FieldType::Author))
    }
}

/// How `a` stands to `b`, where a missing text comes before every text.
pub fn compare_optional(a: Option<&String>, b: Option<&String>) -> (o: Ordering)
    ensures
        o == optional_order(text_of(a), text_of(b)),
{
    match (a, b) {
        (None, None) => Ordering::Equal,
        (None, Some(_)) => Ordering::Less,
        (Some(_), None) => Ordering::Greater,
        (Some(x), Some(y)) => {
            let x = to_chars(x.as_str());
            let y = to_chars(y.as_str());
            compare_text(x.as_slice(), y.as_slice())
        },
    }
}

impl Clone for Reference {
    fn clone(&self) -> (r: Reference)
        ensures
            r@ == self@,
    {
        Reference { fields: self.fields.clone() }
    }
}

impl PartialEq for Reference {
    /// Whether both entries hold the same value, or none, under every field name. The order
    /// of their fields does not count.
    fn eq(&self, other: &Reference) -> (r: bool) {
        let mut i: usize = 0;
        while i < self.fields.len()
            invariant
                i <= self@.len(),
                forall|j: int|
                    0 <= j < i ==> value_of(self@, (#[trigger] self@[j]).0) == value_of(
                        other@,
                        self@[j].0,
                    ),
            decreases self@.len() - i,
        {
            let key = self.fields.key_at(i);
            if !same_value(self.fields.get(&key), other.fields.get(&key)) {
                return false;
            }
            i += 1;
        }
        let mut k: usize = 0;
        while k < other.fields.len()
            invariant
                k <= other@.len(),
                forall|j: int|
                    0 <= j < self@.len() ==> value_of(self@, (#[trigger] self@[j]).0) == value_of(
                        other@,
                        self@[j].0,
                    ),
                forall|j: int|
                    0 <= j < k ==> value_of(self@, (#[trigger] other@[j]).0) == value_of(
                        other@,
                        other@[j].0,
                    ),
            decreases other@.len() - k,
        {
            let key = other.fields.key_at(k);
            if !same_value(self.fields.get(&key), other.fields.get(&key)) {
                return false;
            }
            k += 1;
        }
        proof {
            assert forall|key: FieldType| value_of(self@, key) == value_of(other@, key) by {
                crate::fields::lemma_index_of(self@, key);
                crate::fields::lemma_index_of(other@, key);
                let p = crate::fields::index_of(self@, key);
                let q = crate::fields::index_of(other@, key);
                if p < self@.len() {
                    assert(self@[p].0 == key);
                } else if q < other@.len() {
                    assert(other@[q].0 == key);
                }
            }
        }
        true
    }
}

impl PartialEqSpecImpl for Reference {
    open spec fn obeys_eq_spec() -> bool {
        true
    }

    open spec fn eq_spec(&self, other: &Reference) -> bool {
        same_fields(self@, other@)
    }
}

impl Eq for Reference {

}

impl PartialOrd for Reference {
    /// How this entry stands to `other` by their author fields.
    fn partial_cmp(&self, other: &Reference) -> (o: Option<Ordering>) {
        Some(self.cmp(other))
    }
}

impl PartialOrdSpecImpl for Reference {
    open spec fn obeys_partial_cmp_spec() -> bool {
        true
    }

    open spec fn partial_cmp_spec(&self, other: &Reference) -> Option<Ordering> {
        Some(
            optional_order(
                value_of(self@, FieldType::Author),
                value_of(other@, FieldType::Author),
            ),
        )
    }
}

/// Whether both values are missing or both are the same text.
pub fn same_value(a: Option<&String>, b: Option<&String>) -> (r: bool)
    ensures
        r == (text_of(a) == text_of(b)),
{
    match (a, b) {
        (None, None) => true,
        (Some(x), Some(y)) => *x == *y,
        _ => false,
    }
}

} // verus!
