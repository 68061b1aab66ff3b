//! Reading BibTeX text, line by line.
//!
//! A line that is blank is passed over. Every other line is told by its first character after
//! leading whitespace: `@` opens an entry and gives the type and the key, and the reading
//! fails there where the type is not known; `}` closes the entry. Every other line holds one
//! field, `name = value`. A value does not go on in the next line.

use crate::fields::{distinct_keys, lemma_with_entry, with_entry, FieldMap};
use crate::reference::{entry_of, reference_views, FieldType, Reference, ReferenceType};
use crate::text::{
    find_char, lines, lines_of, position_of, starts_with, strip_prefix, strip_suffix, to_chars,
    to_string, trim, trim_start, trimmed, trimmed_start, views, without_prefix, without_suffix,
};
use vstd::prelude::*;
use vstd::slice::slice_subrange;
use vstd::string::{StrSliceExecFns, StringExecFns};

verus! {

/// What has been read of a text so far.
pub struct ParseState {
    /// The entries that were closed, in their order.
    pub references: Seq<Seq<(FieldType, Seq<char>)>>,
    /// The fields read since the last entry was closed.
    pub fields: Seq<(FieldType, Seq<char>)>,
    /// The key of the line that last opened an entry.
    pub key: Seq<char>,
    /// The type of the line that last opened an entry, or why it has none.
    pub kind: Result<ReferenceType, Seq<char>>,
}

/// The state before the first line: nothing read, and no type to close an entry with.
pub open spec fn initial_state() -> ParseState {
    ParseState {
        references: Seq::empty(),
        fields: Seq::empty(),
        key: Seq::empty(),
        kind: Err("Failed to parse reference type"@),
    }
}

/// The type that `text` names, which may begin with `@`.
pub open spec fn reference_type_of(text: Seq<char>) -> Result<ReferenceType, Seq<char>> {
    ReferenceType::spelled(without_prefix(text, "@"@))
}

/// The type that a line which opens an entry gives: what stands before its first `{` names
/// it.
pub open spec fn opened_kind(line: Seq<char>) -> Result<ReferenceType, Seq<char>> {
    reference_type_of(line.take(position_of(line, '{')))
}

/// The key that a line which opens an entry gives: what stands between its first `{` and the
/// next `,`, or the end of the line. A line without `{` gives the empty key.
pub open spec fn opened_key(line: Seq<char>) -> Seq<char> {
    let brace = position_of(line, '{');
    if 0 <= brace < line.len() {
        let rest = line.skip(brace + 1);
        rest.take(position_of(rest, ','))
    } else {
        Seq::empty()
    }
}

/// The value that stands for the text `raw` after `=`: `raw` is trimmed, loses one `{` at its
/// start, then one `,` at its end, then one `}` at its end, and is trimmed again.
pub open spec fn field_value(raw: Seq<char>) -> Seq<char> {
    trimmed(
        without_suffix(without_suffix(without_prefix(trimmed(raw), "{"@), ","@), "}"@),
    )
}

/// The field that a line holds: the name before its first `=`, trimmed and read without
/// regard to case, and the value after it. `None` for a line without `=`, and for a name that
/// is not known.
pub open spec fn field_of(line: Seq<char>) -> Option<(FieldType, Seq<char>)> {
    let eq = position_of(line, '=');
    if 0 <= eq < line.len() {
        match FieldType::spelled(trimmed(line.take(eq))) {
            Some(name) => Some((name, field_value(line.skip(eq + 1)))),
            None => None,
        }
    } else {
        None
    }
}

/// The state after one more line, or the error that ends the reading: that of an opening
/// line whose type is not known, or that of a closing line before any entry was opened.
pub open spec fn step(state: ParseState, line: Seq<char>) -> Result<ParseState, Seq<char>> {
    let text = trimmed_start(line);
    if trimmed(line).len() == 0 {
        Ok(state)
    } else if text[0] == '@' {
        match opened_kind(text) {
            Ok(kind) => Ok(ParseState { key: opened_key(text), kind: Ok(kind), ..state }),
            Err(error) => Err(error),
        }
    } else if text[0] == '}' {
        match state.kind {
            Ok(kind) => Ok(
                ParseState {
                    references: state.references.push(entry_of(state.key, kind, state.fields)),
                    fields: Seq::empty(),
                    ..state
                },
            ),
            Err(error) => Err(error),
        }
    } else {
        match field_of(line) {
            Some((name, value)) => Ok(
                ParseState { fields: with_entry(state.fields, name, value), ..state },
            ),
            None => Ok(state),
        }
    }
}

/// The state after all of `lines`, or the first error.
pub open spec fn state_after(lines: Seq<Seq<char>>) -> Result<ParseState, Seq<char>>
    decreases lines.len(),
{
    if lines.len() == 0 {
        Ok(initial_state())
    } else {
        match state_after(lines.drop_last()) {
            Ok(state) => step(state, lines.last()),
            Err(error) => Err(error),
        }
    }
}

/// The entries that `text` holds, or the error of the first line at which the reading
/// fails.
pub open spec fn parsed(text: Seq<char>) -> Result<Seq<Seq<(FieldType, Seq<char>)>>, Seq<char>> {
    match state_after(lines_of(text)) {
        Ok(state) => Ok(state.references),
        Err(error) => Err(error),
    }
}

/// The view of a type that may be an error.
pub open spec fn kind_view(kind: Result<ReferenceType, String>) -> Result<
    ReferenceType,
    Seq<char>,
> {
    match kind {
        Ok(kind) => Ok(kind),
        Err(error) => Err(error@),
    }
}

/// `s` without `prefix` at its start, where it has it there; else `s`.
pub fn strip_optional_prefix<'a>(s: &'a str, prefix: &str) -> (r: &'a str)
    ensures
        r@ == without_prefix(s@, prefix@),
{
    let chars = to_chars(s);
    let affix = to_chars(prefix);
    if starts_with(chars.as_slice(), affix.as_slice()) {
        assert(s@.skip(prefix@.len() as int) == s@.subrange(prefix@.len() as int, s@.len() as int));
        s.substring_char(affix.len(), chars.len())
    } else {
        s
    }
}

/// `s` without `suffix` at its end, where it has it there; else `s`.
pub fn strip_optional_suffix<'a>(s: &'a str, suffix: &str) -> (r: &'a str)
    ensures
        r@ == without_suffix(s@, suffix@),
{
    let chars = to_chars(s);
    let affix = to_chars(suffix);
    if crate::text::ends_with(chars.as_slice(), affix.as_slice()) {
        assert(s@.take(s@.len() - suffix@.len()) == s@.subrange(0, s@.len() - suffix@.len()));
        s.substring_char(0, chars.len() - affix.len())
    } else {
        s
    }
}

/// The type that `s` names, which may begin with `@`.
pub fn parse_reference_type(s: &str) -> (r: Result<ReferenceType, String>)
    ensures
        kind_view(r) == reference_type_of(s@),
{
    ReferenceType::parse(strip_optional_prefix(s, "@"))
}

/// Reads the value that stands after `=`.
pub fn parse_value(raw: &[char]) -> (value: String)
    ensures
        value@ == field_value(raw@),
{
    let open = to_chars("{");
    let comma = to_chars(",");
    let close = to_chars("}");
    let inner = strip_suffix(
        strip_suffix(strip_prefix(trim(raw), open.as_slice()), comma.as_slice()),
        close.as_slice(),
    );
    to_string(trim(inner))
}

/// Reads the field that a line holds.
pub fn parse_field(line: &[char]) -> (field: Option<(FieldType, String)>)
    ensures
        match field_of(line@) {
            Some((name, value)) => field matches Some(found) && found.0 == name && found.1@
                == value,
            None => field is None,
        },
{
    let eq = find_char(line, '=');
    if eq < line.len() {
        let name = to_string(trim(slice_subrange(line, 0, eq)));
        assert(line@.subrange(0, eq as int) == line@.take(eq as int));
        match FieldType::parse(name.as_str()) {
            Some(field_type) => {
                let raw = slice_subrange(line, eq + 1, line.len());
                assert(raw@ == line@.skip(eq + 1));
                Some((field_type, parse_value(raw)))
            },
            None => None,
        }
    } else {
        None
    }
}

/// Reads the type and the key that a line which opens an entry gives.
pub fn parse_opening(line: &[char]) -> (r: (Result<ReferenceType, String>, String))
    ensures
        kind_view(r.0) == opened_kind(line@),
        r.1@ == opened_key(line@),
{
    let brace = find_char(line, '{');
    proof {
        crate::text::lemma_position_of(line@, '{');
    }
    let type_text = to_string(slice_subrange(line, 0, brace));
    assert(line@.subrange(0, brace as int) == line@.take(brace as int));
    let kind = parse_reference_type(type_text.as_str());
    if brace < line.len() {
        let rest = slice_subrange(line, brace + 1, line.len());
        assert(rest@ == line@.skip(brace + 1));
        let comma = find_char(rest, ',');
        proof {
            crate::text::lemma_position_of(rest@, ',');
        }
        let key = to_string(slice_subrange(rest, 0, comma));
        assert(rest@.subrange(0, comma as int) == rest@.take(comma as int));
        (kind, key)
    } else {
        (kind, String::new())
    }
}

/// A reader of BibTeX text that is given the text line by line.
pub struct Parser {
    pub references: Vec<Reference>,
    pub fields: FieldMap,
    pub key: String,
    pub kind: Result<ReferenceType, String>,
}

impl View for Parser {
    type V = ParseState;

    open spec fn view(&self) -> ParseState {
        ParseState {
            references: reference_views(self.references@),
            fields: self.fields@,
            key: self.key@,
            kind: kind_view(self.kind),
        }
    }
}

impl Parser {
    /// The reader that has read nothing.
    pub fn new() -> (parser: Parser)
        ensures
            parser@ == initial_state(),
    {
        let parser = Parser {
            references: Vec::new(),
            fields: FieldMap::new(),
            key: String::new(),
            kind: Err(String::from_str("Failed to parse reference type")),
        };
        assert(parser@.references =~= Seq::empty());
        parser
    }

    /// Reads one more line. On an error the reader is left as it was.
    pub fn feed(&mut self, line: &[char]) -> (r: Result<(), String>)
        ensures
            match step(old(self)@, line@) {
                Ok(state) => r is Ok && final(self)@ == state,
                Err(error) => r is Err && r->Err_0@ == error && final(self)@ == old(self)@,
            },
    {
        if trim(line).len() == 0 {
            return Ok(());
        }
        proof {
            // a line that is not blank has a first character, before and after trimming
            crate::text::lemma_trimmed_shorter(line@);
        }
        let rest = trim_start(line);
        if rest[0] == '@' {
            let (kind, key) = parse_opening(rest);
            return match kind {
                Ok(kind) => {
                    self.kind = Ok(kind);
                    self.key = key;
                    Ok(())
                },
                Err(error) => Err(error),
            };
        }
        if rest[0] == '}' {
            match &self.kind {
                Ok(kind) => {
                    let reference = Reference::new(self.key.clone(), *kind, self.fields.clone());
                    let ghost before = self.references@;
                    self.references.push(reference);
                    self.fields.clear();
                    assert(reference_views(self.references@) =~= reference_views(before).push(
                        reference@,
                    ));
                    Ok(())
                },
                Err(error) => Err(error.clone()),
            }
        } else {
            match parse_field(line) {
                Some((name, value)) => {
                    self.fields.insert(name, value);
                    Ok(())
                },
                None => Ok(()),
            }
        }
    }
}

/// Reads all entries of `bibtex`. The reading fails at the first line that opens an entry
/// of an unknown type, or that closes an entry where none was opened, and then gives no
/// entry at all.
pub fn parse_bibtex(bibtex: String) -> (r: Result<Vec<Reference>, String>)
    ensures
        match parsed(bibtex@) {
            Ok(references) => r is Ok && reference_views(r->Ok_0@) == references,
            Err(error) => r is Err && r->Err_0@ == error,
        },
        r matches Ok(references) ==> forall|i: int|
            0 <= i < references@.len() ==> (#[trigger] references@[i]).well_formed(),
{
    let chars = to_chars(bibtex.as_str());
    let all = lines(chars.as_slice());
    let mut parser = Parser::new();
    let mut i: usize = 0;
    assert(views(all@).take(0) =~= Seq::<Seq<char>>::empty());
    while i < all.len()
        invariant
            i <= all.len(),
            views(all@) == lines_of(bibtex@),
            state_after(views(all@).take(i as int)) == Ok::<ParseState, Seq<char>>(parser@),
        decreases all.len() - i,
    {
        let ghost upto = views(all@).take(i + 1);
        proof {
            assert(upto.drop_last() =~= views(all@).take(i as int));
            assert(upto.last() == all@[i as int]@);
        }
        match parser.feed(all[i]) {
            Ok(()) => {},
            Err(error) => {
                proof {
                    lemma_error_stays(views(all@), i + 1);
                }
                return Err(error);
            },
        }
        i += 1;
    }
    assert(views(all@).take(i as int) =~= views(all@));
    proof {
        law_parsed_names_distinct(bibtex@);
        let read = reference_views(parser.references@);
        assert(parsed(bibtex@) == Ok::<Seq<Seq<(FieldType, Seq<char>)>>, Seq<char>>(read));
        assert forall|k: int| 0 <= k < parser.references@.len() implies (
        #[trigger] parser.references@[k]).well_formed() by {
            assert(k < parsed(bibtex@)->Ok_0.len());
            assert(distinct_keys(parsed(bibtex@)->Ok_0[k]));
            assert(read[k] == parser.references@[k]@);
        }
    }
    Ok(parser.references)
}

/// Once the reading has failed, more lines do not change the error.
pub proof fn lemma_error_stays(lines: Seq<Seq<char>>, n: int)
    requires
        0 <= n <= lines.len(),
        state_after(lines.take(n)) is Err,
    ensures
        state_after(lines) == state_after(lines.take(n)),
    decreases lines.len() - n,
{
    if n < lines.len() {
        assert(lines.take(n + 1).drop_last() =~= lines.take(n));
        lemma_error_stays(lines, n + 1);
    } else {
        assert(lines.take(n) =~= lines);
    }
}

/// Whether each field name stands once in every entry that was read, and among the fields
/// that wait for the end of their entry.
pub open spec fn names_distinct(state: ParseState) -> bool {
    &&& distinct_keys(state.fields)
    &&& forall|i: int|
        0 <= i < state.references.len() ==> distinct_keys(#[trigger] state.references[i])
}

/// Reading lines keeps the field names of each entry distinct.
pub proof fn lemma_names_stay_distinct(lines: Seq<Seq<char>>)
    ensures
        state_after(lines) matches Ok(state) ==> names_distinct(state),
    decreases lines.len(),
{
    if lines.len() > 0 {
        lemma_names_stay_distinct(lines.drop_last());
        match state_after(lines.drop_last()) {
            Ok(before) => {
                let line = lines.last();
                match step(before, line) {
                    Ok(after) => {
                        if trimmed(line).len() == 0 {
                        } else if line[0] == '@' {
                        } else if trimmed_start(line)[0] == '}' {
                            let kind = before.kind->Ok_0;
                            let keyed = with_entry(before.fields, FieldType::Key, before.key);
                            lemma_with_entry(before.fields, FieldType::Key, before.key);
                            lemma_with_entry(keyed, FieldType::Type, kind.name());
                            assert forall|i: int| 0 <= i < after.references.len() implies {
                                distinct_keys(#[trigger] after.references[i])
                            } by {
                                if i < before.references.len() {
                                    assert(after.references[i] == before.references[i]);
                                }
                            }
                        } else {
                            match field_of(line) {
                                Some((name, value)) => {
                                    lemma_with_entry(before.fields, name, value);
                                },
                                None => {},
                            }
                        }
                    },
                    Err(_) => {},
                }
            },
            Err(_) => {},
        }
    }
}

/// In every entry that is read from a text each field name stands once.
pub proof fn law_parsed_names_distinct(text: Seq<char>)
    ensures
        parsed(text) is Ok ==> forall|i: int|
            0 <= i < parsed(text)->Ok_0.len() ==> distinct_keys(#[trigger] parsed(text)->Ok_0[i]),
{
    lemma_names_stay_distinct(lines_of(text));
}

} // verus!
