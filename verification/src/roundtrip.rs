//! Reading back what was written: the BibTeX text of an entry holds the entry.

use crate::fields::{
    distinct_keys, has_key, index_of, lemma_index_of, lemma_index_of_is, lemma_with_entry,
    value_of, with_entry,
};
use crate::parse::{
    field_of, field_value, initial_state, lemma_error_stays, opened_key, opened_kind, parsed,
    state_after, step, ParseState,
};
use crate::reference::{
    bibtex_of, entry_of, field_line, field_lines, output_key, FieldType, ReferenceType,
};
use crate::text::{
    has_prefix, has_suffix, lemma_position_of, lemma_position_of_is, lemma_trimmed_shorter,
    lines_of, position_of, trimmed, trimmed_end, trimmed_start, whitespace, without_cr,
    without_prefix, without_suffix,
};
use crate::vocabulary::{
    lemma_article_spelled, lemma_field_name_letters, lemma_field_names, lemma_type_name_letters,
};
use vstd::prelude::*;

verus! {

// ---------------------------------------------------------------------------------------------
// Texts
// ---------------------------------------------------------------------------------------------

/// Whether `c` does not occur in `s`.
pub open spec fn free_of(s: Seq<char>, c: char) -> bool {
    forall|i: int| 0 <= i < s.len() ==> s[i] != c
}

/// Whether `s` neither begins nor ends with whitespace.
pub open spec fn tight(s: Seq<char>) -> bool {
    s.len() > 0 ==> !whitespace(s[0]) && !whitespace(s.last())
}

/// Whether every character of `s` is whitespace.
pub open spec fn blank(s: Seq<char>) -> bool {
    forall|i: int| 0 <= i < s.len() ==> whitespace(s[i])
}

/// The first `c` in two texts in a row is the first in the first text, or else the first in
/// the second.
pub proof fn lemma_position_in_concat(a: Seq<char>, b: Seq<char>, c: char)
    ensures
        position_of(a + b, c) == if position_of(a, c) < a.len() {
            position_of(a, c)
        } else {
            a.len() + position_of(b, c)
        },
{
    lemma_position_of(a, c);
    lemma_position_of(b, c);
    let p = position_of(a, c);
    let s = a + b;
    if p < a.len() {
        assert(s[p] == a[p]);
        assert forall|j: int| 0 <= j < p implies s[j] != c by {
            assert(s[j] == a[j]);
        }
        lemma_position_of_is(s, c, p);
    } else {
        let q = position_of(b, c);
        assert forall|j: int| 0 <= j < a.len() + q implies s[j] != c by {
            if j < a.len() {
                assert(s[j] == a[j]);
            } else {
                assert(s[j] == b[j - a.len()]);
            }
        }
        if q < b.len() {
            assert(s[a.len() + q] == b[q]);
        }
        lemma_position_of_is(s, c, a.len() + q);
    }
}

/// A text without `c` has its first `c` at its end.
pub proof fn lemma_position_free(s: Seq<char>, c: char)
    requires
        free_of(s, c),
    ensures
        position_of(s, c) == s.len(),
{
    lemma_position_of_is(s, c, s.len() as int);
}

/// The lines of a first line, a line feed and more text are the first line, without a
/// carriage return at its end, and the lines of the rest.
pub proof fn lemma_lines_of_first(first: Seq<char>, rest: Seq<char>)
    requires
        free_of(first, '\n'),
    ensures
        lines_of(first + seq!['\n'] + rest) == seq![without_cr(first)] + lines_of(rest),
{
    let s = first + seq!['\n'] + rest;
    lemma_position_free(first, '\n');
    lemma_position_in_concat(first, seq!['\n'] + rest, '\n');
    assert(s =~= first + (seq!['\n'] + rest));
    assert(position_of(seq!['\n'] + rest, '\n') == 0);
    let n = position_of(s, '\n');
    assert(n == first.len());
    assert(s.take(n) =~= first);
    assert(s.skip(n + 1) =~= rest);
}

/// Leading whitespace is trimmed away.
pub proof fn lemma_trimmed_start_blank(pad: Seq<char>, s: Seq<char>)
    requires
        blank(pad),
    ensures
        trimmed_start(pad + s) == trimmed_start(s),
    decreases pad.len(),
{
    if pad.len() == 0 {
        assert(pad + s =~= s);
    } else {
        let t = pad + s;
        assert(t[0] == pad[0]);
        assert(t.drop_first() =~= pad.drop_first() + s);
        assert forall|i: int| 0 <= i < pad.drop_first().len() implies whitespace(
            pad.drop_first()[i],
        ) by {
            assert(pad.drop_first()[i] == pad[i + 1]);
        }
        lemma_trimmed_start_blank(pad.drop_first(), s);
    }
}

/// Trailing whitespace is trimmed away.
pub proof fn lemma_trimmed_end_blank(s: Seq<char>, pad: Seq<char>)
    requires
        blank(pad),
    ensures
        trimmed_end(s + pad) == trimmed_end(s),
    decreases pad.len(),
{
    if pad.len() == 0 {
        assert(s + pad =~= s);
    } else {
        let t = s + pad;
        assert(t.last() == pad.last());
        assert(t.drop_last() =~= s + pad.drop_last());
        assert forall|i: int| 0 <= i < pad.drop_last().len() implies whitespace(
            pad.drop_last()[i],
        ) by {
            assert(pad.drop_last()[i] == pad[i]);
        }
        lemma_trimmed_end_blank(s, pad.drop_last());
    }
}

/// Trimming leaves a text alone that neither begins nor ends with whitespace.
pub proof fn lemma_trimmed_tight(s: Seq<char>)
    requires
        tight(s),
    ensures
        trimmed_start(s) == s,
        trimmed_end(s) == s,
        trimmed(s) == s,
{
}

/// A text between whitespace is what is left of it after trimming.
pub proof fn lemma_trimmed_padded(before: Seq<char>, s: Seq<char>, after: Seq<char>)
    requires
        blank(before),
        blank(after),
        tight(s),
        s.len() > 0,
    ensures
        trimmed(before + s + after) == s,
{
    assert(before + s + after =~= before + (s + after));
    lemma_trimmed_start_blank(before, s + after);
    assert((s + after)[0] == s[0]);
    assert(trimmed_start(s + after) == s + after);
    lemma_trimmed_end_blank(s, after);
}

// ---------------------------------------------------------------------------------------------
// The line of a field
// ---------------------------------------------------------------------------------------------

/// Whether a value can stand in one line and be read back: it holds no line feed and neither
/// begins nor ends with whitespace.
pub open spec fn plain_value(value: Seq<char>) -> bool {
    free_of(value, '\n') && tight(value)
}

/// The line of a field without the line feed at its end.
pub open spec fn field_row(entry: (FieldType, Seq<char>)) -> Seq<char> {
    "    "@ + entry.0.name() + " = {"@ + entry.1 + "},"@
}

/// What stands after `=` in the line of a field is read back as the value.
pub proof fn lemma_value_read_back(value: Seq<char>)
    requires
        tight(value),
    ensures
        field_value(" {"@ + value + "},"@) == value,
{
    reveal_strlit(" {");
    reveal_strlit("},");
    reveal_strlit("{");
    reveal_strlit(",");
    reveal_strlit("}");
    let raw = " {"@ + value + "},"@;
    let inner = "{"@ + value + "},"@;
    assert(raw =~= seq![' '] + inner);
    assert(blank(seq![' ']));
    lemma_trimmed_start_blank(seq![' '], inner);
    assert(inner[0] == '{');
    assert(inner.last() == ',');
    assert(trimmed(raw) == inner);
    // the opening brace
    assert(inner.take(1) =~= "{"@);
    assert(has_prefix(inner, "{"@));
    let a = value + "},"@;
    assert(inner.skip(1) =~= a);
    assert(without_prefix(inner, "{"@) == a);
    // the comma
    assert(a.skip(a.len() - 1) =~= ","@);
    assert(has_suffix(a, ","@));
    let b = value + "}"@;
    assert(a.take(a.len() - 1) =~= b);
    assert(without_suffix(a, ","@) == b);
    // the closing brace
    assert(b.skip(b.len() - 1) =~= "}"@);
    assert(has_suffix(b, "}"@));
    assert(b.take(b.len() - 1) =~= value);
    assert(without_suffix(b, "}"@) == value);
    lemma_trimmed_tight(value);
}

/// The value that is read from the line of a field with the value `value`.
pub open spec fn value_read(value: Seq<char>) -> Seq<char> {
    field_value(" {"@ + value + "},"@)
}

/// The field that is read from the line of the field `entry`.
pub open spec fn entry_read(entry: (FieldType, Seq<char>)) -> (FieldType, Seq<char>) {
    (entry.0, value_read(entry.1))
}

/// The line of a field whose value holds no line feed holds none but the one at its end. It
/// is no blank line, it opens no entry and closes none, and it holds the field: its name,
/// and its value where that neither begins nor ends with whitespace.
pub proof fn lemma_field_row(entry: (FieldType, Seq<char>))
    requires
        free_of(entry.1, '\n'),
    ensures
        field_line(entry) == field_row(entry) + seq!['\n'],
        free_of(field_row(entry), '\n'),
        without_cr(field_row(entry)) == field_row(entry),
        trimmed(field_row(entry)).len() > 0,
        trimmed_start(field_row(entry))[0] != '@',
        trimmed_start(field_row(entry))[0] != '}',
        field_of(field_row(entry)) == Some(entry_read(entry)),
        holds(field_row(entry), entry_read(entry)),
        tight(entry.1) ==> entry_read(entry) == entry,
{
    reveal_strlit("    ");
    reveal_strlit(" = {");
    reveal_strlit("},\n");
    reveal_strlit("},");
    reveal_strlit(" {");
    let name = entry.0.name();
    let value = entry.1;
    let row = field_row(entry);
    lemma_field_name_letters(entry.0);
    lemma_field_names(entry.0);
    let pad = "    "@;
    let head = pad + name;
    assert("},\n"@ =~= "},"@ + seq!['\n']);
    assert(field_line(entry) =~= row + seq!['\n']);
    assert forall|i: int| 0 <= i < row.len() implies row[i] != '\n' by {
        if i < 4 {
            assert(row[i] == pad[i]);
        } else if i < 4 + name.len() {
            assert(row[i] == name[i - 4]);
        } else if i < 8 + name.len() {
            assert(row[i] == " = {"@[i - 4 - name.len()]);
        } else if i < 8 + name.len() + value.len() {
            assert(row[i] == value[i - 8 - name.len()]);
        } else {
            assert(row[i] == "},"@[i - 8 - name.len() - value.len()]);
        }
    }
    assert(row.last() == ',');
    assert(row[0] == ' ');
    // the name
    let rest = name + " = {"@ + value + "},"@;
    assert(row =~= pad + rest);
    assert(blank(pad));
    lemma_trimmed_start_blank(pad, rest);
    assert(rest[0] == name[0]);
    assert(trimmed_start(rest) == rest);
    assert(trimmed_end(rest) == rest) by {
        assert(rest.last() == ',');
    }
    let tail = " = {"@ + value + "},"@;
    assert(row =~= head + tail);
    assert forall|i: int| 0 <= i < head.len() implies head[i] != '=' by {
        if i < 4 {
            assert(head[i] == pad[i]);
        } else {
            assert(head[i] == name[i - 4]);
        }
    }
    lemma_position_free(head, '=');
    lemma_position_in_concat(head, tail, '=');
    assert(tail[1] == '=');
    assert(tail[0] == ' ');
    lemma_position_of_is(tail, '=', 1);
    let eq = position_of(row, '=');
    assert(eq == head.len() + 1);
    assert(row.take(eq) =~= pad + name + seq![' ']);
    assert(blank(seq![' ']));
    assert(tight(name));
    lemma_trimmed_padded(pad, name, seq![' ']);
    assert(row.skip(eq + 1) =~= " {"@ + value + "},"@);
    if tight(value) {
        lemma_value_read_back(value);
    }
}

// ---------------------------------------------------------------------------------------------
// The lines that open and close an entry
// ---------------------------------------------------------------------------------------------

/// Whether a key can stand in the opening line and be read back: it holds no line feed and
/// no comma.
pub open spec fn plain_key(key: Seq<char>) -> bool {
    free_of(key, '\n') && free_of(key, ',')
}

/// Whether the name of a type can stand in the opening line: it holds no line feed and no
/// opening brace.
pub open spec fn plain_kind(kind_text: Seq<char>) -> bool {
    free_of(kind_text, '\n') && free_of(kind_text, '{')
}

/// The line that opens an entry, without the line feed at its end.
pub open spec fn opening_row(kind_text: Seq<char>, key: Seq<char>) -> Seq<char> {
    "@"@ + kind_text + "{"@ + key + ","@
}

/// The opening line holds no line feed, it is no blank line, it begins with `@`, and the
/// type and the key are read back from it.
pub proof fn lemma_opening_row(kind_text: Seq<char>, key: Seq<char>)
    requires
        plain_kind(kind_text),
        plain_key(key),
    ensures
        free_of(opening_row(kind_text, key), '\n'),
        without_cr(opening_row(kind_text, key)) == opening_row(kind_text, key),
        trimmed(opening_row(kind_text, key)).len() > 0,
        trimmed_start(opening_row(kind_text, key)) == opening_row(kind_text, key),
        opening_row(kind_text, key)[0] == '@',
        opened_kind(opening_row(kind_text, key)) == ReferenceType::spelled(kind_text),
        opened_key(opening_row(kind_text, key)) == key,
{
    reveal_strlit("@");
    reveal_strlit("{");
    reveal_strlit(",");
    let row = opening_row(kind_text, key);
    let head = "@"@ + kind_text;
    let tail = "{"@ + key + ","@;
    assert(row =~= head + tail);
    assert forall|i: int| 0 <= i < row.len() implies row[i] != '\n' by {
        if i < 1 {
        } else if i < 1 + kind_text.len() {
            assert(row[i] == kind_text[i - 1]);
        } else if i < 2 + kind_text.len() {
        } else if i < 2 + kind_text.len() + key.len() {
            assert(row[i] == key[i - 2 - kind_text.len()]);
        } else {
        }
    }
    assert(row[0] == '@');
    assert(row.last() == ',');
    assert(trimmed_start(row) == row);
    assert(trimmed_end(row) == row);
    // the type
    assert forall|i: int| 0 <= i < head.len() implies head[i] != '{' by {
        if i >= 1 {
            assert(head[i] == kind_text[i - 1]);
        }
    }
    lemma_position_free(head, '{');
    lemma_position_in_concat(head, tail, '{');
    assert(tail[0] == '{');
    let brace = position_of(row, '{');
    assert(brace == head.len());
    assert(row.take(brace) =~= head);
    assert(head.take(1) =~= "@"@);
    assert(has_prefix(head, "@"@));
    assert(head.skip(1) =~= kind_text);
    assert(without_prefix(head, "@"@) == kind_text);
    // the key
    let rest = row.skip(brace + 1);
    assert(rest =~= key + ","@);
    lemma_position_free(key, ',');
    lemma_position_in_concat(key, ","@, ',');
    assert(","@[0] == ',');
    assert(position_of(rest, ',') == key.len());
    assert(rest.take(key.len() as int) =~= key);
}

/// The line that closes an entry holds no line feed, it is no blank line, it opens no
/// entry, and its first character is the closing brace.
pub proof fn lemma_closing_row()
    ensures
        free_of("}"@, '\n'),
        without_cr("}"@) == "}"@,
        trimmed("}"@).len() > 0,
        trimmed_start("}"@)[0] == '}',
{
    reveal_strlit("}");
    let row = "}"@;
    assert(row[0] == '}');
    assert(trimmed_start(row) == row);
    assert(trimmed_end(row) == row);
}

// ---------------------------------------------------------------------------------------------
// The lines of an entry
// ---------------------------------------------------------------------------------------------

/// Whether every value can stand in one line and be read back.
pub open spec fn plain_fields(fields: Seq<(FieldType, Seq<char>)>) -> bool {
    forall|i: int| 0 <= i < fields.len() ==> plain_value(#[trigger] fields[i].1)
}

/// Whether no value holds a line feed.
pub open spec fn feedless(fields: Seq<(FieldType, Seq<char>)>) -> bool {
    forall|i: int| 0 <= i < fields.len() ==> free_of(#[trigger] fields[i].1, '\n')
}

/// The lines of the fields, one for each.
pub open spec fn rows(fields: Seq<(FieldType, Seq<char>)>) -> Seq<Seq<char>> {
    fields.map_values(|entry: (FieldType, Seq<char>)| field_row(entry))
}

/// The fields after those of `fields` were put among `start`, in their order.
pub open spec fn collected(
    start: Seq<(FieldType, Seq<char>)>,
    fields: Seq<(FieldType, Seq<char>)>,
) -> Seq<(FieldType, Seq<char>)>
    decreases fields.len(),
{
    if fields.len() == 0 {
        start
    } else {
        with_entry(collected(start, fields.drop_last()), fields.last().0, fields.last().1)
    }
}

/// The text of an entry: the line that opens it, the lines of its fields, and the line that
/// closes it.
pub open spec fn written(
    kind_text: Seq<char>,
    key: Seq<char>,
    fields: Seq<(FieldType, Seq<char>)>,
) -> Seq<char> {
    opening_row(kind_text, key) + seq!['\n'] + field_lines(fields) + "}\n"@
}

/// The lines of the text of an entry.
pub open spec fn entry_rows(
    kind_text: Seq<char>,
    key: Seq<char>,
    fields: Seq<(FieldType, Seq<char>)>,
) -> Seq<Seq<char>> {
    seq![opening_row(kind_text, key)] + rows(fields) + seq!["}"@]
}

/// The lines of the lines of fields and more text are the lines of the fields and the lines
/// of the rest.
pub proof fn lemma_lines_of_fields(fields: Seq<(FieldType, Seq<char>)>, rest: Seq<char>)
    requires
        feedless(fields),
    ensures
        lines_of(field_lines(fields) + rest) == rows(fields) + lines_of(rest),
    decreases fields.len(),
{
    if fields.len() == 0 {
        assert(field_lines(fields) + rest =~= rest);
        assert(rows(fields) + lines_of(rest) =~= lines_of(rest));
    } else {
        let front = fields.drop_last();
        let last = fields.last();
        assert(free_of(fields[fields.len() - 1].1, '\n'));
        assert(feedless(front)) by {
            assert forall|i: int| 0 <= i < front.len() implies free_of(
                #[trigger] front[i].1,
                '\n',
            ) by {
                assert(front[i] == fields[i]);
            }
        }
        lemma_field_row(last);
        let row = field_row(last);
        assert(field_lines(fields) + rest =~= field_lines(front) + (row + seq!['\n'] + rest));
        lemma_lines_of_fields(front, row + seq!['\n'] + rest);
        lemma_lines_of_first(row, rest);
        assert(rows(fields) =~= rows(front).push(row));
        assert(rows(front) + (seq![row] + lines_of(rest)) =~= rows(fields) + lines_of(rest));
    }
}

/// The lines of the text of an entry and more text are the opening line, the lines of the
/// fields, the closing line and the lines of the rest.
pub proof fn lemma_lines_of_written(
    kind_text: Seq<char>,
    key: Seq<char>,
    fields: Seq<(FieldType, Seq<char>)>,
    rest: Seq<char>,
)
    requires
        plain_kind(kind_text),
        plain_key(key),
        feedless(fields),
    ensures
        lines_of(written(kind_text, key, fields) + rest) == entry_rows(kind_text, key, fields)
            + lines_of(rest),
{
    reveal_strlit("}\n");
    reveal_strlit("}");
    let open = opening_row(kind_text, key);
    let close = "}\n"@;
    lemma_opening_row(kind_text, key);
    lemma_closing_row();
    assert(written(kind_text, key, fields) + rest =~= open + seq!['\n'] + (field_lines(fields) + (
    close + rest)));
    lemma_lines_of_first(open, field_lines(fields) + (close + rest));
    lemma_lines_of_fields(fields, close + rest);
    assert(close + rest =~= "}"@ + seq!['\n'] + rest);
    lemma_lines_of_first("}"@, rest);
    assert(seq![open] + (rows(fields) + (seq!["}"@] + lines_of(rest))) =~= entry_rows(
        kind_text,
        key,
        fields,
    ) + lines_of(rest));
}

/// The state after one more line.
pub proof fn lemma_state_after_push(lines: Seq<Seq<char>>, line: Seq<char>)
    ensures
        state_after(lines.push(line)) == match state_after(lines) {
            Ok(state) => step(state, line),
            Err(error) => Err(error),
        },
{
    assert(lines.push(line).drop_last() =~= lines);
}

/// The lines of fields put their fields among those that were read before.
pub proof fn lemma_rows_read(
    before: Seq<Seq<char>>,
    state: ParseState,
    fields: Seq<(FieldType, Seq<char>)>,
)
    requires
        state_after(before) == Ok::<ParseState, Seq<char>>(state),
        plain_fields(fields),
    ensures
        state_after(before + rows(fields)) == Ok::<ParseState, Seq<char>>(
            ParseState { fields: collected(state.fields, fields), ..state },
        ),
    decreases fields.len(),
{
    if fields.len() == 0 {
        assert(before + rows(fields) =~= before);
    } else {
        let front = fields.drop_last();
        let last = fields.last();
        assert(plain_value(fields[fields.len() - 1].1));
        assert(plain_fields(front)) by {
            assert forall|i: int| 0 <= i < front.len() implies plain_value(
                #[trigger] front[i].1,
            ) by {
                assert(front[i] == fields[i]);
            }
        }
        lemma_rows_read(before, state, front);
        lemma_field_row(last);
        assert(before + rows(fields) =~= (before + rows(front)).push(field_row(last)));
        lemma_state_after_push(before + rows(front), field_row(last));
    }
}

/// What the text of an entry is read as, after any lines that left the state `state`: where
/// the name of the type is known, one more entry with the written key and type, which holds
/// the fields that were read before together with the written ones; else the error that
/// the name is not known.
pub proof fn law_entry_read_back(
    before: Seq<Seq<char>>,
    state: ParseState,
    kind_text: Seq<char>,
    key: Seq<char>,
    fields: Seq<(FieldType, Seq<char>)>,
)
    requires
        state_after(before) == Ok::<ParseState, Seq<char>>(state),
        plain_kind(kind_text),
        plain_key(key),
        plain_fields(fields),
    ensures
        state_after(before + entry_rows(kind_text, key, fields)) == match ReferenceType::spelled(
            kind_text,
        ) {
            Ok(kind) => Ok::<ParseState, Seq<char>>(
                ParseState {
                    references: state.references.push(
                        entry_of(key, kind, collected(state.fields, fields)),
                    ),
                    fields: Seq::empty(),
                    key,
                    kind: Ok(kind),
                },
            ),
            Err(error) => Err(error),
        },
{
    let open = opening_row(kind_text, key);
    lemma_opening_row(kind_text, key);
    lemma_closing_row();
    lemma_state_after_push(before, open);
    let all = before + entry_rows(kind_text, key, fields);
    match ReferenceType::spelled(kind_text) {
        Ok(kind) => {
            let opened = ParseState { key, kind: Ok(kind), ..state };
            assert(state_after(before.push(open)) == Ok::<ParseState, Seq<char>>(opened));
            lemma_rows_read(before.push(open), opened, fields);
            let upto = before.push(open) + rows(fields);
            lemma_state_after_push(upto, "}"@);
            assert(all =~= upto.push("}"@));
        },
        Err(error) => {
            let n = before.len() as int + 1;
            assert(all.take(n) =~= before.push(open));
            lemma_error_stays(all, n);
        },
    }
}

// ---------------------------------------------------------------------------------------------
// Texts that are read back
// ---------------------------------------------------------------------------------------------

/// Fields with distinct names are collected as they are.
pub proof fn lemma_collected_distinct(fields: Seq<(FieldType, Seq<char>)>)
    requires
        distinct_keys(fields),
    ensures
        collected(Seq::empty(), fields) == fields,
    decreases fields.len(),
{
    if fields.len() > 0 {
        let front = fields.drop_last();
        let last = fields.last();
        assert(distinct_keys(front)) by {
            assert forall|i: int, j: int| 0 <= i < j < front.len() implies (
            #[trigger] front[i]).0 != (#[trigger] front[j]).0 by {
                assert(front[i] == fields[i] && front[j] == fields[j]);
            }
        }
        lemma_collected_distinct(front);
        assert forall|j: int| 0 <= j < front.len() implies (#[trigger] front[j]).0 != last.0 by {
            assert(front[j] == fields[j]);
            assert(last == fields[fields.len() - 1]);
        }
        lemma_index_of_is(front, last.0, front.len() as int);
        assert(!has_key(front, last.0));
        assert(front.push(last) =~= fields);
    } else {
        assert(collected(Seq::empty(), fields) =~= fields);
    }
}

/// The value that was written last under `name`.
pub open spec fn last_under(fields: Seq<(FieldType, Seq<char>)>, name: FieldType) -> Option<
    Seq<char>,
>
    decreases fields.len(),
{
    if fields.len() == 0 {
        None
    } else if fields.last().0 == name {
        Some(fields.last().1)
    } else {
        last_under(fields.drop_last(), name)
    }
}

/// Looking a name up among collected fields gives the value that was written last under it,
/// and what stood under it before where none was written. The names stay distinct.
pub proof fn law_collected_lookup(
    start: Seq<(FieldType, Seq<char>)>,
    fields: Seq<(FieldType, Seq<char>)>,
)
    requires
        distinct_keys(start),
    ensures
        distinct_keys(collected(start, fields)),
        forall|name: FieldType| #[trigger]
            value_of(collected(start, fields), name) == match last_under(fields, name) {
                Some(value) => Some(value),
                None => value_of(start, name),
            },
    decreases fields.len(),
{
    if fields.len() > 0 {
        let front = fields.drop_last();
        law_collected_lookup(start, front);
        lemma_with_entry(collected(start, front), fields.last().0, fields.last().1);
    }
}

/// A line that is not blank, opens no entry, closes none and holds no field with a known
/// name changes nothing: the unknown name and its value are dropped.
pub proof fn law_unknown_field_is_dropped(state: ParseState, line: Seq<char>)
    requires
        trimmed(line).len() > 0,
        trimmed_start(line)[0] != '@',
        trimmed_start(line)[0] != '}',
        field_of(line) is None,
    ensures
        step(state, line) == Ok::<ParseState, Seq<char>>(state),
{
}

/// The text of an entry with a known type is read as that one entry, which holds the
/// written key, the name of the type and the written fields; the text of an entry with an
/// unknown type is read as the error that says so.
pub proof fn law_written_entry_is_read(
    kind_text: Seq<char>,
    key: Seq<char>,
    fields: Seq<(FieldType, Seq<char>)>,
)
    requires
        plain_kind(kind_text),
        plain_key(key),
        plain_fields(fields),
    ensures
        parsed(written(kind_text, key, fields)) == match ReferenceType::spelled(kind_text) {
            Ok(kind) => Ok::<Seq<Seq<(FieldType, Seq<char>)>>, Seq<char>>(
                seq![entry_of(key, kind, collected(Seq::empty(), fields))],
            ),
            Err(error) => Err(error),
        },
{
    let text = written(kind_text, key, fields);
    assert(text + Seq::<char>::empty() =~= text);
    lemma_lines_of_written(kind_text, key, fields, Seq::empty());
    assert(lines_of(Seq::<char>::empty()) =~= Seq::<Seq<char>>::empty());
    let lines = entry_rows(kind_text, key, fields);
    assert(lines + Seq::<Seq<char>>::empty() =~= lines);
    assert(state_after(Seq::<Seq<char>>::empty()) == Ok::<ParseState, Seq<char>>(
        initial_state(),
    ));
    law_entry_read_back(Seq::empty(), initial_state(), kind_text, key, fields);
    assert(Seq::<Seq<char>>::empty() + lines =~= lines);
    match ReferenceType::spelled(kind_text) {
        Ok(kind) => {
            assert(Seq::<Seq<(FieldType, Seq<char>)>>::empty().push(
                entry_of(key, kind, collected(Seq::empty(), fields)),
            ) =~= seq![entry_of(key, kind, collected(Seq::empty(), fields))]);
        },
        Err(_) => {},
    }
}

/// The lines of two texts in a row are the lines of the first and the lines of the second,
/// where the first text ends with a line feed or is empty.
pub proof fn lemma_lines_of_concat(a: Seq<char>, b: Seq<char>)
    requires
        a.len() > 0 ==> a.last() == '\n',
    ensures
        lines_of(a + b) == lines_of(a) + lines_of(b),
    decreases a.len(),
{
    if a.len() == 0 {
        assert(a + b =~= b);
        assert(lines_of(a) + lines_of(b) =~= lines_of(b));
    } else {
        lemma_position_of(a, '\n');
        let n = position_of(a, '\n');
        if n == a.len() {
            assert(a[a.len() - 1] != '\n');
        }
        lemma_position_in_concat(a, b, '\n');
        let s = a + b;
        assert(s.take(n) =~= a.take(n));
        let tail = a.skip(n + 1);
        assert(s.skip(n + 1) =~= tail + b);
        if tail.len() > 0 {
            assert(tail.last() == a.last());
        }
        lemma_lines_of_concat(tail, b);
        assert(seq![without_cr(a.take(n))] + (lines_of(tail) + lines_of(b)) =~= (seq![
            without_cr(a.take(n)),
        ] + lines_of(tail)) + lines_of(b));
    }
}

/// A line that opens an entry of an unknown type ends the reading with the error that names
/// the type, whatever lines were read before it and whatever lines follow: no entry is
/// given, not even those that were closed before.
pub proof fn law_unknown_type_fails(
    before: Seq<Seq<char>>,
    line: Seq<char>,
    after: Seq<Seq<char>>,
)
    requires
        state_after(before) is Ok,
        trimmed(line).len() > 0,
        trimmed_start(line)[0] == '@',
        opened_kind(trimmed_start(line)) is Err,
    ensures
        state_after(before.push(line) + after) == Err::<ParseState, Seq<char>>(
            opened_kind(trimmed_start(line))->Err_0,
        ),
{
    lemma_state_after_push(before, line);
    let all = before.push(line) + after;
    let n = before.len() as int + 1;
    assert(all.take(n) =~= before.push(line));
    lemma_error_stays(all, n);
}

/// A text fails with the error that names the type where a line of it opens an entry of an
/// unknown type and what stands before that line is read without an error, whatever
/// follows the line.
pub proof fn law_unknown_type_fails_in_text(head: Seq<char>, line: Seq<char>, rest: Seq<char>)
    requires
        head.len() > 0 ==> head.last() == '\n',
        parsed(head) is Ok,
        free_of(line, '\n'),
        trimmed(without_cr(line)).len() > 0,
        trimmed_start(without_cr(line))[0] == '@',
        opened_kind(trimmed_start(without_cr(line))) is Err,
    ensures
        parsed(head + line + seq!['\n'] + rest) == Err::<
            Seq<Seq<(FieldType, Seq<char>)>>,
            Seq<char>,
        >(opened_kind(trimmed_start(without_cr(line)))->Err_0),
{
    let text = head + line + seq!['\n'] + rest;
    assert(text =~= head + (line + seq!['\n'] + rest));
    lemma_lines_of_concat(head, line + seq!['\n'] + rest);
    lemma_lines_of_first(line, rest);
    let before = lines_of(head);
    let shown = without_cr(line);
    assert(lines_of(text) =~= before.push(shown) + lines_of(rest));
    law_unknown_type_fails(before, shown, lines_of(rest));
}

/// Whether `a` and `b` hold the same names in the same order, and the same values but under
/// the names `first` and `second`.
pub open spec fn alike_but_under(
    a: Seq<(FieldType, Seq<char>)>,
    b: Seq<(FieldType, Seq<char>)>,
    first: FieldType,
    second: FieldType,
) -> bool {
    &&& a.len() == b.len()
    &&& forall|i: int| 0 <= i < a.len() ==> (#[trigger] a[i]).0 == b[i].0
    &&& forall|i: int|
        0 <= i < a.len() && (#[trigger] a[i]).0 != first && a[i].0 != second ==> a[i] == b[i]
}

/// Fields with the same names in the same order have each name at the same index.
pub proof fn lemma_same_names_same_index(
    a: Seq<(FieldType, Seq<char>)>,
    b: Seq<(FieldType, Seq<char>)>,
    name: FieldType,
)
    requires
        a.len() == b.len(),
        forall|i: int| 0 <= i < a.len() ==> (#[trigger] a[i]).0 == b[i].0,
    ensures
        index_of(a, name) == index_of(b, name),
{
    lemma_index_of(a, name);
    let p = index_of(a, name);
    assert forall|j: int| 0 <= j < p implies (#[trigger] b[j]).0 != name by {
        assert(a[j].0 == b[j].0);
    }
    if p < a.len() {
        assert(a[p].0 == b[p].0);
    }
    lemma_index_of_is(b, name, p);
}

/// Fields that differ only under the key and the type make the same entry.
pub proof fn lemma_entry_of_alike(
    a: Seq<(FieldType, Seq<char>)>,
    b: Seq<(FieldType, Seq<char>)>,
    key: Seq<char>,
    kind: ReferenceType,
)
    requires
        distinct_keys(a),
        alike_but_under(a, b, FieldType::Key, FieldType::Type),
    ensures
        entry_of(key, kind, a) == entry_of(key, kind, b),
{
    lemma_same_names_same_index(a, b, FieldType::Key);
    lemma_index_of(a, FieldType::Key);
    lemma_with_entry(a, FieldType::Key, key);
    let p = index_of(a, FieldType::Key);
    let x = with_entry(a, FieldType::Key, key);
    let y = with_entry(b, FieldType::Key, key);
    assert(x.len() == y.len());
    assert forall|i: int| 0 <= i < x.len() implies (#[trigger] x[i]).0 == y[i].0 by {
        if i < a.len() {
            assert(a[i].0 == b[i].0);
        }
    }
    assert forall|i: int| 0 <= i < x.len() && (#[trigger] x[i]).0 != FieldType::Type implies x[i]
        == y[i] by {
        if i == p {
            assert(x[i] == (FieldType::Key, key) && y[i] == (FieldType::Key, key));
        } else {
            // away from the entry under the key, which stands once
            assert(i < a.len());
            assert(x[i] == a[i] && y[i] == b[i]);
            if p < a.len() {
                assert(a[p].0 == FieldType::Key);
                if i < p {
                    assert(a[i].0 != a[p].0);
                } else {
                    assert(a[p].0 != a[i].0);
                }
            }
            assert(a[i].0 != FieldType::Key);
        }
    }
    lemma_same_names_same_index(x, y, FieldType::Type);
    lemma_index_of(x, FieldType::Type);
    let q = index_of(x, FieldType::Type);
    let u = with_entry(x, FieldType::Type, kind.name());
    let v = with_entry(y, FieldType::Type, kind.name());
    assert(u.len() == v.len());
    assert forall|i: int| 0 <= i < u.len() implies u[i] == v[i] by {
        if i == q {
            assert(u[i] == (FieldType::Type, kind.name()) && v[i] == (
                FieldType::Type,
                kind.name(),
            ));
        } else {
            assert(i < x.len());
            assert(u[i] == x[i] && v[i] == y[i]);
            if q < x.len() {
                assert(x[q].0 == FieldType::Type);
                if i < q {
                    assert(x[i].0 != x[q].0);
                } else {
                    assert(x[q].0 != x[i].0);
                }
            }
            assert(x[i].0 != FieldType::Type);
        }
    }
    assert(u =~= v);
}

/// The BibTeX text of an entry is read back as one entry of the type `Article` with the key
/// of the text and the fields of the entry. So every field but the type is read back as it
/// was, and the key too where the entry has one.
///
/// This holds of an entry in which each name stands once, no value holds a line feed, the
/// values but those of the key and the type neither begin nor end with whitespace, and the
/// key of the text holds no comma.
pub proof fn law_yank_round_trip(entries: Seq<(FieldType, Seq<char>)>)
    requires
        distinct_keys(entries),
        feedless(entries),
        forall|i: int|
            0 <= i < entries.len() && (#[trigger] entries[i]).0 != FieldType::Key && entries[i].0
                != FieldType::Type ==> tight(entries[i].1),
        plain_key(output_key(entries)),
    ensures
        parsed(bibtex_of(entries)) == Ok::<Seq<Seq<(FieldType, Seq<char>)>>, Seq<char>>(
            seq![entry_of(output_key(entries), ReferenceType::Article, entries)],
        ),
        distinct_keys(entry_of(output_key(entries), ReferenceType::Article, entries)),
        forall|name: FieldType|
            name != FieldType::Type && name != FieldType::Key ==> #[trigger] value_of(
                entry_of(output_key(entries), ReferenceType::Article, entries),
                name,
            ) == value_of(entries, name),
        value_of(entry_of(output_key(entries), ReferenceType::Article, entries), FieldType::Key)
            == Some(output_key(entries)),
        has_key(entries, FieldType::Key) ==> value_of(
            entry_of(output_key(entries), ReferenceType::Article, entries),
            FieldType::Key,
        ) == value_of(entries, FieldType::Key),
{
    reveal_strlit("@article{");
    reveal_strlit("article");
    reveal_strlit("@");
    reveal_strlit("{");
    reveal_strlit(",\n");
    reveal_strlit(",");
    let key = output_key(entries);
    let kind = ReferenceType::Article;
    assert("@article{"@ =~= "@"@ + "article"@ + "{"@);
    assert(",\n"@ =~= ","@ + seq!['\n']);
    let text = bibtex_of(entries);
    assert(text =~= written("article"@, key, entries));
    lemma_article_spelled();
    assert(plain_kind("article"@));
    // the lines of the text
    assert(text + Seq::<char>::empty() =~= text);
    lemma_lines_of_written("article"@, key, entries, Seq::empty());
    assert(lines_of(Seq::<char>::empty()) =~= Seq::<Seq<char>>::empty());
    let open = opening_row("article"@, key);
    lemma_opening_row("article"@, key);
    lemma_closing_row();
    let read = entries.map_values(|e: (FieldType, Seq<char>)| entry_read(e));
    assert forall|i: int| 0 <= i < entries.len() implies holds(
        #[trigger] rows(entries)[i],
        read[i],
    ) by {
        assert(free_of(entries[i].1, '\n'));
        lemma_field_row(entries[i]);
    }
    let none = Seq::<Seq<char>>::empty();
    assert(state_after(none) == Ok::<ParseState, Seq<char>>(initial_state()));
    law_entry_lines_read(none, initial_state(), open, rows(entries), "}"@, kind, key, read);
    assert(lines_of(text) =~= (none.push(open) + rows(entries)).push("}"@));
    // what was read makes the same entry as what was written
    assert forall|i: int, j: int| 0 <= i < j < read.len() implies (#[trigger] read[i]).0 != (
    #[trigger] read[j]).0 by {
        assert(entries[i].0 != entries[j].0);
    }
    lemma_collected_distinct(read);
    assert forall|i: int|
        0 <= i < read.len() && (#[trigger] read[i]).0 != FieldType::Key && read[i].0
            != FieldType::Type implies read[i] == entries[i] by {
        assert(tight(entries[i].1));
        assert(free_of(entries[i].1, '\n'));
        lemma_field_row(entries[i]);
    }
    assert(distinct_keys(read));
    lemma_entry_of_alike(read, entries, key, kind);
    assert(Seq::<Seq<(FieldType, Seq<char>)>>::empty().push(entry_of(key, kind, entries))
        =~= seq![entry_of(key, kind, entries)]);
    // what is looked up in it
    let keyed = with_entry(entries, FieldType::Key, key);
    lemma_with_entry(entries, FieldType::Key, key);
    lemma_with_entry(keyed, FieldType::Type, kind.name());
    let after = entry_of(key, kind, entries);
    assert forall|name: FieldType|
        name != FieldType::Type && name != FieldType::Key implies #[trigger] value_of(
        after,
        name,
    ) == value_of(entries, name) by {
        assert(value_of(after, name) == value_of(keyed, name));
    }
    assert(value_of(after, FieldType::Key) == value_of(keyed, FieldType::Key));
}

/// The BibTeX text of an entry that was made of a key, a type and fields is read back as
/// the same entry but for its type: the key and every field come back as they were.
///
/// This holds where each field name stands once, the key holds no line feed and no comma,
/// no value holds a line feed, and the values, but one under the name of the key or of the
/// type, neither begin nor end with whitespace.
pub proof fn law_new_entry_round_trip(
    key: Seq<char>,
    kind: ReferenceType,
    fields: Seq<(FieldType, Seq<char>)>,
)
    requires
        distinct_keys(fields),
        plain_key(key),
        feedless(fields),
        forall|i: int|
            0 <= i < fields.len() && (#[trigger] fields[i]).0 != FieldType::Key && fields[i].0
                != FieldType::Type ==> tight(fields[i].1),
    ensures
        parsed(bibtex_of(entry_of(key, kind, fields))) == Ok::<
            Seq<Seq<(FieldType, Seq<char>)>>,
            Seq<char>,
        >(seq![entry_of(key, ReferenceType::Article, entry_of(key, kind, fields))]),
        forall|name: FieldType|
            name != FieldType::Type ==> #[trigger] value_of(
                entry_of(key, ReferenceType::Article, entry_of(key, kind, fields)),
                name,
            ) == value_of(entry_of(key, kind, fields), name),
        value_of(entry_of(key, kind, fields), FieldType::Key) == Some(key),
{
    let keyed = with_entry(fields, FieldType::Key, key);
    let entry = entry_of(key, kind, fields);
    lemma_with_entry(fields, FieldType::Key, key);
    lemma_with_entry(keyed, FieldType::Type, kind.name());
    lemma_index_of(fields, FieldType::Key);
    lemma_index_of(keyed, FieldType::Type);
    lemma_type_name_letters(kind);
    assert forall|i: int| 0 <= i < keyed.len() implies #[trigger] keyed[i] == (
        FieldType::Key,
        key,
    ) || (i < fields.len() && keyed[i] == fields[i]) by {}
    assert forall|i: int| 0 <= i < entry.len() implies #[trigger] entry[i] == (
        FieldType::Type,
        kind.name(),
    ) || entry[i] == (FieldType::Key, key) || (i < fields.len() && entry[i] == fields[i]) by {
        if i < keyed.len() {
            assert(keyed[i] == (FieldType::Key, key) || (i < fields.len() && keyed[i]
                == fields[i]));
        }
    }
    assert(feedless(entry)) by {
        assert forall|i: int| 0 <= i < entry.len() implies free_of(
            #[trigger] entry[i].1,
            '\n',
        ) by {
            if entry[i] == (FieldType::Type, kind.name()) {
            } else if entry[i] == (FieldType::Key, key) {
            } else {
                assert(free_of(fields[i].1, '\n'));
            }
        }
    }
    assert forall|i: int|
        0 <= i < entry.len() && (#[trigger] entry[i]).0 != FieldType::Key && entry[i].0
            != FieldType::Type implies tight(entry[i].1) by {
        assert(entry[i] == fields[i]);
    }
    assert(output_key(entry) == key);
    law_yank_round_trip(entry);
}

// ---------------------------------------------------------------------------------------------
// Texts of many entries
// ---------------------------------------------------------------------------------------------

/// An entry as it is written: the spelling of its type, its key and its fields.
pub struct Written {
    pub spelling: Seq<char>,
    pub key: Seq<char>,
    pub fields: Seq<(FieldType, Seq<char>)>,
}

impl Written {
    /// Whether the entry can be written and read back: the spelling names a type, and the
    /// spelling, the key and the values are plain.
    pub open spec fn plain(self) -> bool {
        &&& plain_kind(self.spelling)
        &&& ReferenceType::spelled(self.spelling) is Ok
        &&& plain_key(self.key)
        &&& plain_fields(self.fields)
    }

    /// The text of the entry.
    pub open spec fn text(self) -> Seq<char> {
        written(self.spelling, self.key, self.fields)
    }

    /// The entry that the text is read as.
    pub open spec fn read(self) -> Seq<(FieldType, Seq<char>)> {
        entry_of(
            self.key,
            ReferenceType::spelled(self.spelling)->Ok_0,
            collected(Seq::empty(), self.fields),
        )
    }
}

/// The texts of the entries, one after the other.
pub open spec fn document(entries: Seq<Written>) -> Seq<char>
    decreases entries.len(),
{
    if entries.len() == 0 {
        Seq::empty()
    } else {
        entries[0].text() + document(entries.drop_first())
    }
}

/// The entries of a document are read one after the other, after any lines that left no
/// fields behind.
pub proof fn lemma_document_read(before: Seq<Seq<char>>, state: ParseState, entries: Seq<Written>)
    requires
        state_after(before) == Ok::<ParseState, Seq<char>>(state),
        state.fields == Seq::<(FieldType, Seq<char>)>::empty(),
        forall|i: int| 0 <= i < entries.len() ==> (#[trigger] entries[i]).plain(),
    ensures
        state_after(before + lines_of(document(entries))) matches Ok(after) && after.references
            == state.references + entries.map_values(|w: Written| w.read()) && after.fields
            == Seq::<(FieldType, Seq<char>)>::empty(),
    decreases entries.len(),
{
    let read = |w: Written| w.read();
    if entries.len() == 0 {
        assert(lines_of(document(entries)) =~= Seq::<Seq<char>>::empty());
        assert(before + lines_of(document(entries)) =~= before);
        assert(state.references + entries.map_values(read) =~= state.references);
    } else {
        let first = entries[0];
        let rest = entries.drop_first();
        assert(first.plain());
        assert forall|i: int| 0 <= i < rest.len() implies (#[trigger] rest[i]).plain() by {
            assert(rest[i] == entries[i + 1]);
        }
        let rows = entry_rows(first.spelling, first.key, first.fields);
        lemma_lines_of_written(first.spelling, first.key, first.fields, document(rest));
        law_entry_read_back(before, state, first.spelling, first.key, first.fields);
        let kind = ReferenceType::spelled(first.spelling)->Ok_0;
        let next = ParseState {
            references: state.references.push(first.read()),
            fields: Seq::empty(),
            key: first.key,
            kind: Ok(kind),
        };
        assert(state_after(before + rows) == Ok::<ParseState, Seq<char>>(next));
        lemma_document_read(before + rows, next, rest);
        assert(before + lines_of(document(entries)) =~= (before + rows) + lines_of(
            document(rest),
        ));
        assert(next.references + rest.map_values(read) =~= state.references + entries.map_values(
            read,
        ));
    }
}

/// A document of plain entries is read as these entries, in their order: each with its key,
/// the name of its type, and under each written field name the value that was written last
/// under it.
pub proof fn law_document_is_read(entries: Seq<Written>)
    requires
        forall|i: int| 0 <= i < entries.len() ==> (#[trigger] entries[i]).plain(),
    ensures
        parsed(document(entries)) == Ok::<Seq<Seq<(FieldType, Seq<char>)>>, Seq<char>>(
            entries.map_values(|w: Written| w.read()),
        ),
{
    let none = Seq::<Seq<char>>::empty();
    assert(state_after(none) == Ok::<ParseState, Seq<char>>(initial_state()));
    lemma_document_read(none, initial_state(), entries);
    assert(none + lines_of(document(entries)) =~= lines_of(document(entries)));
    assert(initial_state().references + entries.map_values(|w: Written| w.read())
        =~= entries.map_values(|w: Written| w.read()));
}

// ---------------------------------------------------------------------------------------------
// Entries in any layout
// ---------------------------------------------------------------------------------------------

/// Whether `line` opens an entry of the type `kind` with the key `key`.
pub open spec fn opens(line: Seq<char>, kind: ReferenceType, key: Seq<char>) -> bool {
    &&& trimmed(line).len() > 0
    &&& trimmed_start(line)[0] == '@'
    &&& opened_kind(trimmed_start(line)) == Ok::<ReferenceType, Seq<char>>(kind)
    &&& opened_key(trimmed_start(line)) == key
}

/// Whether `line` closes an entry.
pub open spec fn closes(line: Seq<char>) -> bool {
    trimmed(line).len() > 0 && trimmed_start(line)[0] == '}'
}

/// Whether `line` is the line of a field and holds the field `entry`.
pub open spec fn holds(line: Seq<char>, entry: (FieldType, Seq<char>)) -> bool {
    &&& trimmed(line).len() > 0
    &&& trimmed_start(line)[0] != '@'
    &&& trimmed_start(line)[0] != '}'
    &&& field_of(line) == Some(entry)
}

/// Whether `lines` are the lines of the fields `fields`, one for each and in their order.
pub open spec fn hold_all(lines: Seq<Seq<char>>, fields: Seq<(FieldType, Seq<char>)>) -> bool {
    &&& lines.len() == fields.len()
    &&& forall|i: int| 0 <= i < lines.len() ==> holds(#[trigger] lines[i], fields[i])
}

/// Lines of fields put their fields among those that were read before.
pub proof fn lemma_field_lines_read(
    before: Seq<Seq<char>>,
    state: ParseState,
    lines: Seq<Seq<char>>,
    fields: Seq<(FieldType, Seq<char>)>,
)
    requires
        state_after(before) == Ok::<ParseState, Seq<char>>(state),
        hold_all(lines, fields),
    ensures
        state_after(before + lines) == Ok::<ParseState, Seq<char>>(
            ParseState { fields: collected(state.fields, fields), ..state },
        ),
    decreases lines.len(),
{
    if lines.len() == 0 {
        assert(before + lines =~= before);
    } else {
        let front = lines.drop_last();
        let last = lines.last();
        assert(holds(lines[lines.len() - 1], fields[lines.len() - 1]));
        assert(hold_all(front, fields.drop_last())) by {
            assert forall|i: int| 0 <= i < front.len() implies holds(
                #[trigger] front[i],
                fields.drop_last()[i],
            ) by {
                assert(holds(lines[i], fields[i]));
            }
        }
        lemma_field_lines_read(before, state, front, fields.drop_last());
        assert(before + lines =~= (before + front).push(last));
        lemma_state_after_push(before + front, last);
    }
}

/// An entry is read from its lines whatever their layout: a line that opens it, lines that
/// hold fields, and a line that closes it give one more entry with the key and the type of
/// the opening line. Under each field name the entry holds the value of the last line with
/// that name, and no other names but the key and the type.
pub proof fn law_entry_lines_read(
    before: Seq<Seq<char>>,
    state: ParseState,
    open: Seq<char>,
    lines: Seq<Seq<char>>,
    close: Seq<char>,
    kind: ReferenceType,
    key: Seq<char>,
    fields: Seq<(FieldType, Seq<char>)>,
)
    requires
        state_after(before) == Ok::<ParseState, Seq<char>>(state),
        opens(open, kind, key),
        hold_all(lines, fields),
        closes(close),
    ensures
        state_after((before.push(open) + lines).push(close)) == Ok::<ParseState, Seq<char>>(
            ParseState {
                references: state.references.push(
                    entry_of(key, kind, collected(state.fields, fields)),
                ),
                fields: Seq::empty(),
                key,
                kind: Ok(kind),
            },
        ),
{
    lemma_state_after_push(before, open);
    let opened = ParseState { key, kind: Ok(kind), ..state };
    lemma_field_lines_read(before.push(open), opened, lines, fields);
    lemma_state_after_push(before.push(open) + lines, close);
}

/// A text that begins with a character that is no whitespace keeps that character when it
/// is trimmed.
pub proof fn lemma_trimmed_keeps_first(s: Seq<char>)
    requires
        s.len() > 0,
        !whitespace(s[0]),
    ensures
        trimmed_start(s) == s,
        trimmed(s).len() > 0,
        trimmed(s)[0] == s[0],
    decreases s.len(),
{
    if s.len() > 1 && whitespace(s.last()) {
        let t = s.drop_last();
        assert(t[0] == s[0]);
        lemma_trimmed_keeps_first(t);
    }
}

/// Whitespace holds none of the characters that the lines of an entry are told by.
pub proof fn lemma_blank_is_free(pad: Seq<char>)
    requires
        blank(pad),
    ensures
        free_of(pad, '='),
        free_of(pad, '{'),
        free_of(pad, ','),
        free_of(pad, '@'),
        free_of(pad, '}'),
{
    assert forall|i: int| 0 <= i < pad.len() implies pad[i] != '=' && pad[i] != '{' && pad[i]
        != ',' && pad[i] != '@' && pad[i] != '}' by {
        assert(whitespace(pad[i]));
    }
}

/// The line of a field in a free layout: whitespace, the name in some spelling, whitespace,
/// `=`, whitespace, the value in braces, a comma or none, and whitespace.
pub open spec fn laid_out(
    indent: Seq<char>,
    spelling: Seq<char>,
    gap: Seq<char>,
    space: Seq<char>,
    value: Seq<char>,
    comma: bool,
    trail: Seq<char>,
) -> Seq<char> {
    indent + spelling + gap + "="@ + space + "{"@ + value + "}"@ + (if comma {
        ","@
    } else {
        Seq::empty()
    }) + trail
}

/// A line of a field in a free layout holds the field: the name that the spelling stands
/// for, whatever the case of its letters, and the value between the braces.
pub proof fn law_laid_out_holds(
    indent: Seq<char>,
    spelling: Seq<char>,
    gap: Seq<char>,
    space: Seq<char>,
    value: Seq<char>,
    comma: bool,
    trail: Seq<char>,
    name: FieldType,
)
    requires
        blank(indent),
        blank(gap),
        blank(space),
        blank(trail),
        spelling.len() > 0,
        tight(spelling),
        free_of(spelling, '='),
        spelling[0] != '@',
        spelling[0] != '}',
        FieldType::spelled(spelling) == Some(name),
        tight(value),
    ensures
        holds(laid_out(indent, spelling, gap, space, value, comma, trail), (name, value)),
{
    reveal_strlit("=");
    reveal_strlit("{");
    reveal_strlit("}");
    reveal_strlit(",");
    let line = laid_out(indent, spelling, gap, space, value, comma, trail);
    let end = if comma {
        ","@
    } else {
        Seq::<char>::empty()
    };
    let inner = "{"@ + value + "}"@ + end;
    let head = indent + spelling + gap;
    let tail = space + inner + trail;
    assert(line =~= head + ("="@ + tail));
    // the line is told by the first character of the name
    let rest = spelling + gap + "="@ + tail;
    assert(line =~= indent + rest);
    lemma_trimmed_start_blank(indent, rest);
    assert(rest[0] == spelling[0]);
    lemma_trimmed_keeps_first(rest);
    lemma_trimmed_shorter(line);
    assert(trimmed(line) == trimmed(rest));
    // the name
    lemma_blank_is_free(indent);
    lemma_blank_is_free(gap);
    assert forall|i: int| 0 <= i < head.len() implies head[i] != '=' by {
        if i < indent.len() {
            assert(head[i] == indent[i]);
        } else if i < indent.len() + spelling.len() {
            assert(head[i] == spelling[i - indent.len()]);
        } else {
            assert(head[i] == gap[i - indent.len() - spelling.len()]);
        }
    }
    lemma_position_free(head, '=');
    lemma_position_in_concat(head, "="@ + tail, '=');
    assert(("="@ + tail)[0] == '=');
    let eq = position_of(line, '=');
    assert(eq == head.len());
    assert(line.take(eq) =~= head);
    lemma_trimmed_padded(indent, spelling, gap);
    // the value
    assert(line.skip(eq + 1) =~= tail);
    assert(inner[0] == '{');
    assert(inner.last() == if comma {
        ','
    } else {
        '}'
    });
    lemma_trimmed_padded(space, inner, trail);
    assert(inner.take(1) =~= "{"@);
    assert(has_prefix(inner, "{"@));
    let a = value + "}"@ + end;
    assert(inner.skip(1) =~= a);
    let b = value + "}"@;
    if comma {
        assert(a.skip(a.len() - 1) =~= ","@);
        assert(has_suffix(a, ","@));
        assert(a.take(a.len() - 1) =~= b);
    } else {
        assert(a =~= b);
        assert(a.last() == '}');
        assert(a.skip(a.len() - 1)[0] == '}');
        assert(!has_suffix(a, ","@));
    }
    assert(without_suffix(a, ","@) == b);
    assert(b.skip(b.len() - 1) =~= "}"@);
    assert(has_suffix(b, "}"@));
    assert(b.take(b.len() - 1) =~= value);
    lemma_trimmed_tight(value);
}

/// The line that opens an entry in a free layout: whitespace, `@`, the name of the type,
/// `{`, the key, a comma, and whatever follows.
pub open spec fn opening_line(
    indent: Seq<char>,
    kind_text: Seq<char>,
    key: Seq<char>,
    rest: Seq<char>,
) -> Seq<char> {
    indent + "@"@ + kind_text + "{"@ + key + ","@ + rest
}

/// A line that opens an entry in a free layout gives the type that its name stands for,
/// whatever the case of its letters, and the key.
pub proof fn law_opening_line_opens(
    indent: Seq<char>,
    kind_text: Seq<char>,
    key: Seq<char>,
    rest: Seq<char>,
    kind: ReferenceType,
)
    requires
        blank(indent),
        free_of(kind_text, '{'),
        free_of(key, ','),
        ReferenceType::spelled(kind_text) == Ok::<ReferenceType, Seq<char>>(kind),
    ensures
        opens(opening_line(indent, kind_text, key, rest), kind, key),
{
    reveal_strlit("@");
    reveal_strlit("{");
    reveal_strlit(",");
    let line = opening_line(indent, kind_text, key, rest);
    let text = "@"@ + kind_text + "{"@ + key + ","@ + rest;
    assert(line =~= indent + text);
    lemma_trimmed_start_blank(indent, text);
    assert(text[0] == '@');
    lemma_trimmed_keeps_first(text);
    lemma_trimmed_shorter(line);
    assert(trimmed(line) == trimmed(text));
    // the type
    let head = "@"@ + kind_text;
    let tail = "{"@ + key + ","@ + rest;
    assert(text =~= head + tail);
    assert forall|i: int| 0 <= i < head.len() implies head[i] != '{' by {
        if i >= 1 {
            assert(head[i] == kind_text[i - 1]);
        }
    }
    lemma_position_free(head, '{');
    lemma_position_in_concat(head, tail, '{');
    assert(tail[0] == '{');
    let brace = position_of(text, '{');
    assert(brace == head.len());
    assert(text.take(brace) =~= head);
    assert(head.take(1) =~= "@"@);
    assert(has_prefix(head, "@"@));
    assert(head.skip(1) =~= kind_text);
    // the key
    let after = text.skip(brace + 1);
    assert(after =~= key + (","@ + rest));
    lemma_position_free(key, ',');
    lemma_position_in_concat(key, ","@ + rest, ',');
    assert((","@ + rest)[0] == ',');
    assert(position_of(after, ',') == key.len());
    assert(after.take(key.len() as int) =~= key);
}

/// A line whose first character after whitespace is `}` closes an entry, whatever follows.
pub proof fn law_closing_line_closes(indent: Seq<char>, rest: Seq<char>)
    requires
        blank(indent),
    ensures
        closes(indent + "}"@ + rest),
{
    reveal_strlit("}");
    let line = indent + "}"@ + rest;
    let text = "}"@ + rest;
    assert(line =~= indent + text);
    lemma_trimmed_start_blank(indent, text);
    assert(text[0] == '}');
    lemma_trimmed_keeps_first(text);
    lemma_trimmed_shorter(line);
    assert(trimmed(line) == trimmed(text));
}

/// Whether `line` is passed over: it is blank, or it opens no entry, closes none and holds no
/// field with a known name.
pub open spec fn passed_over(line: Seq<char>) -> bool {
    ||| trimmed(line).len() == 0
    ||| trimmed_start(line)[0] != '@' && trimmed_start(line)[0] != '}' && field_of(line) is None
}

/// A line that is passed over can be taken out of a text without a change to what is read:
/// blank lines, lines without `=` and fields with unknown names leave no trace.
pub proof fn law_passed_over_leaves_no_trace(
    before: Seq<Seq<char>>,
    line: Seq<char>,
    after: Seq<Seq<char>>,
)
    requires
        passed_over(line),
    ensures
        state_after(before.push(line) + after) == state_after(before + after),
    decreases after.len(),
{
    if after.len() == 0 {
        assert(before.push(line) + after =~= before.push(line));
        assert(before + after =~= before);
        lemma_state_after_push(before, line);
    } else {
        let front = after.drop_last();
        let last = after.last();
        law_passed_over_leaves_no_trace(before, line, front);
        assert(before.push(line) + after =~= (before.push(line) + front).push(last));
        assert(before + after =~= (before + front).push(last));
        lemma_state_after_push(before.push(line) + front, last);
        lemma_state_after_push(before + front, last);
    }
}

/// What is looked up in an entry that was read from fields with distinct names: its key,
/// the name of its type, and under every other name the value of the field with that name,
/// or nothing where no field has it.
pub proof fn law_entry_lookup(
    key: Seq<char>,
    kind: ReferenceType,
    fields: Seq<(FieldType, Seq<char>)>,
)
    requires
        distinct_keys(fields),
    ensures
        distinct_keys(entry_of(key, kind, collected(Seq::empty(), fields))),
        value_of(entry_of(key, kind, collected(Seq::empty(), fields)), FieldType::Key) == Some(
            key,
        ),
        value_of(entry_of(key, kind, collected(Seq::empty(), fields)), FieldType::Type) == Some(
            kind.name(),
        ),
        forall|name: FieldType|
            name != FieldType::Key && name != FieldType::Type ==> #[trigger] value_of(
                entry_of(key, kind, collected(Seq::empty(), fields)),
                name,
            ) == value_of(fields, name),
{
    lemma_collected_distinct(fields);
    let keyed = with_entry(fields, FieldType::Key, key);
    lemma_with_entry(fields, FieldType::Key, key);
    lemma_with_entry(keyed, FieldType::Type, kind.name());
    let entry = entry_of(key, kind, fields);
    assert forall|name: FieldType|
        name != FieldType::Key && name != FieldType::Type implies #[trigger] value_of(
        entry,
        name,
    ) == value_of(fields, name) by {
        assert(value_of(entry, name) == value_of(keyed, name));
    }
    assert(value_of(entry, FieldType::Key) == value_of(keyed, FieldType::Key));
}

/// The lines, each with a line feed behind it.
pub open spec fn unlines(lines: Seq<Seq<char>>) -> Seq<char>
    decreases lines.len(),
{
    if lines.len() == 0 {
        Seq::empty()
    } else {
        lines[0] + seq!['\n'] + unlines(lines.drop_first())
    }
}

/// Whether each of `lines` can stand in a text as one line: it holds no line feed and does
/// not end with a carriage return.
pub open spec fn whole_lines(lines: Seq<Seq<char>>) -> bool {
    forall|i: int|
        0 <= i < lines.len() ==> free_of(#[trigger] lines[i], '\n') && without_cr(lines[i])
            == lines[i]
}

/// The lines of lines with their line feeds and more text are these lines and the lines of
/// the rest.
pub proof fn lemma_lines_of_unlines(lines: Seq<Seq<char>>, rest: Seq<char>)
    requires
        whole_lines(lines),
    ensures
        lines_of(unlines(lines) + rest) == lines + lines_of(rest),
    decreases lines.len(),
{
    if lines.len() == 0 {
        assert(unlines(lines) + rest =~= rest);
        assert(lines + lines_of(rest) =~= lines_of(rest));
    } else {
        let first = lines[0];
        let more = lines.drop_first();
        assert forall|i: int| 0 <= i < more.len() implies free_of(#[trigger] more[i], '\n')
            && without_cr(more[i]) == more[i] by {
            assert(more[i] == lines[i + 1]);
        }
        lemma_lines_of_unlines(more, rest);
        assert(unlines(lines) + rest =~= first + seq!['\n'] + (unlines(more) + rest));
        lemma_lines_of_first(first, unlines(more) + rest);
        assert(seq![first] + (more + lines_of(rest)) =~= lines + lines_of(rest));
    }
}

/// A text of one entry in any layout is read as that entry: a line that opens it, lines
/// that hold its fields and a line that closes it, each line with a line feed behind it,
/// but for the last, which may go without.
pub proof fn law_entry_text_read(
    open: Seq<char>,
    lines: Seq<Seq<char>>,
    close: Seq<char>,
    feed: bool,
    kind: ReferenceType,
    key: Seq<char>,
    fields: Seq<(FieldType, Seq<char>)>,
)
    requires
        opens(open, kind, key),
        hold_all(lines, fields),
        closes(close),
        whole_lines(seq![open] + lines),
        free_of(close, '\n'),
        feed ==> without_cr(close) == close,
    ensures
        parsed(
            unlines(seq![open] + lines) + close + (if feed {
                seq!['\n']
            } else {
                Seq::empty()
            }),
        ) == Ok::<Seq<Seq<(FieldType, Seq<char>)>>, Seq<char>>(
            seq![entry_of(key, kind, collected(Seq::empty(), fields))],
        ),
{
    let end = if feed {
        seq!['\n']
    } else {
        Seq::<char>::empty()
    };
    let text = unlines(seq![open] + lines) + close + end;
    assert(text =~= unlines(seq![open] + lines) + (close + end));
    lemma_lines_of_unlines(seq![open] + lines, close + end);
    lemma_trimmed_shorter(close);
    if feed {
        assert(close + end =~= close + seq!['\n'] + Seq::<char>::empty());
        lemma_lines_of_first(close, Seq::empty());
        assert(lines_of(Seq::<char>::empty()) =~= Seq::<Seq<char>>::empty());
    } else {
        assert(close + end =~= close);
        lemma_position_free(close, '\n');
    }
    assert(lines_of(close + end) =~= seq![close]);
    let none = Seq::<Seq<char>>::empty();
    assert(state_after(none) == Ok::<ParseState, Seq<char>>(initial_state()));
    law_entry_lines_read(none, initial_state(), open, lines, close, kind, key, fields);
    assert(lines_of(text) =~= (none.push(open) + lines).push(close));
    assert(Seq::<Seq<(FieldType, Seq<char>)>>::empty().push(
        entry_of(key, kind, collected(Seq::empty(), fields)),
    ) =~= seq![entry_of(key, kind, collected(Seq::empty(), fields))]);
}

/// Whether `spelling` can stand as the name in the line of a field: it is not empty, holds
/// no `=` and no line feed, neither begins nor ends with whitespace, and does not begin with
/// `@` or `}`.
pub open spec fn plain_spelling(spelling: Seq<char>) -> bool {
    &&& spelling.len() > 0
    &&& tight(spelling)
    &&& free_of(spelling, '=')
    &&& free_of(spelling, '\n')
    &&& spelling[0] != '@'
    &&& spelling[0] != '}'
}

/// The line of a field as it is mostly written: the indent, the name in some spelling,
/// ` = `, the value in braces, and a comma.
pub open spec fn usual_line(indent: Seq<char>, spelling: Seq<char>, value: Seq<char>) -> Seq<
    char,
> {
    laid_out(indent, spelling, " "@, " "@, value, true, Seq::empty())
}

/// The lines of fields as they are mostly written, one for each spelling and value.
pub open spec fn usual_lines(
    indent: Seq<char>,
    spellings: Seq<Seq<char>>,
    fields: Seq<(FieldType, Seq<char>)>,
) -> Seq<Seq<char>> {
    Seq::new(fields.len(), |i: int| usual_line(indent, spellings[i], fields[i].1))
}

/// A line of a field as it is mostly written holds no line feed and does not end with a
/// carriage return, where its parts hold no line feed.
pub proof fn lemma_usual_line_whole(indent: Seq<char>, spelling: Seq<char>, value: Seq<char>)
    requires
        free_of(indent, '\n'),
        free_of(spelling, '\n'),
        free_of(value, '\n'),
    ensures
        free_of(usual_line(indent, spelling, value), '\n'),
        without_cr(usual_line(indent, spelling, value)) == usual_line(indent, spelling, value),
{
    reveal_strlit(" ");
    reveal_strlit("=");
    reveal_strlit("{");
    reveal_strlit("}");
    reveal_strlit(",");
    let line = usual_line(indent, spelling, value);
    let a = indent.len();
    let b = a + spelling.len();
    let mid = " "@ + "="@ + " "@ + "{"@;
    let end = "}"@ + ","@;
    assert(line =~= indent + spelling + mid + value + end);
    assert(mid =~= seq![' ', '=', ' ', '{']);
    assert(end =~= seq!['}', ',']);
    assert forall|i: int| 0 <= i < line.len() implies line[i] != '\n' by {
        if i < a {
            assert(line[i] == indent[i]);
        } else if i < b {
            assert(line[i] == spelling[i - a]);
        } else if i < b + 4 {
            assert(line[i] == mid[i - b]);
        } else if i < b + 4 + value.len() {
            assert(line[i] == value[i - b - 4]);
        } else {
            assert(line[i] == end[i - b - 4 - value.len()]);
        }
    }
    assert(line.last() == ',');
}

/// A text of one entry as it is mostly written is read as that entry: the line `@`, name
/// of the type, `{`, key and comma; for each field a line with an indent, the name in some
/// spelling, ` = `, the value in braces and a comma; and the line `}`, with or without a
/// line feed behind it. The type and the names are read whatever the case of their letters,
/// and under each name the entry holds the value of the last line with that name.
pub proof fn law_usual_entry_read(
    indent: Seq<char>,
    kind_text: Seq<char>,
    kind: ReferenceType,
    key: Seq<char>,
    spellings: Seq<Seq<char>>,
    fields: Seq<(FieldType, Seq<char>)>,
    feed: bool,
)
    requires
        blank(indent),
        free_of(indent, '\n'),
        plain_kind(kind_text),
        ReferenceType::spelled(kind_text) == Ok::<ReferenceType, Seq<char>>(kind),
        plain_key(key),
        spellings.len() == fields.len(),
        forall|i: int|
            0 <= i < fields.len() ==> plain_spelling(#[trigger] spellings[i])
                && FieldType::spelled(spellings[i]) == Some(fields[i].0),
        plain_fields(fields),
    ensures
        parsed(
            unlines(
                seq![opening_line(Seq::empty(), kind_text, key, Seq::empty())] + usual_lines(
                    indent,
                    spellings,
                    fields,
                ),
            ) + "}"@ + (if feed {
                seq!['\n']
            } else {
                Seq::empty()
            }),
        ) == Ok::<Seq<Seq<(FieldType, Seq<char>)>>, Seq<char>>(
            seq![entry_of(key, kind, collected(Seq::empty(), fields))],
        ),
{
    reveal_strlit(" ");
    let none = Seq::<char>::empty();
    let open = opening_line(none, kind_text, key, none);
    let lines = usual_lines(indent, spellings, fields);
    assert(blank(none));
    assert(blank(" "@));
    law_opening_line_opens(none, kind_text, key, none, kind);
    lemma_opening_row(kind_text, key);
    assert(open =~= opening_row(kind_text, key));
    assert forall|i: int| 0 <= i < lines.len() implies holds(#[trigger] lines[i], fields[i])
        && free_of(lines[i], '\n') && without_cr(lines[i]) == lines[i] by {
        assert(plain_spelling(spellings[i]));
        assert(plain_value(fields[i].1));
        law_laid_out_holds(
            indent,
            spellings[i],
            " "@,
            " "@,
            fields[i].1,
            true,
            none,
            fields[i].0,
        );
        lemma_usual_line_whole(indent, spellings[i], fields[i].1);
    }
    let all = seq![open] + lines;
    assert forall|i: int| 0 <= i < all.len() implies free_of(#[trigger] all[i], '\n')
        && without_cr(all[i]) == all[i] by {
        if i > 0 {
            assert(all[i] == lines[i - 1]);
        }
    }
    lemma_closing_row();
    law_closing_line_closes(none, none);
    assert(none + "}"@ + none =~= "}"@);
    law_entry_text_read(open, lines, "}"@, feed, kind, key, fields);
}

} // verus!
