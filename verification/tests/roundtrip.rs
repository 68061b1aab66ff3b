use citeseer::fields::FieldMap;
use citeseer::parse::parse_bibtex;
use citeseer::reference::{FieldType, Reference, ReferenceType};

fn reference(key: &str, kind: ReferenceType, fields: &[(FieldType, &str)]) -> Reference {
    let mut map = FieldMap::new();
    for (name, value) in fields {
        map.insert(*name, value.to_string());
    }
    Reference::new(key.to_string(), kind, map)
}

fn read_back(r: &Reference) -> Reference {
    let mut parsed = parse_bibtex(r.to_bibtex()).unwrap();
    assert_eq!(parsed.len(), 1);
    parsed.remove(0)
}

#[test]
fn an_article_is_read_back_as_it_was() {
    let r = reference(
        "Alam&Riccardi2014",
        ReferenceType::Article,
        &[
            (FieldType::Title, "Predicting {Personality} Traits, using = signs"),
            (FieldType::Author, "Alam, Firoj and Riccardi, Giuseppe"),
            (FieldType::Year, "2014"),
            (FieldType::Url, "https://doi.org/10.1145/2659522.2659531?x=1"),
            (FieldType::Pages, "15–18"),
            (FieldType::Note, "ends with a brace}"),
            (FieldType::Abstract, "{begins with one, ends with a comma,"),
            (FieldType::Keywords, ""),
        ],
    );
    assert_eq!(read_back(&r), r);
}

#[test]
fn another_type_comes_back_as_an_article() {
    let r = reference("k", ReferenceType::Book, &[(FieldType::Title, "T")]);
    let back = read_back(&r);
    assert_eq!(back.key(), r.key());
    assert_eq!(back.title(), r.title());
    assert_eq!(back.reference_type(), Some(&String::from("Article")));
    assert_eq!(back.fields.len(), r.fields.len());
    assert_ne!(back, r);
}

#[test]
fn an_entry_without_a_key_gets_its_author_as_key() {
    let mut map = FieldMap::new();
    map.insert(FieldType::Author, String::from("Plato"));
    map.insert(FieldType::Title, String::from("Politeia"));
    let r = Reference { fields: map };
    let back = read_back(&r);
    assert_eq!(back.key(), Some(&String::from("Plato")));
    assert_eq!(back.title(), r.title());
    assert_eq!(back.fields.get(&FieldType::Author), r.fields.get(&FieldType::Author));
}

#[test]
fn values_that_are_not_plain_are_not_read_back() {
    // a value that begins with whitespace comes back trimmed
    let r = reference("k", ReferenceType::Article, &[(FieldType::Title, " padded ")]);
    assert_eq!(read_back(&r).title(), Some(&String::from("padded")));
    // a value of two lines breaks the line of its field
    let r = reference("k", ReferenceType::Article, &[(FieldType::Title, "one\ntwo")]);
    assert_eq!(read_back(&r).title(), Some(&String::from("one")));
    // a key with a comma is cut there
    let r = reference("a,b", ReferenceType::Article, &[]);
    assert_eq!(read_back(&r).key(), Some(&String::from("a")));
}

#[test]
fn written_entries_of_every_type_are_read() {
    let kinds = [
        ("article", "Article"),
        ("BOOK", "Book"),
        ("InBook", "InBook"),
        ("incollection", "InCollection"),
        ("inproceedings", "InProceedings"),
        ("manual", "Manual"),
        ("mastersthesis", "Mastersthesis"),
        ("misc", "Misc"),
        ("phdthesis", "Phdthesis"),
        ("proceedings", "Proceedings"),
        ("techreport", "Techreport"),
        ("report", "Techreport"),
        ("unpublished", "Unpublished"),
    ];
    let mut text = String::new();
    for (i, (spelling, _)) in kinds.iter().enumerate() {
        text.push_str(&format!("@{}{{key{},\n    title = {{Title {}}},\n}}\n", spelling, i, i));
    }
    let parsed = parse_bibtex(text).unwrap();
    assert_eq!(parsed.len(), kinds.len());
    for (i, (_, shown)) in kinds.iter().enumerate() {
        assert_eq!(parsed[i].key(), Some(&format!("key{}", i)));
        assert_eq!(parsed[i].reference_type(), Some(&shown.to_string()));
        assert_eq!(parsed[i].title(), Some(&format!("Title {}", i)));
        assert_eq!(parsed[i].fields.len(), 3);
    }
}

#[test]
fn an_entry_in_another_layout_is_read() {
    let text = "@InBook{ my key ,\n  TITLE = {A Title},\n\tYear = {1999},\n  location = {dropped},\n\n  Issue = {4},\n}";
    let parsed = parse_bibtex(text.to_string()).unwrap();
    let expected = reference(
        " my key ",
        ReferenceType::InBook,
        &[(FieldType::Title, "A Title"), (FieldType::Year, "1999"), (FieldType::Number, "4")],
    );
    assert_eq!(parsed, vec![expected]);
    assert_eq!(parsed[0].fields.get(&FieldType::Author), None);
    assert_eq!(parsed[0].fields.len(), 5);
}

#[test]
fn a_key_with_spaces_at_its_ends_is_read_back() {
    let r = reference(" k ", ReferenceType::Misc, &[(FieldType::Title, "T")]);
    let back = read_back(&r);
    assert_eq!(back.key(), Some(&String::from(" k ")));
    assert_eq!(back.title(), r.title());
    assert_eq!(back.fields.len(), r.fields.len());
}
