use citeseer::author::{
    classify, extract_authors_from_string, format_author, format_authors, is_initials,
    is_initials_pattern, join, parse_split_author, Author, AuthorName, Glyph,
};
use citeseer::fields::FieldMap;
use citeseer::reference::{compare_optional, same_value, FieldType, Reference, ReferenceType};
use std::cmp::Ordering;

#[test]
fn test_extract_authors() {
    {
        let test_author = String::from("Smith, John");
        let extracted_authors = extract_authors_from_string(&test_author);
        let expected: Vec<Author> = vec![Author {
            name: AuthorName::FirstNameLastName {
                first_name: String::from("John"),
                last_name: String::from("Smith"),
            },
        }];

        assert_eq!(expected, extracted_authors);
    }
    {
        let test_author = String::from("John Smith");
        let extracted_authors = extract_authors_from_string(&test_author);
        let expected: Vec<Author> = vec![Author {
            name: AuthorName::FirstNameLastName {
                first_name: String::from("John"),
                last_name: String::from("Smith"),
            },
        }];

        assert_eq!(expected, extracted_authors);
    }
    {
        let test_author = String::from("Juan Pablo Fernández de Calderón García-Iglesias");
        let extracted_authors = extract_authors_from_string(&test_author);
        let expected: Vec<Author> = vec![Author {
            name: AuthorName::FullName(test_author),
        }];

        assert_eq!(expected, extracted_authors);
    }
    {
        let test_author = String::from("Marieke M.A. Hendriksen");
        let extracted_authors = extract_authors_from_string(&test_author);
        let expected: Vec<Author> = vec![Author {
            name: AuthorName::FirstNameLastName {
                first_name: String::from("Marieke M.A."),
                last_name: String::from("Hendriksen"),
            },
        }];

        assert_eq!(expected, extracted_authors);
    }
    {
        let test_author = String::from("Hendriksen, Marieke M.A.");
        let extracted_authors = extract_authors_from_string(&test_author);
        let expected: Vec<Author> = vec![Author {
            name: AuthorName::FirstNameLastName {
                first_name: String::from("Marieke M.A."),
                last_name: String::from("Hendriksen"),
            },
        }];

        assert_eq!(expected, extracted_authors);
    }
}

#[test]
fn test_is_initials() {
    {
        let test_string = String::from("");
        let result = is_initials(&test_string);
        assert_eq!(false, result);
    }
    {
        let test_string = String::from("A.B.");
        let result = is_initials(&test_string);
        assert_eq!(true, result);
    }
    {
        let test_string = String::from("AB");
        let result = is_initials(&test_string);
        assert_eq!(true, result);
    }
    {
        let test_string = String::from("DABS");
        let result = is_initials(&test_string);
        assert_eq!(true, result);
    }
    {
        let test_string = String::from("d.a.b.s.");
        let result = is_initials(&test_string);
        assert_eq!(true, result);
    }
    {
        let test_string = String::from("Pablo");
        let result = is_initials(&test_string);
        assert_eq!(false, result);
    }
    {
        let test_string = String::from("martin");
        let result = is_initials(&test_string);
        assert_eq!(false, result);
    }
}

fn first_last(first: &str, last: &str) -> Author {
    Author::new(first.to_string(), last.to_string())
}

fn chars(s: &str) -> Vec<char> {
    s.chars().collect()
}

#[test]
fn initials_go_by_characters_not_bytes() {
    // a letter of two bytes, then a period
    assert!(is_initials("É.A."));
    assert!(is_initials("é.a."));
    assert!(is_initials("ÉA"));
    assert!(is_initials("A"));
    // a letter without its period is no initial
    assert!(!is_initials("é.a"));
    assert!(!is_initials("a"));
    assert!(!is_initials("M.A"));
    assert!(!is_initials("."));
    assert!(!is_initials("A.."));
    assert!(!is_initials("A1"));
    assert!(!is_initials("Ab"));
}

#[test]
fn initials_pattern_on_given_glyphs() {
    let capital = Glyph { letter: true, capital: true, period: false };
    let small = Glyph { letter: true, capital: false, period: false };
    let period = Glyph { letter: false, capital: false, period: true };
    let other = Glyph { letter: false, capital: false, period: false };
    assert!(!is_initials_pattern(&[]));
    assert!(is_initials_pattern(&[capital, capital, capital]));
    assert!(is_initials_pattern(&[small, period, capital, period]));
    assert!(is_initials_pattern(&[small, period]));
    assert!(is_initials_pattern(&[capital]));
    assert!(!is_initials_pattern(&[small]));
    assert!(!is_initials_pattern(&[small, period, small]));
    assert!(!is_initials_pattern(&[capital, small]));
    assert!(!is_initials_pattern(&[period, small]));
    assert!(!is_initials_pattern(&[small, period, other]));
    // an uppercase character that is no letter is no capital letter
    assert!(!is_initials_pattern(&[Glyph { letter: false, capital: true, period: false }]));
}

#[test]
fn classify_reads_letters_case_and_periods() {
    assert_eq!(classify('A'), Glyph { letter: true, capital: true, period: false });
    assert_eq!(classify('z'), Glyph { letter: true, capital: false, period: false });
    assert_eq!(classify('.'), Glyph { letter: false, capital: false, period: true });
    assert_eq!(classify('7'), Glyph { letter: false, capital: false, period: false });
    assert_eq!(classify('Ö'), Glyph { letter: true, capital: true, period: false });
}

#[test]
fn authors_are_separated_by_and() {
    let authors = extract_authors_from_string(&String::from(
        "Alam, Firoj and Giuseppe Riccardi and Ludwig van Beethoven",
    ));
    assert_eq!(
        authors,
        vec![
            first_last("Firoj", "Alam"),
            first_last("Giuseppe", "Riccardi"),
            Author::new_from_full_name(String::from("Ludwig van Beethoven")),
        ]
    );
}

#[test]
fn author_edge_cases() {
    // the empty value is one author with an empty name
    assert_eq!(
        extract_authors_from_string(&String::new()),
        vec![Author::new_from_full_name(String::new())]
    );
    // one word
    assert_eq!(parse_split_author(&chars("Plato")), Author::new_from_full_name("Plato".into()));
    // with two commas the text before the first one is read by words
    assert_eq!(
        parse_split_author(&chars("John Smith, Jr., PhD")),
        first_last("John", "Smith")
    );
    assert_eq!(
        parse_split_author(&chars("Smith, John, Jr.")),
        Author::new_from_full_name("Smith".into())
    );
    // a name in one piece keeps its spaces
    assert_eq!(
        parse_split_author(&chars(" ab  cd   ef ")),
        Author::new_from_full_name(" ab  cd   ef ".into())
    );
    // a single small letter as second word is no initial, a capital or one with a period is
    assert_eq!(
        parse_split_author(&chars(" a  b   c ")),
        Author::new_from_full_name(" a  b   c ".into())
    );
    assert_eq!(parse_split_author(&chars(" a  B   c ")), first_last("a B", "c"));
    assert_eq!(parse_split_author(&chars(" a  b.   c ")), first_last("a b.", "c"));
    // the words of a first name are joined by single spaces
    assert_eq!(
        parse_split_author(&chars("  Jan   P.\tde\nWit ")),
        first_last("Jan P. de", "Wit")
    );
    // with one comma both sides are trimmed, and may be empty
    assert_eq!(parse_split_author(&chars(" , ")), first_last("", ""));
    // "and" needs a space on both sides
    assert_eq!(
        extract_authors_from_string(&String::from("Sand andand")),
        vec![first_last("Sand", "andand")]
    );
}

#[test]
fn join_puts_the_separator_between() {
    let a = chars("a");
    let b = chars("bc");
    let c = chars("");
    let parts: Vec<&[char]> = vec![&a, &b, &c];
    let sep = chars(", ");
    assert_eq!(join(&parts, 0, &sep), "");
    assert_eq!(join(&parts, 1, &sep), "a");
    assert_eq!(join(&parts, 2, &sep), "a, bc");
    assert_eq!(join(&parts, 3, &sep), "a, bc, ");
}

#[test]
fn format_author_keeps_the_initial() {
    assert_eq!(format_author(&first_last("John", "Smith")), "Smith, J");
    assert_eq!(format_author(&first_last("Marieke M.A.", "Hendriksen")), "Hendriksen, M");
    assert_eq!(format_author(&first_last("Émile", "Zola")), "Zola, É");
    assert_eq!(format_author(&first_last("", "Zola")), "Zola, \0");
    assert_eq!(
        format_author(&Author::new_from_full_name(String::from(
            "Juan Pablo Fernández de Calderón García-Iglesias"
        ))),
        "Juan Pablo Fernández de Calderón García-Iglesias"
    );
}

#[test]
fn format_authors_joins_with_semicolons() {
    assert_eq!(format_authors(&vec![]), "");
    assert_eq!(format_authors(&vec![first_last("John", "Smith")]), "Smith, J");
    assert_eq!(
        format_authors(&vec![
            first_last("John", "Smith"),
            Author::new_from_full_name("Plato".into()),
            first_last("Jane", "Doe"),
        ]),
        "Smith, J; Plato; Doe, J"
    );
}

fn reference(key: &str, fields: &[(FieldType, &str)]) -> Reference {
    let mut map = FieldMap::new();
    for (name, value) in fields {
        map.insert(*name, value.to_string());
    }
    Reference::new(key.to_string(), ReferenceType::Article, map)
}

#[test]
fn new_reference_mirrors_key_and_type() {
    let r = Reference::new(String::from("k1"), ReferenceType::InBook, FieldMap::new());
    assert_eq!(r.key(), Some(&String::from("k1")));
    assert_eq!(r.reference_type(), Some(&String::from("InBook")));
    assert_eq!(r.title(), None);
    assert_eq!(r.year(), None);
    assert_eq!(r.fields.len(), 2);
    // a key and a type among the fields are overwritten
    let r = reference("real", &[(FieldType::Key, "fake"), (FieldType::Type, "Fake")]);
    assert_eq!(r.key(), Some(&String::from("real")));
    assert_eq!(r.reference_type(), Some(&String::from("Article")));
    assert_eq!(r.fields.len(), 2);
}

#[test]
fn as_array_follows_the_headers() {
    let r = reference("k", &[(FieldType::Title, "T"), (FieldType::Year, "1984")]);
    let cells = r.as_array(&vec![
        FieldType::Year,
        FieldType::Author,
        FieldType::Key,
        FieldType::Year,
        FieldType::Type,
    ]);
    assert_eq!(
        cells,
        vec![
            Some(String::from("1984")),
            None,
            Some(String::from("k")),
            Some(String::from("1984")),
            Some(String::from("Article")),
        ]
    );
    assert_eq!(r.as_array(&vec![]), Vec::<Option<String>>::new());
}

#[test]
fn formatted_author_of_a_reference() {
    let r = reference("k", &[(FieldType::Author, "Alam, Firoj and Riccardi, Giuseppe")]);
    assert_eq!(r.formatted_author(), Some(String::from("Alam, F; Riccardi, G")));
    let r = reference("k", &[(FieldType::Author, "John Smith")]);
    assert_eq!(r.formatted_author(), Some(String::from("Smith, J")));
    let r = reference("k", &[(FieldType::Title, "No author")]);
    assert_eq!(r.formatted_author(), None);
}

#[test]
fn to_bibtex_writes_every_field_under_article() {
    let mut map = FieldMap::new();
    map.insert(FieldType::Title, String::from("A Title"));
    map.insert(FieldType::Year, String::from("2020"));
    let r = Reference::new(String::from("key1"), ReferenceType::Book, map);
    assert_eq!(
        r.to_bibtex(),
        "@article{key1,\n    title = {A Title},\n    year = {2020},\n    key = {key1},\n    type = {Book},\n}\n"
    );
}

#[test]
fn to_bibtex_without_a_key_takes_the_author() {
    let mut map = FieldMap::new();
    map.insert(FieldType::Author, String::from("Doe, Jane"));
    let r = Reference { fields: map };
    assert_eq!(r.to_bibtex(), "@article{Doe, Jane,\n    author = {Doe, Jane},\n}\n");
    let r = Reference { fields: FieldMap::new() };
    assert_eq!(r.to_bibtex(), "@article{,\n}\n");
}

#[test]
fn references_are_equal_whatever_the_order_of_their_fields() {
    let a = reference("k", &[(FieldType::Title, "T"), (FieldType::Year, "1")]);
    let b = reference("k", &[(FieldType::Year, "1"), (FieldType::Title, "T")]);
    assert_eq!(a, b);
    assert_eq!(b, a);
    let c = reference("k", &[(FieldType::Title, "T")]);
    assert_ne!(a, c);
    assert_ne!(c, a);
    let d = reference("other", &[(FieldType::Title, "T"), (FieldType::Year, "1")]);
    assert_ne!(a, d);
    let e = reference("k", &[(FieldType::Title, "T"), (FieldType::Year, "2")]);
    assert_ne!(a, e);
    assert_eq!(a.clone(), a);
    assert_eq!(
        Reference { fields: FieldMap::new() },
        Reference { fields: FieldMap::new() }
    );
}

#[test]
fn references_are_ordered_by_their_author_field() {
    let none = reference("z", &[]);
    let adams = reference("y", &[(FieldType::Author, "Adams")]);
    let adamson = reference("x", &[(FieldType::Author, "Adamson")]);
    let baker = reference("w", &[(FieldType::Author, "Baker")]);
    let small = reference("v", &[(FieldType::Author, "adams")]);
    let accent = reference("u", &[(FieldType::Author, "Ébert")]);
    assert_eq!(none.cmp(&adams), Ordering::Less);
    assert_eq!(adams.cmp(&none), Ordering::Greater);
    assert_eq!(none.cmp(&reference("a", &[])), Ordering::Equal);
    assert_eq!(adams.cmp(&adamson), Ordering::Less);
    assert_eq!(adamson.cmp(&baker), Ordering::Less);
    assert_eq!(baker.cmp(&adams), Ordering::Greater);
    assert_eq!(baker.cmp(&small), Ordering::Less);
    assert_eq!(small.cmp(&accent), Ordering::Less);
    assert_eq!(adams.cmp(&reference("q", &[(FieldType::Author, "Adams")])), Ordering::Equal);
    assert_eq!(adams.partial_cmp(&adamson), Some(Ordering::Less));
    assert!(adams < baker);
    assert!(baker > none);
    assert!(adams <= adams.clone());
}

#[test]
fn compare_optional_agrees_with_the_standard_order() {
    let texts = ["", "a", "A", "ab", "b", "é", "z", "Ω", "a b", "\u{10000}", "\u{ffff}"];
    for x in texts {
        for y in texts {
            let (x, y) = (x.to_string(), y.to_string());
            assert_eq!(compare_optional(Some(&x), Some(&y)), x.cmp(&y));
            assert_eq!(compare_optional(None, Some(&y)), Ordering::Less);
            assert_eq!(compare_optional(Some(&x), None), Ordering::Greater);
        }
    }
    assert_eq!(compare_optional(None, None), Ordering::Equal);
}

#[test]
fn same_value_compares_texts() {
    let (a, b) = (String::from("a"), String::from("b"));
    assert!(same_value(None, None));
    assert!(same_value(Some(&a), Some(&a.clone())));
    assert!(!same_value(Some(&a), Some(&b)));
    assert!(!same_value(Some(&a), None));
    assert!(!same_value(None, Some(&b)));
}
