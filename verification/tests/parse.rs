use citeseer::fields::FieldMap;
use citeseer::parse::{
    parse_bibtex, parse_reference_type, strip_optional_prefix, strip_optional_suffix, Parser,
};
use citeseer::reference::{FieldType, Reference, ReferenceType};

fn chars(s: &str) -> Vec<char> {
    s.chars().collect()
}

#[test]
fn test_parse_bibtex() {
    {
        let test_bibtex = r#"@inproceedings{Alam&Riccardi2014,
              title     = {Predicting Personality Traits using Multimodal Information},
              author    = {Alam, Firoj and Riccardi, Giuseppe},
              year      = 2014,
              booktitle = {Proceedings of the 2014 ACM Multi Media on Workshop on Computational Personality Recognition},
              location  = {Orlando, Florida, USA},
              publisher = {Association for Computing Machinery},
              address   = {New York, NY, USA},
              series    = {WCPR '14},
              pages     = {15–18},
              doi       = {10.1145/2659522.2659531},
              isbn      = 9781450331296,
              url       = {https://doi.org/10.1145/2659522.2659531},
              abstract  = {Measuring personality traits has a long story in psychology where analysis has been done by asking sets of questions. These question sets (inventories) have been designed by investigating lexical terms that we use in our daily communications or by analyzing biological phenomena. Whether consciously or unconsciously we express our thoughts and behaviors when communicating with others, either verbally, non-verbally or using visual expressions. Recently, research in behavioral signal processing has focused on automatically measuring personality traits using different behavioral cues that appear in our daily communication. In this study, we present an approach to automatically recognize personality traits using a video-blog (vlog) corpus, consisting of transcription and extracted audio-visual features. We analyzed linguistic, psycholinguistic and emotional features in addition to the audio-visual features provided with the dataset. We also studied whether we can better predict a trait by identifying other traits. Using our best models we obtained very promising results compared to the official baseline.},
              numpages  = 4,
              keywords  = {behavioral signal processing, multimodal personality recognition}
          }"#;
        let mut fields = FieldMap::new();
        fields.insert(
            FieldType::Title,
            String::from("Predicting Personality Traits using Multimodal Information"),
        );
        fields.insert(
            FieldType::Author,
            String::from("Alam, Firoj and Riccardi, Giuseppe"),
        );
        fields.insert(FieldType::Year, String::from("2014"));
        fields.insert(FieldType::Booktitle, String::from("Proceedings of the 2014 ACM Multi Media on Workshop on Computational Personality Recognition"));
        fields.insert(
            FieldType::Publisher,
            String::from("Association for Computing Machinery"),
        );
        fields.insert(FieldType::Address, String::from("New York, NY, USA"));
        fields.insert(FieldType::Series, String::from("WCPR '14"));
        fields.insert(FieldType::Pages, String::from("15–18"));
        fields.insert(FieldType::Doi, String::from("10.1145/2659522.2659531"));
        fields.insert(FieldType::Isbn, String::from("9781450331296"));
        fields.insert(
            FieldType::Url,
            String::from("https://doi.org/10.1145/2659522.2659531"),
        );
        fields.insert(FieldType::Abstract, String::from("Measuring personality traits has a long story in psychology where analysis has been done by asking sets of questions. These question sets (inventories) have been designed by investigating lexical terms that we use in our daily communications or by analyzing biological phenomena. Whether consciously or unconsciously we express our thoughts and behaviors when communicating with others, either verbally, non-verbally or using visual expressions. Recently, research in behavioral signal processing has focused on automatically measuring personality traits using different behavioral cues that appear in our daily communication. In this study, we present an approach to automatically recognize personality traits using a video-blog (vlog) corpus, consisting of transcription and extracted audio-visual features. We analyzed linguistic, psycholinguistic and emotional features in addition to the audio-visual features provided with the dataset. We also studied whether we can better predict a trait by identifying other traits. Using our best models we obtained very promising results compared to the official baseline."));
        fields.insert(
            FieldType::Keywords,
            String::from("behavioral signal processing, multimodal personality recognition"),
        );

        let expected = Reference::new(
            String::from("Alam&Riccardi2014"),
            ReferenceType::InProceedings,
            fields,
        );

        let parsed_bibtex = parse_bibtex(test_bibtex.to_string()).unwrap();
        let actual = parsed_bibtex
            .first()
            .expect("Failed to parse bibtex: parsing returned 0 references")
            .to_owned();

        assert_eq!(expected, actual);
    }
}

#[test]
fn parse_empty_text_gives_no_entries() {
    assert_eq!(parse_bibtex(String::new()), Ok(vec![]));
    assert_eq!(parse_bibtex(String::from("\n\n   \n")), Ok(vec![]));
}

#[test]
fn parse_text_without_entries_succeeds() {
    let text = "this is = not in an entry\nneither is this\n";
    assert_eq!(parse_bibtex(text.to_string()), Ok(vec![]));
}

#[test]
fn parse_unknown_type_fails_with_its_name() {
    let text = "@Patent{patent,\n  title = {A thing},\n}\n";
    assert_eq!(
        parse_bibtex(text.to_string()),
        Err(String::from("Failed to parse reference type: Patent"))
    );
}

#[test]
fn parse_unknown_type_fails_the_whole_document() {
    let text = "@article{a1,\n  title = {First},\n}\n@nonsense{b2,\n  title = {Second},\n}\n@book{c3,\n}\n";
    assert_eq!(
        parse_bibtex(text.to_string()),
        Err(String::from("Failed to parse reference type: nonsense"))
    );
}

#[test]
fn parse_unknown_type_fails_at_its_opening_line() {
    let text = "@nonsense{b2,\n  title = {Second},\n";
    assert_eq!(
        parse_bibtex(text.to_string()),
        Err(String::from("Failed to parse reference type: nonsense"))
    );
    assert_eq!(
        parse_bibtex(String::from("@foo{k,")),
        Err(String::from("Failed to parse reference type: foo"))
    );
    // a later opening line does not hide the error
    let text = "@foo{k,\n@article{a,\n}\n";
    assert_eq!(
        parse_bibtex(text.to_string()),
        Err(String::from("Failed to parse reference type: foo"))
    );
}

#[test]
fn parse_closing_line_before_any_entry_fails() {
    let text = "title = {Stray},\n}\n@article{a,\n}\n";
    assert_eq!(
        parse_bibtex(text.to_string()),
        Err(String::from("Failed to parse reference type"))
    );
}

#[test]
fn parse_two_entries_in_order() {
    let text = "@article{first,\n  title = {One},\n}\n\n@BOOK{second,\n  title = {Two},\n  year = 1999\n}\n";
    let parsed = parse_bibtex(text.to_string()).unwrap();
    assert_eq!(parsed.len(), 2);
    assert_eq!(parsed[0].key(), Some(&String::from("first")));
    assert_eq!(parsed[0].reference_type(), Some(&String::from("Article")));
    assert_eq!(parsed[0].title(), Some(&String::from("One")));
    assert_eq!(parsed[0].year(), None);
    assert_eq!(parsed[1].key(), Some(&String::from("second")));
    assert_eq!(parsed[1].reference_type(), Some(&String::from("Book")));
    assert_eq!(parsed[1].title(), Some(&String::from("Two")));
    assert_eq!(parsed[1].year(), Some(&String::from("1999")));
}

#[test]
fn parse_report_is_a_techreport() {
    let text = "@report{r,\n}\n";
    let parsed = parse_bibtex(text.to_string()).unwrap();
    assert_eq!(parsed[0].reference_type(), Some(&String::from("Techreport")));
}

#[test]
fn parse_drops_unknown_fields_and_lines_without_equals() {
    let text = "@misc{m,\n  location = {Nowhere},\n  this line has no equals sign\n  note = {kept},\n}\n";
    let parsed = parse_bibtex(text.to_string()).unwrap();
    let mut fields = FieldMap::new();
    fields.insert(FieldType::Note, String::from("kept"));
    let expected = Reference::new(String::from("m"), ReferenceType::Misc, fields);
    assert_eq!(parsed, vec![expected]);
    assert_eq!(parsed[0].fields.len(), 3);
}

#[test]
fn parse_field_names_without_regard_to_case() {
    let text = "@article{k,\n  TITLE = {Loud},\n  Author = {Doe, Jane},\n}\n";
    let parsed = parse_bibtex(text.to_string()).unwrap();
    assert_eq!(parsed[0].title(), Some(&String::from("Loud")));
    assert_eq!(
        parsed[0].fields.get(&FieldType::Author),
        Some(&String::from("Doe, Jane"))
    );
}

#[test]
fn parse_later_value_overwrites_and_issue_is_number() {
    let text = "@article{k,\n  number = {1},\n  title = {Old},\n  issue = {2},\n  title = {New},\n}\n";
    let parsed = parse_bibtex(text.to_string()).unwrap();
    assert_eq!(parsed[0].fields.get(&FieldType::Number), Some(&String::from("2")));
    assert_eq!(parsed[0].title(), Some(&String::from("New")));
    // the key and the type come on top of the two fields
    assert_eq!(parsed[0].fields.len(), 4);
}

#[test]
fn parse_value_is_split_at_the_first_equals_sign_only() {
    let text = "@misc{k,\n  url = {https://example.org/?a=1&b=2},\n}\n";
    let parsed = parse_bibtex(text.to_string()).unwrap();
    assert_eq!(
        parsed[0].fields.get(&FieldType::Url),
        Some(&String::from("https://example.org/?a=1&b=2"))
    );
}

#[test]
fn parse_value_loses_one_brace_one_comma_one_brace_and_is_trimmed() {
    let text = "@misc{k,\n  title = {{Braced}},\n  note = { spaced },\n  year = 2001\n  month = {may}\n}\n";
    let parsed = parse_bibtex(text.to_string()).unwrap();
    assert_eq!(parsed[0].title(), Some(&String::from("{Braced}")));
    assert_eq!(parsed[0].fields.get(&FieldType::Note), Some(&String::from("spaced")));
    assert_eq!(parsed[0].year(), Some(&String::from("2001")));
    assert_eq!(parsed[0].fields.get(&FieldType::Month), Some(&String::from("may")));
}

#[test]
fn parse_key_ends_at_the_first_comma() {
    let text = "@article{a{b,c,\n}\n@article{nocomma\n}\n@article\n}\n";
    let parsed = parse_bibtex(text.to_string()).unwrap();
    assert_eq!(parsed[0].key(), Some(&String::from("a{b")));
    assert_eq!(parsed[1].key(), Some(&String::from("nocomma")));
    assert_eq!(parsed[2].key(), Some(&String::from("")));
}

#[test]
fn parse_fields_before_the_first_entry_join_it() {
    let text = "note = {early}\n@article{k,\n}\n";
    let parsed = parse_bibtex(text.to_string()).unwrap();
    assert_eq!(parsed[0].fields.get(&FieldType::Note), Some(&String::from("early")));
}

#[test]
fn parse_indented_lines_are_told_by_their_first_character() {
    let text = "  @article{k,\n    title = {T},\n  }";
    let mut fields = FieldMap::new();
    fields.insert(FieldType::Title, String::from("T"));
    let expected = Reference::new(String::from("k"), ReferenceType::Article, fields);
    assert_eq!(parse_bibtex(text.to_string()), Ok(vec![expected]));
    let text = "\t@book{k,\n}\n";
    let parsed = parse_bibtex(text.to_string()).unwrap();
    assert_eq!(parsed[0].key(), Some(&String::from("k")));
    assert_eq!(parsed[0].reference_type(), Some(&String::from("Book")));
}

#[test]
fn parse_closing_line_may_be_indented_and_go_on() {
    let text = "@book{k,\n  title = {T},\n\t } and more\n";
    let parsed = parse_bibtex(text.to_string()).unwrap();
    assert_eq!(parsed.len(), 1);
    assert_eq!(parsed[0].title(), Some(&String::from("T")));
}

#[test]
fn parse_carriage_returns_end_lines_too() {
    let text = "@book{k\r\n  title = {T},\r\n}\r\n";
    let parsed = parse_bibtex(text.to_string()).unwrap();
    assert_eq!(parsed[0].key(), Some(&String::from("k")));
    assert_eq!(parsed[0].title(), Some(&String::from("T")));
}

#[test]
fn parse_type_with_trailing_space_is_unknown() {
    let text = "@article {k,\n}\n";
    assert_eq!(
        parse_bibtex(text.to_string()),
        Err(String::from("Failed to parse reference type: article "))
    );
}

#[test]
fn parser_can_be_fed_line_by_line() {
    let mut parser = Parser::new();
    assert_eq!(parser.feed(&chars("@article{k,")), Ok(()));
    assert_eq!(parser.key, "k");
    assert_eq!(parser.kind, Ok(ReferenceType::Article));
    assert_eq!(parser.feed(&chars("  year = 1")), Ok(()));
    assert_eq!(parser.fields.len(), 1);
    assert_eq!(parser.feed(&chars("}")), Ok(()));
    assert_eq!(parser.fields.len(), 0);
    assert_eq!(parser.references.len(), 1);
    assert_eq!(
        parser.feed(&chars("@what{other,")),
        Err(String::from("Failed to parse reference type: what"))
    );
    // the reader is left as it was
    assert_eq!(parser.key, "k");
    assert_eq!(parser.kind, Ok(ReferenceType::Article));
    assert_eq!(parser.references.len(), 1);
}

#[test]
fn reference_type_may_begin_with_at() {
    assert_eq!(parse_reference_type("@PhdThesis"), Ok(ReferenceType::Phdthesis));
    assert_eq!(parse_reference_type("phdthesis"), Ok(ReferenceType::Phdthesis));
    assert_eq!(
        parse_reference_type("@@book"),
        Err(String::from("Failed to parse reference type: @book"))
    );
}

#[test]
fn optional_prefix_and_suffix() {
    assert_eq!(strip_optional_prefix("{abc}", "{"), "abc}");
    assert_eq!(strip_optional_prefix("abc}", "{"), "abc}");
    assert_eq!(strip_optional_prefix("{{abc", "{"), "{abc");
    assert_eq!(strip_optional_prefix("", "{"), "");
    assert_eq!(strip_optional_prefix("é{", "é"), "{");
    assert_eq!(strip_optional_suffix("abc,", ","), "abc");
    assert_eq!(strip_optional_suffix("abc", ","), "abc");
    assert_eq!(strip_optional_suffix("abc}}", "}"), "abc}");
    assert_eq!(strip_optional_suffix("", "}"), "");
    assert_eq!(strip_optional_suffix("aé", "é"), "a");
}
