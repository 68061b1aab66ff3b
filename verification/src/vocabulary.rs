//! The vocabulary of BibTeX: the entry types and the field names that the catalog knows.
//!
//! Both are closed sets. Text is matched against their tables without regard to case; a field
//! name may have more than one spelling.

use crate::text::{equals_str, to_chars};
use crate::unicode::{ascii_lower, is_ascii, lowercase};
use vstd::prelude::*;
use vstd::string::StringExecFns;

verus! {

/// A field name of an entry.
#[derive(Debug, Clone, Copy, PartialEq, Eq, Hash, Structural)]
pub enum FieldType {
    Abstract,
    Address,
    Annote,
    Author,
    Booktitle,
    Chapter,
    Crossref,
    Day,
    Doi,
    Edition,
    Editor,
    Eprint,
    Howpublished,
    Institution,
    Isbn,
    Issn,
    Journal,
    Key,
    Keywords,
    Month,
    Note,
    Number,
    Organization,
    Pages,
    Pmid,
    Publisher,
    School,
    Series,
    Title,
    Type,
    Url,
    UrlDate,
    Volume,
    Year,
}

/// The type of an entry.
#[derive(Debug, Clone, Copy, PartialEq, Eq, Hash, Structural)]
pub enum ReferenceType {
    Article,
    Book,
    InBook,
    InCollection,
    InProceedings,
    Manual,
    Mastersthesis,
    Misc,
    Phdthesis,
    Proceedings,
    Techreport,
    Unpublished,
}

impl FieldType {
    /// The name under which the field is written.
    pub open spec fn name(self) -> Seq<char> {
        match self {
            FieldType::Abstract => "abstract"@,
            FieldType::Address => "address"@,
            FieldType::Annote => "annote"@,
            FieldType::Author => "author"@,
            FieldType::Booktitle => "booktitle"@,
            FieldType::Chapter => "chapter"@,
            FieldType::Crossref => "crossref"@,
            FieldType::Day => "day"@,
            FieldType::Doi => "doi"@,
            FieldType::Edition => "edition"@,
            FieldType::Editor => "editor"@,
            FieldType::Eprint => "eprint"@,
            FieldType::Howpublished => "howpublished"@,
            FieldType::Institution => "institution"@,
            FieldType::Isbn => "isbn"@,
            FieldType::Issn => "issn"@,
            FieldType::Journal => "journal"@,
            FieldType::Key => "key"@,
            FieldType::Keywords => "keywords"@,
            FieldType::Month => "month"@,
            FieldType::Note => "note"@,
            FieldType::Number => "number"@,
            FieldType::Organization => "organization"@,
            FieldType::Pages => "pages"@,
            FieldType::Pmid => "pmid"@,
            FieldType::Publisher => "publisher"@,
            FieldType::School => "school"@,
            FieldType::Series => "series"@,
            FieldType::Title => "title"@,
            FieldType::Type => "type"@,
            FieldType::Url => "url"@,
            FieldType::UrlDate => "urldate"@,
            FieldType::Volume => "volume"@,
            FieldType::Year => "year"@,
        }
    }

    /// The field that the lowercase spelling `name` stands for.
    pub open spec fn named(name: Seq<char>) -> Option<FieldType> {
        if name == "abstract"@ {
            Some(FieldType::Abstract)
        } else if name == "address"@ {
            Some(FieldType::Address)
        } else if name == "annote"@ {
            Some(FieldType::Annote)
        } else if name == "author"@ {
            Some(FieldType::Author)
        } else if name == "booktitle"@ {
            Some(FieldType::Booktitle)
        } else if name == "chapter"@ {
            Some(FieldType::Chapter)
        } else if name == "crossref"@ {
            Some(FieldType::Crossref)
        } else if name == "day"@ {
            Some(FieldType::Day)
        } else if name == "doi"@ {
            Some(FieldType::Doi)
        } else if name == "edition"@ {
            Some(FieldType::Edition)
        } else if name == "editor"@ {
            Some(FieldType::Editor)
        } else if name == "eprint"@ {
            Some(FieldType::Eprint)
        } else if name == "howpublished"@ {
            Some(FieldType::Howpublished)
        } else if name == "institution"@ {
            Some(FieldType::Institution)
        } else if name == "isbn"@ {
            Some(FieldType::Isbn)
        } else if name == "issn"@ {
            Some(FieldType::Issn)
        } else if name == "journal"@ {
            Some(FieldType::Journal)
        } else if name == "key"@ {
            Some(FieldType::Key)
        } else if name == "keywords"@ {
            Some(FieldType::Keywords)
        } else if name == "month"@ {
            Some(FieldType::Month)
        } else if name == "note"@ {
            Some(FieldType::Note)
        } else if name == "number"@ {
            Some(FieldType::Number)
        } else if name == "issue"@ {
            Some(FieldType::Number)
        } else if name == "organization"@ {
            Some(FieldType::Organization)
        } else if name == "pages"@ {
            Some(FieldType::Pages)
        } else if name == "pmid"@ {
            Some(FieldType::Pmid)
        } else if name == "publisher"@ {
            Some(FieldType::Publisher)
        } else if name == "school"@ {
            Some(FieldType::School)
        } else if name == "series"@ {
            Some(FieldType::Series)
        } else if name == "title"@ {
            Some(FieldType::Title)
        } else if name == "type"@ {
            Some(FieldType::Type)
        } else if name == "url"@ {
            Some(FieldType::Url)
        } else if name == "urldate"@ {
            Some(FieldType::UrlDate)
        } else if name == "volume"@ {
            Some(FieldType::Volume)
        } else if name == "year"@ {
            Some(FieldType::Year)
        } else {
            None
        }
    }

    /// The field that `s` names, whatever the case of its letters.
    pub open spec fn spelled(s: Seq<char>) -> Option<FieldType> {
        FieldType::named(lowercase(s))
    }

    /// The name of the field, in lowercase.
    pub fn to_string(&self) -> (s: String)
        ensures
            s@ == self.name(),
    {
        match self {
            FieldType::Abstract => String::from_str("abstract"),
            FieldType::Address => String::from_str("address"),
            FieldType::Annote => String::from_str("annote"),
            FieldType::Author => String::from_str("author"),
            FieldType::Booktitle => String::from_str("booktitle"),
            FieldType::Chapter => String::from_str("chapter"),
            FieldType::Crossref => String::from_str("crossref"),
            FieldType::Day => String::from_str("day"),
            FieldType::Doi => String::from_str("doi"),
            FieldType::Edition => String::from_str("edition"),
            FieldType::Editor => String::from_str("editor"),
            FieldType::Eprint => String::from_str("eprint"),
            FieldType::Howpublished => String::from_str("howpublished"),
            FieldType::Institution => String::from_str("institution"),
            FieldType::Isbn => String::from_str("isbn"),
            FieldType::Issn => String::from_str("issn"),
            FieldType::Journal => String::from_str("journal"),
            FieldType::Key => String::from_str("key"),
            FieldType::Keywords => String::from_str("keywords"),
            FieldType::Month => String::from_str("month"),
            FieldType::Note => String::from_str("note"),
            FieldType::Number => String::from_str("number"),
            FieldType::Organization => String::from_str("organization"),
            FieldType::Pages => String::from_str("pages"),
            FieldType::Pmid => String::from_str("pmid"),
            FieldType::Publisher => String::from_str("publisher"),
            FieldType::School => String::from_str("school"),
            FieldType::Series => String::from_str("series"),
            FieldType::Title => String::from_str("title"),
            FieldType::Type => String::from_str("type"),
            FieldType::Url => String::from_str("url"),
            FieldType::UrlDate => String::from_str("urldate"),
            FieldType::Volume => String::from_str("volume"),
            FieldType::Year => String::from_str("year"),
        }
    }

    /// Looks `name` up in the table of spellings, which are in lowercase.
    pub fn from_lowercase(name: &[char]) -> (r: Option<FieldType>)
        ensures
            r == FieldType::named(name@),
    {
        if equals_str(name, "abstract") {
            Some(FieldType::Abstract)
        } else if equals_str(name, "address") {
            Some(FieldType::Address)
        } else if equals_str(name, "annote") {
            Some(FieldType::Annote)
        } else if equals_str(name, "author") {
            Some(FieldType::Author)
        } else if equals_str(name, "booktitle") {
            Some(FieldType::Booktitle)
        } else if equals_str(name, "chapter") {
            Some(FieldType::Chapter)
        } else if equals_str(name, "crossref") {
            Some(FieldType::Crossref)
        } else if equals_str(name, "day") {
            Some(FieldType::Day)
        } else if equals_str(name, "doi") {
            Some(FieldType::Doi)
        } else if equals_str(name, "edition") {
            Some(FieldType::Edition)
        } else if equals_str(name, "editor") {
            Some(FieldType::Editor)
        } else if equals_str(name, "eprint") {
            Some(FieldType::Eprint)
        } else if equals_str(name, "howpublished") {
            Some(FieldType::Howpublished)
        } else if equals_str(name, "institution") {
            Some(FieldType::Institution)
        } else if equals_str(name, "isbn") {
            Some(FieldType::Isbn)
        } else if equals_str(name, "issn") {
            Some(FieldType::Issn)
        } else if equals_str(name, "journal") {
            Some(FieldType::Journal)
        } else if equals_str(name, "key") {
            Some(FieldType::Key)
        } else if equals_str(name, "keywords") {
            Some(FieldType::Keywords)
        } else if equals_str(name, "month") {
            Some(FieldType::Month)
        } else if equals_str(name, "note") {
            Some(FieldType::Note)
        } else if equals_str(name, "number") {
            Some(FieldType::Number)
        } else if equals_str(name, "issue") {
            Some(FieldType::Number)
        } else if equals_str(name, "organization") {
            Some(FieldType::Organization)
        } else if equals_str(name, "pages") {
            Some(FieldType::Pages)
        } else if equals_str(name, "pmid") {
            Some(FieldType::Pmid)
        } else if equals_str(name, "publisher") {
            Some(FieldType::Publisher)
        } else if equals_str(name, "school") {
            Some(FieldType::School)
        } else if equals_str(name, "series") {
            Some(FieldType::Series)
        } else if equals_str(name, "title") {
            Some(FieldType::Title)
        } else if equals_str(name, "type") {
            Some(FieldType::Type)
        } else if equals_str(name, "url") {
            Some(FieldType::Url)
        } else if equals_str(name, "urldate") {
            Some(FieldType::UrlDate)
        } else if equals_str(name, "volume") {
            Some(FieldType::Volume)
        } else if equals_str(name, "year") {
            Some(FieldType::Year)
        } else {
            None
        }
    }

    /// The field that `s` names, whatever the case of its letters; `None` where the name is
    /// not in the table.
    pub fn parse(s: &str) -> (r: Option<FieldType>)
        ensures
            r == FieldType::spelled(s@),
    {
        let lower = s.to_lowercase();
        let chars = to_chars(lower.as_str());
        FieldType::from_lowercase(chars.as_slice())
    }
}

impl ReferenceType {
    /// The name under which the type is shown.
    pub open spec fn name(self) -> Seq<char> {
        match self {
            ReferenceType::Article => "Article"@,
            ReferenceType::Book => "Book"@,
            ReferenceType::InBook => "InBook"@,
            ReferenceType::InCollection => "InCollection"@,
            ReferenceType::InProceedings => "InProceedings"@,
            ReferenceType::Manual => "Manual"@,
            ReferenceType::Mastersthesis => "Mastersthesis"@,
            ReferenceType::Misc => "Misc"@,
            ReferenceType::Phdthesis => "Phdthesis"@,
            ReferenceType::Proceedings => "Proceedings"@,
            ReferenceType::Techreport => "Techreport"@,
            ReferenceType::Unpublished => "Unpublished"@,
        }
    }

    /// The type that the lowercase spelling `name` stands for.
    pub open spec fn named(name: Seq<char>) -> Option<ReferenceType> {
        if name == "article"@ {
            Some(ReferenceType::Article)
        } else if name == "book"@ {
            Some(ReferenceType::Book)
        } else if name == "inbook"@ {
            Some(ReferenceType::InBook)
        } else if name == "incollection"@ {
            Some(ReferenceType::InCollection)
        } else if name == "inproceedings"@ {
            Some(ReferenceType::InProceedings)
        } else if name == "manual"@ {
            Some(ReferenceType::Manual)
        } else if name == "mastersthesis"@ {
            Some(ReferenceType::Mastersthesis)
        } else if name == "misc"@ {
            Some(ReferenceType::Misc)
        } else if name == "phdthesis"@ {
            Some(ReferenceType::Phdthesis)
        } else if name == "proceedings"@ {
            Some(ReferenceType::Proceedings)
        } else if name == "techreport"@ {
            Some(ReferenceType::Techreport)
        } else if name == "report"@ {
            Some(ReferenceType::Techreport)
        } else if name == "unpublished"@ {
            Some(ReferenceType::Unpublished)
        } else {
            None
        }
    }

    /// What is reported of a type name `s` that is not in the table.
    pub open spec fn unknown(s: Seq<char>) -> Seq<char> {
        "Failed to parse reference type: "@ + s
    }

    /// The type that `s` names, whatever the case of its letters, or the report that it names
    /// none.
    pub open spec fn spelled(s: Seq<char>) -> Result<ReferenceType, Seq<char>> {
        match ReferenceType::named(lowercase(s)) {
            Some(t) => Ok(t),
            None => Err(ReferenceType::unknown(s)),
        }
    }

    /// The name of the type, as it is shown.
    pub fn to_string(&self) -> (s: String)
        ensures
            s@ == self.name(),
    {
        match self {
            ReferenceType::Article => String::from_str("Article"),
            ReferenceType::Book => String::from_str("Book"),
            ReferenceType::InBook => String::from_str("InBook"),
            ReferenceType::InCollection => String::from_str("InCollection"),
            ReferenceType::InProceedings => String::from_str("InProceedings"),
            ReferenceType::Manual => String::from_str("Manual"),
            ReferenceType::Mastersthesis => String::from_str("Mastersthesis"),
            ReferenceType::Misc => String::from_str("Misc"),
            ReferenceType::Phdthesis => String::from_str("Phdthesis"),
            ReferenceType::Proceedings => String::from_str("Proceedings"),
            ReferenceType::Techreport => String::from_str("Techreport"),
            ReferenceType::Unpublished => String::from_str("Unpublished"),
        }
    }

    /// Looks `name` up in the table of spellings, which are in lowercase.
    pub fn from_lowercase(name: &[char]) -> (r: Option<ReferenceType>)
        ensures
            r == ReferenceType::named(name@),
    {
        if equals_str(name, "article") {
            Some(ReferenceType::Article)
        } else if equals_str(name, "book") {
            Some(ReferenceType::Book)
        } else if equals_str(name, "inbook") {
            Some(ReferenceType::InBook)
        } else if equals_str(name, "incollection") {
            Some(ReferenceType::InCollection)
        } else if equals_str(name, "inproceedings") {
            Some(ReferenceType::InProceedings)
        } else if equals_str(name, "manual") {
            Some(ReferenceType::Manual)
        } else if equals_str(name, "mastersthesis") {
            Some(ReferenceType::Mastersthesis)
        } else if equals_str(name, "misc") {
            Some(ReferenceType::Misc)
        } else if equals_str(name, "phdthesis") {
            Some(ReferenceType::Phdthesis)
        } else if equals_str(name, "proceedings") {
            Some(ReferenceType::Proceedings)
        } else if equals_str(name, "techreport") {
            Some(ReferenceType::Techreport)
        } else if equals_str(name, "report") {
            Some(ReferenceType::Techreport)
        } else if equals_str(name, "unpublished") {
            Some(ReferenceType::Unpublished)
        } else {
            None
        }
    }

    /// The type that `s` names, whatever the case of its letters. Where the name is not in the
    /// table the error says so and repeats the name.
    pub fn parse(s: &str) -> (r: Result<ReferenceType, String>)
        ensures
            match ReferenceType::spelled(s@) {
                Ok(t) => r == Ok::<ReferenceType, String>(t),
                Err(e) => r is Err && r->Err_0@ == e,
            },
    {
        let lower = s.to_lowercase();
        let chars = to_chars(lower.as_str());
        match ReferenceType::from_lowercase(chars.as_slice()) {
            Some(t) => Ok(t),
            None => {
                let mut message = String::from_str("Failed to parse reference type: ");
                message.append(s);
                Err(message)
            },
        }
    }
}

/// Two ASCII strings that differ only in the case of their letters have one lowercase form.
pub proof fn law_ascii_case(a: Seq<char>, b: Seq<char>)
    requires
        is_ascii(a),
        is_ascii(b),
        a.len() == b.len(),
        forall|i: int| 0 <= i < a.len() ==> ascii_lower(a[i]) == ascii_lower(b[i]),
    ensures
        lowercase(a) == lowercase(b),
{
    assert(lowercase(a) =~= lowercase(b));
}

/// Reading a field name does not depend on the case of its letters: two spellings with one
/// lowercase form name the same field.
pub proof fn law_field_ignores_case(a: Seq<char>, b: Seq<char>)
    requires
        lowercase(a) == lowercase(b),
    ensures
        FieldType::spelled(a) == FieldType::spelled(b),
{
}

/// Reading an entry type does not depend on the case of its letters: of two spellings with
/// one lowercase form, both name the same type or neither names one.
pub proof fn law_type_ignores_case(a: Seq<char>, b: Seq<char>)
    requires
        lowercase(a) == lowercase(b),
    ensures
        ReferenceType::spelled(a) is Ok <==> ReferenceType::spelled(b) is Ok,
        ReferenceType::spelled(a) is Ok ==> ReferenceType::spelled(a) == ReferenceType::spelled(b),
{
}

/// The lowercase form of a short ASCII string, character by character.
proof fn lemma_lowercase_short(s: Seq<char>)
    requires
        s.len() <= 13,
        is_ascii(s),
    ensures
        lowercase(s).len() == s.len(),
        forall|i: int| 0 <= i < s.len() ==> lowercase(s)[i] == ascii_lower(s[i]),
{
}

/// A string of at most 13 characters is ASCII where each of them is.
proof fn lemma_ascii_short(s: Seq<char>)
    requires
        s.len() <= 13,
        0 < s.len() ==> s[0] <= '\u{7f}',
        1 < s.len() ==> s[1] <= '\u{7f}',
        2 < s.len() ==> s[2] <= '\u{7f}',
        3 < s.len() ==> s[3] <= '\u{7f}',
        4 < s.len() ==> s[4] <= '\u{7f}',
        5 < s.len() ==> s[5] <= '\u{7f}',
        6 < s.len() ==> s[6] <= '\u{7f}',
        7 < s.len() ==> s[7] <= '\u{7f}',
        8 < s.len() ==> s[8] <= '\u{7f}',
        9 < s.len() ==> s[9] <= '\u{7f}',
        10 < s.len() ==> s[10] <= '\u{7f}',
        11 < s.len() ==> s[11] <= '\u{7f}',
        12 < s.len() ==> s[12] <= '\u{7f}',
    ensures
        is_ascii(s),
{
    assert forall|i: int| 0 <= i < s.len() implies #[trigger] s[i] <= '\u{7f}' by {
        assert(0 < s.len() ==> s[0] <= '\u{7f}');
        assert(1 < s.len() ==> s[1] <= '\u{7f}');
        assert(2 < s.len() ==> s[2] <= '\u{7f}');
        assert(3 < s.len() ==> s[3] <= '\u{7f}');
        assert(4 < s.len() ==> s[4] <= '\u{7f}');
        assert(5 < s.len() ==> s[5] <= '\u{7f}');
        assert(6 < s.len() ==> s[6] <= '\u{7f}');
        assert(7 < s.len() ==> s[7] <= '\u{7f}');
        assert(8 < s.len() ==> s[8] <= '\u{7f}');
        assert(9 < s.len() ==> s[9] <= '\u{7f}');
        assert(10 < s.len() ==> s[10] <= '\u{7f}');
        assert(11 < s.len() ==> s[11] <= '\u{7f}');
        assert(12 < s.len() ==> s[12] <= '\u{7f}');
    }
}

/// What the table of field names holds: each name is its own lowercase form, and it is the
/// first spelling in the table that equals it.
pub proof fn lemma_field_names(f: FieldType)
    ensures
        lowercase(f.name()) == f.name(),
        FieldType::named(f.name()) == Some(f),
{
    reveal_strlit("abstract");
    reveal_strlit("address");
    reveal_strlit("annote");
    reveal_strlit("author");
    reveal_strlit("booktitle");
    reveal_strlit("chapter");
    reveal_strlit("crossref");
    reveal_strlit("day");
    reveal_strlit("doi");
    reveal_strlit("edition");
    reveal_strlit("editor");
    reveal_strlit("eprint");
    reveal_strlit("howpublished");
    reveal_strlit("institution");
    reveal_strlit("isbn");
    reveal_strlit("issn");
    reveal_strlit("journal");
    reveal_strlit("key");
    reveal_strlit("keywords");
    reveal_strlit("month");
    reveal_strlit("note");
    reveal_strlit("number");
    reveal_strlit("issue");
    reveal_strlit("organization");
    reveal_strlit("pages");
    reveal_strlit("pmid");
    reveal_strlit("publisher");
    reveal_strlit("school");
    reveal_strlit("series");
    reveal_strlit("title");
    reveal_strlit("type");
    reveal_strlit("url");
    reveal_strlit("urldate");
    reveal_strlit("volume");
    reveal_strlit("year");
    assert("abstract"@.len() == 8);
    assert("address"@.len() == 7);
    assert("annote"@.len() == 6);
    assert("author"@.len() == 6);
    assert("booktitle"@.len() == 9);
    assert("chapter"@.len() == 7);
    assert("crossref"@.len() == 8);
    assert("day"@.len() == 3);
    assert("doi"@.len() == 3);
    assert("edition"@.len() == 7);
    assert("editor"@.len() == 6);
    assert("eprint"@.len() == 6);
    assert("howpublished"@.len() == 12);
    assert("institution"@.len() == 11);
    assert("isbn"@.len() == 4);
    assert("issn"@.len() == 4);
    assert("journal"@.len() == 7);
    assert("key"@.len() == 3);
    assert("keywords"@.len() == 8);
    assert("month"@.len() == 5);
    assert("note"@.len() == 4);
    assert("number"@.len() == 6);
    assert("issue"@.len() == 5);
    assert("organization"@.len() == 12);
    assert("pages"@.len() == 5);
    assert("pmid"@.len() == 4);
    assert("publisher"@.len() == 9);
    assert("school"@.len() == 6);
    assert("series"@.len() == 6);
    assert("title"@.len() == 5);
    assert("type"@.len() == 4);
    assert("url"@.len() == 3);
    assert("urldate"@.len() == 7);
    assert("volume"@.len() == 6);
    assert("year"@.len() == 4);
    let n = f.name();
    lemma_ascii_short(n);
    lemma_lowercase_short(n);
    match f {
        FieldType::Abstract => {
            assert(n[0] == 'a');
            assert(n[1] == 'b');
            assert(n[2] == 's');
            assert(n[3] == 't');
            assert(n[4] == 'r');
            assert(n[5] == 'a');
            assert(n[6] == 'c');
            assert(n[7] == 't');
        },
        FieldType::Address => {
            assert(n[0] == 'a');
            assert(n[1] == 'd');
            assert(n[2] == 'd');
            assert(n[3] == 'r');
            assert(n[4] == 'e');
            assert(n[5] == 's');
            assert(n[6] == 's');
        },
        FieldType::Annote => {
            assert(n[0] == 'a');
            assert(n[1] == 'n');
            assert(n[2] == 'n');
            assert(n[3] == 'o');
            assert(n[4] == 't');
            assert(n[5] == 'e');
        },
        FieldType::Author => {
            assert(n[0] == 'a');
            assert(n[1] == 'u');
            assert(n[2] == 't');
            assert(n[3] == 'h');
            assert(n[4] == 'o');
            assert(n[5] == 'r');
            assert("annote"@[1] != "author"@[1]);
        },
        FieldType::Booktitle => {
            assert(n[0] == 'b');
            assert(n[1] == 'o');
            assert(n[2] == 'o');
            assert(n[3] == 'k');
            assert(n[4] == 't');
            assert(n[5] == 'i');
            assert(n[6] == 't');
            assert(n[7] == 'l');
            assert(n[8] == 'e');
        },
        FieldType::Chapter => {
            assert(n[0] == 'c');
            assert(n[1] == 'h');
            assert(n[2] == 'a');
            assert(n[3] == 'p');
            assert(n[4] == 't');
            assert(n[5] == 'e');
            assert(n[6] == 'r');
            assert("address"@[0] != "chapter"@[0]);
        },
        FieldType::Crossref => {
            assert(n[0] == 'c');
            assert(n[1] == 'r');
            assert(n[2] == 'o');
            assert(n[3] == 's');
            assert(n[4] == 's');
            assert(n[5] == 'r');
            assert(n[6] == 'e');
            assert(n[7] == 'f');
            assert("abstract"@[0] != "crossref"@[0]);
        },
        FieldType::Day => {
            assert(n[0] == 'd');
            assert(n[1] == 'a');
            assert(n[2] == 'y');
        },
        FieldType::Doi => {
            assert(n[0] == 'd');
            assert(n[1] == 'o');
            assert(n[2] == 'i');
            assert("day"@[1] != "doi"@[1]);
        },
        FieldType::Edition => {
            assert(n[0] == 'e');
            assert(n[1] == 'd');
            assert(n[2] == 'i');
            assert(n[3] == 't');
            assert(n[4] == 'i');
            assert(n[5] == 'o');
            assert(n[6] == 'n');
            assert("address"@[0] != "edition"@[0]);
            assert("chapter"@[0] != "edition"@[0]);
        },
        FieldType::Editor => {
            assert(n[0] == 'e');
            assert(n[1] == 'd');
            assert(n[2] == 'i');
            assert(n[3] == 't');
            assert(n[4] == 'o');
            assert(n[5] == 'r');
            assert("annote"@[0] != "editor"@[0]);
            assert("author"@[0] != "editor"@[0]);
        },
        FieldType::Eprint => {
            assert(n[0] == 'e');
            assert(n[1] == 'p');
            assert(n[2] == 'r');
            assert(n[3] == 'i');
            assert(n[4] == 'n');
            assert(n[5] == 't');
            assert("annote"@[0] != "eprint"@[0]);
            assert("author"@[0] != "eprint"@[0]);
            assert("editor"@[1] != "eprint"@[1]);
        },
        FieldType::Howpublished => {
            assert(n[0] == 'h');
            assert(n[1] == 'o');
            assert(n[2] == 'w');
            assert(n[3] == 'p');
            assert(n[4] == 'u');
            assert(n[5] == 'b');
            assert(n[6] == 'l');
            assert(n[7] == 'i');
            assert(n[8] == 's');
            assert(n[9] == 'h');
            assert(n[10] == 'e');
            assert(n[11] == 'd');
        },
        FieldType::Institution => {
            assert(n[0] == 'i');
            assert(n[1] == 'n');
            assert(n[2] == 's');
            assert(n[3] == 't');
            assert(n[4] == 'i');
            assert(n[5] == 't');
            assert(n[6] == 'u');
            assert(n[7] == 't');
            assert(n[8] == 'i');
            assert(n[9] == 'o');
            assert(n[10] == 'n');
        },
        FieldType::Isbn => {
            assert(n[0] == 'i');
            assert(n[1] == 's');
            assert(n[2] == 'b');
            assert(n[3] == 'n');
        },
        FieldType::Issn => {
            assert(n[0] == 'i');
            assert(n[1] == 's');
            assert(n[2] == 's');
            assert(n[3] == 'n');
            assert("isbn"@[2] != "issn"@[2]);
        },
        FieldType::Journal => {
            assert(n[0] == 'j');
            assert(n[1] == 'o');
            assert(n[2] == 'u');
            assert(n[3] == 'r');
            assert(n[4] == 'n');
            assert(n[5] == 'a');
            assert(n[6] == 'l');
            assert("address"@[0] != "journal"@[0]);
            assert("chapter"@[0] != "journal"@[0]);
            assert("edition"@[0] != "journal"@[0]);
        },
        FieldType::Key => {
            assert(n[0] == 'k');
            assert(n[1] == 'e');
            assert(n[2] == 'y');
            assert("day"@[0] != "key"@[0]);
            assert("doi"@[0] != "key"@[0]);
        },
        FieldType::Keywords => {
            assert(n[0] == 'k');
            assert(n[1] == 'e');
            assert(n[2] == 'y');
            assert(n[3] == 'w');
            assert(n[4] == 'o');
            assert(n[5] == 'r');
            assert(n[6] == 'd');
            assert(n[7] == 's');
            assert("abstract"@[0] != "keywords"@[0]);
            assert("crossref"@[0] != "keywords"@[0]);
        },
        FieldType::Month => {
            assert(n[0] == 'm');
            assert(n[1] == 'o');
            assert(n[2] == 'n');
            assert(n[3] == 't');
            assert(n[4] == 'h');
        },
        FieldType::Note => {
            assert(n[0] == 'n');
            assert(n[1] == 'o');
            assert(n[2] == 't');
            assert(n[3] == 'e');
            assert("isbn"@[0] != "note"@[0]);
            assert("issn"@[0] != "note"@[0]);
        },
        FieldType::Number => {
            assert(n[0] == 'n');
            assert(n[1] == 'u');
            assert(n[2] == 'm');
            assert(n[3] == 'b');
            assert(n[4] == 'e');
            assert(n[5] == 'r');
            assert("annote"@[0] != "number"@[0]);
            assert("author"@[0] != "number"@[0]);
            assert("editor"@[0] != "number"@[0]);
            assert("eprint"@[0] != "number"@[0]);
        },
        FieldType::Organization => {
            assert(n[0] == 'o');
            assert(n[1] == 'r');
            assert(n[2] == 'g');
            assert(n[3] == 'a');
            assert(n[4] == 'n');
            assert(n[5] == 'i');
            assert(n[6] == 'z');
            assert(n[7] == 'a');
            assert(n[8] == 't');
            assert(n[9] == 'i');
            assert(n[10] == 'o');
            assert(n[11] == 'n');
            assert("howpublished"@[0] != "organization"@[0]);
        },
        FieldType::Pages => {
            assert(n[0] == 'p');
            assert(n[1] == 'a');
            assert(n[2] == 'g');
            assert(n[3] == 'e');
            assert(n[4] == 's');
            assert("month"@[0] != "pages"@[0]);
            assert("issue"@[0] != "pages"@[0]);
        },
        FieldType::Pmid => {
            assert(n[0] == 'p');
            assert(n[1] == 'm');
            assert(n[2] == 'i');
            assert(n[3] == 'd');
            assert("isbn"@[0] != "pmid"@[0]);
            assert("issn"@[0] != "pmid"@[0]);
            assert("note"@[0] != "pmid"@[0]);
        },
        FieldType::Publisher => {
            assert(n[0] == 'p');
            assert(n[1] == 'u');
            assert(n[2] == 'b');
            assert(n[3] == 'l');
            assert(n[4] == 'i');
            assert(n[5] == 's');
            assert(n[6] == 'h');
            assert(n[7] == 'e');
            assert(n[8] == 'r');
            assert("booktitle"@[0] != "publisher"@[0]);
        },
        FieldType::School => {
            assert(n[0] == 's');
            assert(n[1] == 'c');
            assert(n[2] == 'h');
            assert(n[3] == 'o');
            assert(n[4] == 'o');
            assert(n[5] == 'l');
            assert("annote"@[0] != "school"@[0]);
            assert("author"@[0] != "school"@[0]);
            assert("editor"@[0] != "school"@[0]);
            assert("eprint"@[0] != "school"@[0]);
            assert("number"@[0] != "school"@[0]);
        },
        FieldType::Series => {
            assert(n[0] == 's');
            assert(n[1] == 'e');
            assert(n[2] == 'r');
            assert(n[3] == 'i');
            assert(n[4] == 'e');
            assert(n[5] == 's');
            assert("annote"@[0] != "series"@[0]);
            assert("author"@[0] != "series"@[0]);
            assert("editor"@[0] != "series"@[0]);
            assert("eprint"@[0] != "series"@[0]);
            assert("number"@[0] != "series"@[0]);
            assert("school"@[1] != "series"@[1]);
        },
        FieldType::Title => {
            assert(n[0] == 't');
            assert(n[1] == 'i');
            assert(n[2] == 't');
            assert(n[3] == 'l');
            assert(n[4] == 'e');
            assert("month"@[0] != "title"@[0]);
            assert("issue"@[0] != "title"@[0]);
            assert("pages"@[0] != "title"@[0]);
        },
        FieldType::Type => {
            assert(n[0] == 't');
            assert(n[1] == 'y');
            assert(n[2] == 'p');
            assert(n[3] == 'e');
            assert("isbn"@[0] != "type"@[0]);
            assert("issn"@[0] != "type"@[0]);
            assert("note"@[0] != "type"@[0]);
            assert("pmid"@[0] != "type"@[0]);
        },
        FieldType::Url => {
            assert(n[0] == 'u');
            assert(n[1] == 'r');
            assert(n[2] == 'l');
            assert("day"@[0] != "url"@[0]);
            assert("doi"@[0] != "url"@[0]);
            assert("key"@[0] != "url"@[0]);
        },
        FieldType::UrlDate => {
            assert(n[0] == 'u');
            assert(n[1] == 'r');
            assert(n[2] == 'l');
            assert(n[3] == 'd');
            assert(n[4] == 'a');
            assert(n[5] == 't');
            assert(n[6] == 'e');
            assert("address"@[0] != "urldate"@[0]);
            assert("chapter"@[0] != "urldate"@[0]);
            assert("edition"@[0] != "urldate"@[0]);
            assert("journal"@[0] != "urldate"@[0]);
        },
        FieldType::Volume => {
            assert(n[0] == 'v');
            assert(n[1] == 'o');
            assert(n[2] == 'l');
            assert(n[3] == 'u');
            assert(n[4] == 'm');
            assert(n[5] == 'e');
            assert("annote"@[0] != "volume"@[0]);
            assert("author"@[0] != "volume"@[0]);
            assert("editor"@[0] != "volume"@[0]);
            assert("eprint"@[0] != "volume"@[0]);
            assert("number"@[0] != "volume"@[0]);
            assert("school"@[0] != "volume"@[0]);
            assert("series"@[0] != "volume"@[0]);
        },
        FieldType::Year => {
            assert(n[0] == 'y');
            assert(n[1] == 'e');
            assert(n[2] == 'a');
            assert(n[3] == 'r');
            assert("isbn"@[0] != "year"@[0]);
            assert("issn"@[0] != "year"@[0]);
            assert("note"@[0] != "year"@[0]);
            assert("pmid"@[0] != "year"@[0]);
            assert("type"@[0] != "year"@[0]);
        },
    }
    assert(lowercase(n) =~= n);
}

/// Every field is read back from the name it is written under.
pub proof fn law_field_round_trip(f: FieldType)
    ensures
        FieldType::spelled(f.name()) == Some(f),
{
    lemma_field_names(f);
}

/// What the table of entry types holds: the lowercase form of each name is the first spelling
/// in the table that equals it.
pub proof fn lemma_type_names(t: ReferenceType)
    ensures
        ReferenceType::named(lowercase(t.name())) == Some(t),
{
    reveal_strlit("article");
    reveal_strlit("book");
    reveal_strlit("inbook");
    reveal_strlit("incollection");
    reveal_strlit("inproceedings");
    reveal_strlit("manual");
    reveal_strlit("mastersthesis");
    reveal_strlit("misc");
    reveal_strlit("phdthesis");
    reveal_strlit("proceedings");
    reveal_strlit("techreport");
    reveal_strlit("report");
    reveal_strlit("unpublished");
    reveal_strlit("Article");
    reveal_strlit("Book");
    reveal_strlit("InBook");
    reveal_strlit("InCollection");
    reveal_strlit("InProceedings");
    reveal_strlit("Manual");
    reveal_strlit("Mastersthesis");
    reveal_strlit("Misc");
    reveal_strlit("Phdthesis");
    reveal_strlit("Proceedings");
    reveal_strlit("Techreport");
    reveal_strlit("Unpublished");
    assert("article"@.len() == 7);
    assert("book"@.len() == 4);
    assert("inbook"@.len() == 6);
    assert("incollection"@.len() == 12);
    assert("inproceedings"@.len() == 13);
    assert("manual"@.len() == 6);
    assert("mastersthesis"@.len() == 13);
    assert("misc"@.len() == 4);
    assert("phdthesis"@.len() == 9);
    assert("proceedings"@.len() == 11);
    assert("techreport"@.len() == 10);
    assert("report"@.len() == 6);
    assert("unpublished"@.len() == 11);
    assert("Article"@.len() == 7);
    assert("Book"@.len() == 4);
    assert("InBook"@.len() == 6);
    assert("InCollection"@.len() == 12);
    assert("InProceedings"@.len() == 13);
    assert("Manual"@.len() == 6);
    assert("Mastersthesis"@.len() == 13);
    assert("Misc"@.len() == 4);
    assert("Phdthesis"@.len() == 9);
    assert("Proceedings"@.len() == 11);
    assert("Techreport"@.len() == 10);
    assert("Unpublished"@.len() == 11);
    let n = t.name();
    let low = lowercase(n);
    lemma_ascii_short(n);
    lemma_lowercase_short(n);
    match t {
        ReferenceType::Article => {
            assert(n[0] == 'A' && low[0] == 'a');
            assert(n[1] == 'r' && low[1] == 'r');
            assert(n[2] == 't' && low[2] == 't');
            assert(n[3] == 'i' && low[3] == 'i');
            assert(n[4] == 'c' && low[4] == 'c');
            assert(n[5] == 'l' && low[5] == 'l');
            assert(n[6] == 'e' && low[6] == 'e');
            assert(low =~= "article"@);
        },
        ReferenceType::Book => {
            assert(n[0] == 'B' && low[0] == 'b');
            assert(n[1] == 'o' && low[1] == 'o');
            assert(n[2] == 'o' && low[2] == 'o');
            assert(n[3] == 'k' && low[3] == 'k');
            assert(low =~= "book"@);
        },
        ReferenceType::InBook => {
            assert(n[0] == 'I' && low[0] == 'i');
            assert(n[1] == 'n' && low[1] == 'n');
            assert(n[2] == 'B' && low[2] == 'b');
            assert(n[3] == 'o' && low[3] == 'o');
            assert(n[4] == 'o' && low[4] == 'o');
            assert(n[5] == 'k' && low[5] == 'k');
            assert(low =~= "inbook"@);
        },
        ReferenceType::InCollection => {
            assert(n[0] == 'I' && low[0] == 'i');
            assert(n[1] == 'n' && low[1] == 'n');
            assert(n[2] == 'C' && low[2] == 'c');
            assert(n[3] == 'o' && low[3] == 'o');
            assert(n[4] == 'l' && low[4] == 'l');
            assert(n[5] == 'l' && low[5] == 'l');
            assert(n[6] == 'e' && low[6] == 'e');
            assert(n[7] == 'c' && low[7] == 'c');
            assert(n[8] == 't' && low[8] == 't');
            assert(n[9] == 'i' && low[9] == 'i');
            assert(n[10] == 'o' && low[10] == 'o');
            assert(n[11] == 'n' && low[11] == 'n');
            assert(low =~= "incollection"@);
        },
        ReferenceType::InProceedings => {
            assert(n[0] == 'I' && low[0] == 'i');
            assert(n[1] == 'n' && low[1] == 'n');
            assert(n[2] == 'P' && low[2] == 'p');
            assert(n[3] == 'r' && low[3] == 'r');
            assert(n[4] == 'o' && low[4] == 'o');
            assert(n[5] == 'c' && low[5] == 'c');
            assert(n[6] == 'e' && low[6] == 'e');
            assert(n[7] == 'e' && low[7] == 'e');
            assert(n[8] == 'd' && low[8] == 'd');
            assert(n[9] == 'i' && low[9] == 'i');
            assert(n[10] == 'n' && low[10] == 'n');
            assert(n[11] == 'g' && low[11] == 'g');
            assert(n[12] == 's' && low[12] == 's');
            assert(low =~= "inproceedings"@);
        },
        ReferenceType::Manual => {
            assert(n[0] == 'M' && low[0] == 'm');
            assert(n[1] == 'a' && low[1] == 'a');
            assert(n[2] == 'n' && low[2] == 'n');
            assert(n[3] == 'u' && low[3] == 'u');
            assert(n[4] == 'a' && low[4] == 'a');
            assert(n[5] == 'l' && low[5] == 'l');
            assert(low =~= "manual"@);
            assert("inbook"@[0] != "manual"@[0]);
        },
        ReferenceType::Mastersthesis => {
            assert(n[0] == 'M' && low[0] == 'm');
            assert(n[1] == 'a' && low[1] == 'a');
            assert(n[2] == 's' && low[2] == 's');
            assert(n[3] == 't' && low[3] == 't');
            assert(n[4] == 'e' && low[4] == 'e');
            assert(n[5] == 'r' && low[5] == 'r');
            assert(n[6] == 's' && low[6] == 's');
            assert(n[7] == 't' && low[7] == 't');
            assert(n[8] == 'h' && low[8] == 'h');
            assert(n[9] == 'e' && low[9] == 'e');
            assert(n[10] == 's' && low[10] == 's');
            assert(n[11] == 'i' && low[11] == 'i');
            assert(n[12] == 's' && low[12] == 's');
            assert(low =~= "mastersthesis"@);
            assert("inproceedings"@[0] != "mastersthesis"@[0]);
        },
        ReferenceType::Misc => {
            assert(n[0] == 'M' && low[0] == 'm');
            assert(n[1] == 'i' && low[1] == 'i');
            assert(n[2] == 's' && low[2] == 's');
            assert(n[3] == 'c' && low[3] == 'c');
            assert(low =~= "misc"@);
            assert("book"@[0] != "misc"@[0]);
        },
        ReferenceType::Phdthesis => {
            assert(n[0] == 'P' && low[0] == 'p');
            assert(n[1] == 'h' && low[1] == 'h');
            assert(n[2] == 'd' && low[2] == 'd');
            assert(n[3] == 't' && low[3] == 't');
            assert(n[4] == 'h' && low[4] == 'h');
            assert(n[5] == 'e' && low[5] == 'e');
            assert(n[6] == 's' && low[6] == 's');
            assert(n[7] == 'i' && low[7] == 'i');
            assert(n[8] == 's' && low[8] == 's');
            assert(low =~= "phdthesis"@);
        },
        ReferenceType::Proceedings => {
            assert(n[0] == 'P' && low[0] == 'p');
            assert(n[1] == 'r' && low[1] == 'r');
            assert(n[2] == 'o' && low[2] == 'o');
            assert(n[3] == 'c' && low[3] == 'c');
            assert(n[4] == 'e' && low[4] == 'e');
            assert(n[5] == 'e' && low[5] == 'e');
            assert(n[6] == 'd' && low[6] == 'd');
            assert(n[7] == 'i' && low[7] == 'i');
            assert(n[8] == 'n' && low[8] == 'n');
            assert(n[9] == 'g' && low[9] == 'g');
            assert(n[10] == 's' && low[10] == 's');
            assert(low =~= "proceedings"@);
        },
        ReferenceType::Techreport => {
            assert(n[0] == 'T' && low[0] == 't');
            assert(n[1] == 'e' && low[1] == 'e');
            assert(n[2] == 'c' && low[2] == 'c');
            assert(n[3] == 'h' && low[3] == 'h');
            assert(n[4] == 'r' && low[4] == 'r');
            assert(n[5] == 'e' && low[5] == 'e');
            assert(n[6] == 'p' && low[6] == 'p');
            assert(n[7] == 'o' && low[7] == 'o');
            assert(n[8] == 'r' && low[8] == 'r');
            assert(n[9] == 't' && low[9] == 't');
            assert(low =~= "techreport"@);
        },
        ReferenceType::Unpublished => {
            assert(n[0] == 'U' && low[0] == 'u');
            assert(n[1] == 'n' && low[1] == 'n');
            assert(n[2] == 'p' && low[2] == 'p');
            assert(n[3] == 'u' && low[3] == 'u');
            assert(n[4] == 'b' && low[4] == 'b');
            assert(n[5] == 'l' && low[5] == 'l');
            assert(n[6] == 'i' && low[6] == 'i');
            assert(n[7] == 's' && low[7] == 's');
            assert(n[8] == 'h' && low[8] == 'h');
            assert(n[9] == 'e' && low[9] == 'e');
            assert(n[10] == 'd' && low[10] == 'd');
            assert(low =~= "unpublished"@);
            assert("proceedings"@[0] != "unpublished"@[0]);
        },
    }
}

/// Every entry type is read back from the name it is shown under.
pub proof fn law_type_round_trip(t: ReferenceType)
    ensures
        ReferenceType::spelled(t.name()) == Ok::<ReferenceType, Seq<char>>(t),
{
    lemma_type_names(t);
}

/// A string of at most 13 characters is made of the letters `a` to `z` where each of its
/// characters is one.
proof fn lemma_letters_short(s: Seq<char>)
    requires
        s.len() <= 13,
        0 < s.len() ==> 'a' <= s[0] <= 'z',
        1 < s.len() ==> 'a' <= s[1] <= 'z',
        2 < s.len() ==> 'a' <= s[2] <= 'z',
        3 < s.len() ==> 'a' <= s[3] <= 'z',
        4 < s.len() ==> 'a' <= s[4] <= 'z',
        5 < s.len() ==> 'a' <= s[5] <= 'z',
        6 < s.len() ==> 'a' <= s[6] <= 'z',
        7 < s.len() ==> 'a' <= s[7] <= 'z',
        8 < s.len() ==> 'a' <= s[8] <= 'z',
        9 < s.len() ==> 'a' <= s[9] <= 'z',
        10 < s.len() ==> 'a' <= s[10] <= 'z',
        11 < s.len() ==> 'a' <= s[11] <= 'z',
        12 < s.len() ==> 'a' <= s[12] <= 'z',
    ensures
        forall|i: int| 0 <= i < s.len() ==> 'a' <= #[trigger] s[i] <= 'z',
{
    assert forall|i: int| 0 <= i < s.len() implies 'a' <= #[trigger] s[i] <= 'z' by {
        assert(0 < s.len() ==> 'a' <= s[0] <= 'z');
        assert(1 < s.len() ==> 'a' <= s[1] <= 'z');
        assert(2 < s.len() ==> 'a' <= s[2] <= 'z');
        assert(3 < s.len() ==> 'a' <= s[3] <= 'z');
        assert(4 < s.len() ==> 'a' <= s[4] <= 'z');
        assert(5 < s.len() ==> 'a' <= s[5] <= 'z');
        assert(6 < s.len() ==> 'a' <= s[6] <= 'z');
        assert(7 < s.len() ==> 'a' <= s[7] <= 'z');
        assert(8 < s.len() ==> 'a' <= s[8] <= 'z');
        assert(9 < s.len() ==> 'a' <= s[9] <= 'z');
        assert(10 < s.len() ==> 'a' <= s[10] <= 'z');
        assert(11 < s.len() ==> 'a' <= s[11] <= 'z');
        assert(12 < s.len() ==> 'a' <= s[12] <= 'z');
    }
}

/// The name of a field is not empty and made of the letters `a` to `z`.
pub proof fn lemma_field_name_letters(f: FieldType)
    ensures
        f.name().len() > 0,
        forall|i: int| 0 <= i < f.name().len() ==> 'a' <= #[trigger] f.name()[i] <= 'z',
{
    reveal_strlit("abstract");
    reveal_strlit("address");
    reveal_strlit("annote");
    reveal_strlit("author");
    reveal_strlit("booktitle");
    reveal_strlit("chapter");
    reveal_strlit("crossref");
    reveal_strlit("day");
    reveal_strlit("doi");
    reveal_strlit("edition");
    reveal_strlit("editor");
    reveal_strlit("eprint");
    reveal_strlit("howpublished");
    reveal_strlit("institution");
    reveal_strlit("isbn");
    reveal_strlit("issn");
    reveal_strlit("journal");
    reveal_strlit("key");
    reveal_strlit("keywords");
    reveal_strlit("month");
    reveal_strlit("note");
    reveal_strlit("number");
    reveal_strlit("organization");
    reveal_strlit("pages");
    reveal_strlit("pmid");
    reveal_strlit("publisher");
    reveal_strlit("school");
    reveal_strlit("series");
    reveal_strlit("title");
    reveal_strlit("type");
    reveal_strlit("url");
    reveal_strlit("urldate");
    reveal_strlit("volume");
    reveal_strlit("year");
    assert("abstract"@.len() == 8);
    assert("address"@.len() == 7);
    assert("annote"@.len() == 6);
    assert("author"@.len() == 6);
    assert("booktitle"@.len() == 9);
    assert("chapter"@.len() == 7);
    assert("crossref"@.len() == 8);
    assert("day"@.len() == 3);
    assert("doi"@.len() == 3);
    assert("edition"@.len() == 7);
    assert("editor"@.len() == 6);
    assert("eprint"@.len() == 6);
    assert("howpublished"@.len() == 12);
    assert("institution"@.len() == 11);
    assert("isbn"@.len() == 4);
    assert("issn"@.len() == 4);
    assert("journal"@.len() == 7);
    assert("key"@.len() == 3);
    assert("keywords"@.len() == 8);
    assert("month"@.len() == 5);
    assert("note"@.len() == 4);
    assert("number"@.len() == 6);
    assert("organization"@.len() == 12);
    assert("pages"@.len() == 5);
    assert("pmid"@.len() == 4);
    assert("publisher"@.len() == 9);
    assert("school"@.len() == 6);
    assert("series"@.len() == 6);
    assert("title"@.len() == 5);
    assert("type"@.len() == 4);
    assert("url"@.len() == 3);
    assert("urldate"@.len() == 7);
    assert("volume"@.len() == 6);
    assert("year"@.len() == 4);
    lemma_letters_short(f.name());
}

/// The name `article` is read as the type of an article.
pub proof fn lemma_article_spelled()
    ensures
        ReferenceType::spelled("article"@) == Ok::<ReferenceType, Seq<char>>(
            ReferenceType::Article,
        ),
{
    reveal_strlit("article");
    let n = "article"@;
    assert(n.len() == 7);
    lemma_ascii_short(n);
    lemma_lowercase_short(n);
    assert(n[0] == 'a' && n[1] == 'r' && n[2] == 't' && n[3] == 'i' && n[4] == 'c' && n[5] == 'l'
        && n[6] == 'e');
    assert(lowercase(n) =~= n);
}

/// A string of at most 13 characters is made of letters where each of its characters is one
/// of `a` to `z` or `A` to `Z`.
proof fn lemma_both_cases_short(s: Seq<char>)
    requires
        s.len() <= 13,
        0 < s.len() ==> 'a' <= s[0] <= 'z' || 'A' <= s[0] <= 'Z',
        1 < s.len() ==> 'a' <= s[1] <= 'z' || 'A' <= s[1] <= 'Z',
        2 < s.len() ==> 'a' <= s[2] <= 'z' || 'A' <= s[2] <= 'Z',
        3 < s.len() ==> 'a' <= s[3] <= 'z' || 'A' <= s[3] <= 'Z',
        4 < s.len() ==> 'a' <= s[4] <= 'z' || 'A' <= s[4] <= 'Z',
        5 < s.len() ==> 'a' <= s[5] <= 'z' || 'A' <= s[5] <= 'Z',
        6 < s.len() ==> 'a' <= s[6] <= 'z' || 'A' <= s[6] <= 'Z',
        7 < s.len() ==> 'a' <= s[7] <= 'z' || 'A' <= s[7] <= 'Z',
        8 < s.len() ==> 'a' <= s[8] <= 'z' || 'A' <= s[8] <= 'Z',
        9 < s.len() ==> 'a' <= s[9] <= 'z' || 'A' <= s[9] <= 'Z',
        10 < s.len() ==> 'a' <= s[10] <= 'z' || 'A' <= s[10] <= 'Z',
        11 < s.len() ==> 'a' <= s[11] <= 'z' || 'A' <= s[11] <= 'Z',
        12 < s.len() ==> 'a' <= s[12] <= 'z' || 'A' <= s[12] <= 'Z',
    ensures
        forall|i: int|
            0 <= i < s.len() ==> 'a' <= #[trigger] s[i] <= 'z' || 'A' <= s[i] <= 'Z',
{
    assert forall|i: int| 0 <= i < s.len() implies 'a' <= #[trigger] s[i] <= 'z' || 'A' <= s[i]
        <= 'Z' by {
        assert(0 < s.len() ==> 'a' <= s[0] <= 'z' || 'A' <= s[0] <= 'Z');
        assert(1 < s.len() ==> 'a' <= s[1] <= 'z' || 'A' <= s[1] <= 'Z');
        assert(2 < s.len() ==> 'a' <= s[2] <= 'z' || 'A' <= s[2] <= 'Z');
        assert(3 < s.len() ==> 'a' <= s[3] <= 'z' || 'A' <= s[3] <= 'Z');
        assert(4 < s.len() ==> 'a' <= s[4] <= 'z' || 'A' <= s[4] <= 'Z');
        assert(5 < s.len() ==> 'a' <= s[5] <= 'z' || 'A' <= s[5] <= 'Z');
        assert(6 < s.len() ==> 'a' <= s[6] <= 'z' || 'A' <= s[6] <= 'Z');
        assert(7 < s.len() ==> 'a' <= s[7] <= 'z' || 'A' <= s[7] <= 'Z');
        assert(8 < s.len() ==> 'a' <= s[8] <= 'z' || 'A' <= s[8] <= 'Z');
        assert(9 < s.len() ==> 'a' <= s[9] <= 'z' || 'A' <= s[9] <= 'Z');
        assert(10 < s.len() ==> 'a' <= s[10] <= 'z' || 'A' <= s[10] <= 'Z');
        assert(11 < s.len() ==> 'a' <= s[11] <= 'z' || 'A' <= s[11] <= 'Z');
        assert(12 < s.len() ==> 'a' <= s[12] <= 'z' || 'A' <= s[12] <= 'Z');
    }
}

/// The name of a type is not empty and made of the letters `a` to `z` and `A` to `Z`.
pub proof fn lemma_type_name_letters(t: ReferenceType)
    ensures
        t.name().len() > 0,
        forall|i: int|
            0 <= i < t.name().len() ==> 'a' <= #[trigger] t.name()[i] <= 'z' || 'A'
                <= t.name()[i] <= 'Z',
{
    reveal_strlit("Article");
    reveal_strlit("Book");
    reveal_strlit("InBook");
    reveal_strlit("InCollection");
    reveal_strlit("InProceedings");
    reveal_strlit("Manual");
    reveal_strlit("Mastersthesis");
    reveal_strlit("Misc");
    reveal_strlit("Phdthesis");
    reveal_strlit("Proceedings");
    reveal_strlit("Techreport");
    reveal_strlit("Unpublished");
    assert("Article"@.len() == 7);
    assert("Book"@.len() == 4);
    assert("InBook"@.len() == 6);
    assert("InCollection"@.len() == 12);
    assert("InProceedings"@.len() == 13);
    assert("Manual"@.len() == 6);
    assert("Mastersthesis"@.len() == 13);
    assert("Misc"@.len() == 4);
    assert("Phdthesis"@.len() == 9);
    assert("Proceedings"@.len() == 11);
    assert("Techreport"@.len() == 10);
    assert("Unpublished"@.len() == 11);
    lemma_both_cases_short(t.name());
}

} // verus!
