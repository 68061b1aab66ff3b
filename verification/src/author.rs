//! Author names: how the value of an author field is read into names, and how a name is shown.

use crate::text::{
    joined, push_chars, split, split_on, to_chars, to_string, trim, trimmed, views, words,
    words_of,
};
use crate::unicode::{alphabetic, uppercase};
use vstd::prelude::*;
use vstd::string::StringExecFns;

verus! {

/// The name of one author.
#[derive(Debug, PartialEq)]
pub enum AuthorName {
    /// A name that was told apart into its two parts.
    FirstNameLastName { first_name: String, last_name: String },
    /// A name that was not.
    FullName(String),
}

/// One author of an entry.
#[derive(Debug, PartialEq)]
pub struct Author {
    pub name: AuthorName,
}

/// A name by its characters.
pub enum NameView {
    FirstNameLastName { first_name: Seq<char>, last_name: Seq<char> },
    FullName(Seq<char>),
}

impl View for AuthorName {
    type V = NameView;

    open spec fn view(&self) -> NameView {
        match self {
            AuthorName::FirstNameLastName { first_name, last_name } => NameView::FirstNameLastName {
                first_name: first_name@,
                last_name: last_name@,
            },
            AuthorName::FullName(full_name) => NameView::FullName(full_name@),
        }
    }
}

impl View for Author {
    type V = NameView;

    open spec fn view(&self) -> NameView {
        self.name@
    }
}

impl Author {
    /// The author with these two names.
    pub fn new(first_name: String, last_name: String) -> (author: Author)
        ensures
            author@ == (NameView::FirstNameLastName {
                first_name: first_name@,
                last_name: last_name@,
            }),
    {
        Author { name: AuthorName::FirstNameLastName { first_name, last_name } }
    }

    /// The author whose name stays in one piece.
    pub fn new_from_full_name(full_name: String) -> (author: Author)
        ensures
            author@ == NameView::FullName(full_name@),
    {
        Author { name: AuthorName::FullName(full_name) }
    }
}

/// The views of a sequence of authors.
pub open spec fn author_views(authors: Seq<Author>) -> Seq<NameView> {
    authors.map_values(|a: Author| a@)
}

// ---------------------------------------------------------------------------------------------
// Initials
// ---------------------------------------------------------------------------------------------

/// What the test for initials reads of one character.
#[derive(Debug, Clone, Copy, PartialEq, Eq)]
pub struct Glyph {
    /// Whether the character is alphabetic.
    pub letter: bool,
    /// Whether the character is uppercase.
    pub capital: bool,
    /// Whether the character is a period.
    pub period: bool,
}

/// What the test for initials reads of `c`.
pub open spec fn glyph_of(c: char) -> Glyph {
    Glyph { letter: alphabetic(c), capital: uppercase(c), period: c == '.' }
}

/// Whether every character is an uppercase letter.
pub open spec fn all_capitals(glyphs: Seq<Glyph>) -> bool {
    forall|i: int| 0 <= i < glyphs.len() ==> (#[trigger] glyphs[i]).letter && glyphs[i].capital
}

/// Whether a letter stands at every even place and a period at every odd one.
pub open spec fn takes_turns(glyphs: Seq<Glyph>) -> bool {
    forall|i: int|
        0 <= i < glyphs.len() ==> if i % 2 == 0 {
            (#[trigger] glyphs[i]).letter
        } else {
            glyphs[i].period
        }
}

/// Whether the characters are a letter and a period, again and again to the end: letters and
/// periods take turns, a letter first and a period last.
pub open spec fn letters_and_periods(glyphs: Seq<Glyph>) -> bool {
    glyphs.len() % 2 == 0 && takes_turns(glyphs)
}

/// Whether a token with these characters looks like initials: it is not empty, and it is made
/// of uppercase letters only, or of letters that are each followed by a period.
pub open spec fn initials_pattern(glyphs: Seq<Glyph>) -> bool {
    glyphs.len() > 0 && (all_capitals(glyphs) || letters_and_periods(glyphs))
}

/// Whether the token `s` looks like initials.
pub open spec fn initials(s: Seq<char>) -> bool {
    initials_pattern(s.map_values(|c: char| glyph_of(c)))
}

/// Looks up what the test for initials reads of `c`.
pub fn classify(c: char) -> (g: Glyph)
    ensures
        g == glyph_of(c),
{
    Glyph { letter: c.is_alphabetic(), capital: c.is_uppercase(), period: c == '.' }
}

/// Whether a token with these characters looks like initials.
pub fn is_initials_pattern(glyphs: &[Glyph]) -> (r: bool)
    ensures
        r == initials_pattern(glyphs@),
{
    if glyphs.len() == 0 {
        return false;
    }
    let mut capitals = true;
    let mut turns = true;
    let mut i: usize = 0;
    while i < glyphs.len()
        invariant
            i <= glyphs.len(),
            capitals == all_capitals(glyphs@.take(i as int)),
            turns == takes_turns(glyphs@.take(i as int)),
        decreases glyphs.len() - i,
    {
        let g = glyphs[i];
        let ghost before = glyphs@.take(i as int);
        let ghost after = glyphs@.take(i + 1);
        proof {
            assert(after[i as int] == g);
            assert(forall|j: int| 0 <= j < i ==> before[j] == after[j]);
        }
        if !(g.letter && g.capital) {
            capitals = false;
        }
        if i % 2 == 0 {
            if !g.letter {
                turns = false;
            }
        } else {
            if !g.period {
                turns = false;
            }
        }
        i += 1;
    }
    assert(glyphs@.take(i as int) == glyphs@);
    capitals || (turns && glyphs.len() % 2 == 0)
}

/// Whether the token `s` looks like initials.
pub fn is_initials(s: &str) -> (r: bool)
    ensures
        r == initials(s@),
{
    let chars = to_chars(s);
    let mut glyphs: Vec<Glyph> = Vec::new();
    let mut i: usize = 0;
    while i < chars.len()
        invariant
            i <= chars.len(),
            glyphs@ == chars@.take(i as int).map_values(|c: char| glyph_of(c)),
        decreases chars.len() - i,
    {
        glyphs.push(classify(chars[i]));
        assert(chars@.take(i + 1) == chars@.take(i as int).push(chars@[i as int]));
        assert(glyphs@ =~= chars@.take(i + 1).map_values(|c: char| glyph_of(c)));
        i += 1;
    }
    assert(chars@.take(i as int) == chars@);
    is_initials_pattern(glyphs.as_slice())
}

// ---------------------------------------------------------------------------------------------
// Reading names
// ---------------------------------------------------------------------------------------------

/// The name that one author's text stands for.
///
/// With exactly one comma the text is the last name, the comma, the first name. Otherwise what
/// stands before the first comma is cut into words: with more than two words of which the
/// second looks like initials, the last word is the last name and the others are the first
/// name; with two words, these are the first and the last name; else the name stays in one
/// piece.
pub open spec fn author_of(part: Seq<char>) -> NameView {
    let pieces = split_on(part, ","@);
    if pieces.len() == 2 {
        NameView::FirstNameLastName {
            first_name: trimmed(pieces[1]),
            last_name: trimmed(pieces[0]),
        }
    } else {
        let names = words_of(pieces[0]);
        if names.len() > 2 && initials(names[1]) {
            NameView::FirstNameLastName {
                first_name: joined(names.drop_last(), " "@),
                last_name: names.last(),
            }
        } else if names.len() == 2 {
            NameView::FirstNameLastName { first_name: names[0], last_name: names[1] }
        } else {
            NameView::FullName(pieces[0])
        }
    }
}

/// The names that the value of an author field stands for: one for each piece between the
/// separators `" and "`.
pub open spec fn authors_of(authors: Seq<char>) -> Seq<NameView> {
    split_on(authors, " and "@).map_values(|part: Seq<char>| author_of(part))
}

/// `joined` of one more piece.
pub proof fn lemma_joined_push(parts: Seq<Seq<char>>, sep: Seq<char>, last: Seq<char>)
    ensures
        joined(parts.push(last), sep) == if parts.len() == 0 {
            last
        } else {
            joined(parts, sep) + sep + last
        },
{
    assert(parts.push(last).drop_last() == parts);
}

/// The first `n` pieces with `sep` between them.
pub fn join(parts: &Vec<&[char]>, n: usize, sep: &[char]) -> (s: String)
    requires
        n <= parts.len(),
    ensures
        s@ == joined(views(parts@.take(n as int)), sep@),
{
    let mut out = String::new();
    let mut i: usize = 0;
    assert(views(parts@.take(0)) =~= Seq::<Seq<char>>::empty());
    while i < n
        invariant
            i <= n <= parts.len(),
            out@ == joined(views(parts@.take(i as int)), sep@),
        decreases n - i,
    {
        if i > 0 {
            push_chars(&mut out, sep);
        }
        push_chars(&mut out, parts[i]);
        proof {
            let before = views(parts@.take(i as int));
            assert(views(parts@.take(i + 1)) =~= before.push(parts@[i as int]@));
            lemma_joined_push(before, sep@, parts@[i as int]@);
        }
        i += 1;
    }
    out
}

/// Reads the name of one author.
pub fn parse_split_author(part: &[char]) -> (author: Author)
    ensures
        author@ == author_of(part@),
{
    let comma = to_chars(",");
    let pieces = split(part, comma.as_slice());
    proof {
        let all = split_on(part@, ","@);
        assert(all.len() == pieces@.len());
        assert(forall|i: int| 0 <= i < pieces@.len() ==> all[i] == (#[trigger] pieces@[i])@);
        // there is at least one piece
        assert(all.len() > 0);
    }
    if pieces.len() == 2 {
        let last_name = to_string(trim(pieces[0]));
        let first_name = to_string(trim(pieces[1]));
        Author { name: AuthorName::FirstNameLastName { first_name, last_name } }
    } else {
        let names = words(pieces[0]);
        proof {
            let all = words_of(pieces@[0]@);
            assert(all.len() == names@.len());
            assert(forall|i: int| 0 <= i < names@.len() ==> all[i] == (#[trigger] names@[i])@);
        }
        if names.len() > 2 {
            let second = to_string(names[1]);
            if is_initials(second.as_str()) {
                let space = to_chars(" ");
                let first_name = join(&names, names.len() - 1, space.as_slice());
                let last_name = to_string(names[names.len() - 1]);
                assert(views(names@.take(names@.len() - 1)) =~= views(names@).drop_last());
                return Author::new(first_name, last_name);
            }
        }
        if names.len() == 2 {
            Author::new(to_string(names[0]), to_string(names[1]))
        } else {
            Author::new_from_full_name(to_string(pieces[0]))
        }
    }
}

/// Reads the value of an author field into its names.
pub fn extract_authors_from_string(authors: &String) -> (names: Vec<Author>)
    ensures
        author_views(names@) == authors_of(authors@),
{
    let chars = to_chars(authors.as_str());
    let and = to_chars(" and ");
    let parts = split(chars.as_slice(), and.as_slice());
    let mut out: Vec<Author> = Vec::new();
    let mut i: usize = 0;
    while i < parts.len()
        invariant
            i <= parts.len(),
            views(parts@) == split_on(authors@, " and "@),
            author_views(out@) == authors_of(authors@).take(i as int),
        decreases parts.len() - i,
    {
        let author = parse_split_author(parts[i]);
        let ghost before = out@;
        out.push(author);
        proof {
            assert(views(parts@)[i as int] == parts@[i as int]@);
            assert(author_views(out@) =~= author_views(before).push(author@));
            assert(authors_of(authors@).take(i + 1) =~= authors_of(authors@).take(i as int).push(
                author_of(parts@[i as int]@),
            ));
        }
        i += 1;
    }
    assert(authors_of(authors@).take(i as int) =~= authors_of(authors@));
    out
}

// ---------------------------------------------------------------------------------------------
// Showing names
// ---------------------------------------------------------------------------------------------

/// The first character of a first name; the null character for an empty one.
pub open spec fn initial_of(first_name: Seq<char>) -> char {
    if first_name.len() > 0 {
        first_name[0]
    } else {
        '\0'
    }
}

/// How a name is shown: the last name, a comma, a space and the first character of the first
/// name; a name in one piece as it is.
pub open spec fn author_text(name: NameView) -> Seq<char> {
    match name {
        NameView::FirstNameLastName { first_name, last_name } => last_name + ", "@.push(
            initial_of(first_name),
        ),
        NameView::FullName(full_name) => full_name,
    }
}

/// How the names of a list are shown: each as `author_text` has it, with `"; "` between them.
pub open spec fn authors_text(names: Seq<NameView>) -> Seq<char> {
    joined(names.map_values(|name: NameView| author_text(name)), "; "@)
}

/// The text that shows `author`.
pub fn format_author(author: &Author) -> (s: String)
    ensures
        s@ == author_text(author@),
{
    match &author.name {
        AuthorName::FirstNameLastName { first_name, last_name } => {
            let mut out = last_name.clone();
            out.append(", ");
            let initial = if first_name.as_str().is_empty() {
                '\0'
            } else {
                first_name.as_str().get_char(0)
            };
            out.push(initial);
            assert(out@ =~= author_text(author@));
            out
        },
        AuthorName::FullName(full_name) => full_name.clone(),
    }
}

/// The text that shows all of `authors`.
pub fn format_authors(authors: &Vec<Author>) -> (s: String)
    ensures
        s@ == authors_text(author_views(authors@)),
{
    let mut out = String::new();
    let mut i: usize = 0;
    let ghost texts = author_views(authors@).map_values(|name: NameView| author_text(name));
    assert(texts.take(0) =~= Seq::<Seq<char>>::empty());
    while i < authors.len()
        invariant
            i <= authors.len(),
            texts == author_views(authors@).map_values(|name: NameView| author_text(name)),
            out@ == joined(texts.take(i as int), "; "@),
        decreases authors.len() - i,
    {
        if i > 0 {
            out.append("; ");
        }
        let one = format_author(&authors[i]);
        out.append(one.as_str());
        proof {
            assert(texts.take(i + 1) =~= texts.take(i as int).push(one@));
            lemma_joined_push(texts.take(i as int), "; "@, one@);
        }
        i += 1;
    }
    assert(texts.take(i as int) =~= texts);
    out
}

} // verus!
