//! The state of the browser and what its commands do to it.

use crate::fields::{text_of, value_of};
use crate::reference::{bibtex_of, owned_text, reference_views, FieldType, Reference};
use crate::text::{contains, lines, lines_of, occurs_in, to_chars, to_string, views};
use crate::unicode::{display_width, lowercase, width};
use vstd::prelude::*;
use vstd::string::StringExecFns;

verus! {

/// The number of rows that one entry takes in the table.
pub const ITEM_HEIGHT: usize = 1;

/// The number of palettes that the table can be shown in.
pub const PALETTE_COUNT: usize = 4;

// ---------------------------------------------------------------------------------------------
// The status bar
// ---------------------------------------------------------------------------------------------

/// A line of text that is being typed.
#[derive(Debug)]
pub struct StatusBarInput {
    /// The text typed so far. It begins with `/`.
    pub input: String,
    /// The place of the cursor in `input`, counted in characters.
    pub cursor_position: usize,
}

/// What the status bar holds: a message to show, or a line that is being typed.
#[derive(Debug)]
pub enum StatusBar {
    Message(String),
    Input(StatusBarInput),
}

/// An input line by its characters.
pub struct InputView {
    pub input: Seq<char>,
    pub cursor_position: usize,
}

/// A status bar by its characters.
pub enum StatusBarView {
    Message(Seq<char>),
    Input(InputView),
}

impl InputView {
    /// Whether the line has its shape: it begins with `/`, and the cursor stands behind the
    /// `/` and not behind the end of the text.
    pub open spec fn well_formed(self) -> bool {
        &&& self.input.len() > 0
        &&& self.input[0] == '/'
        &&& 1 <= self.cursor_position <= self.input.len()
    }
}

impl StatusBarView {
    /// Whether a line that is being typed has its shape. A message has no shape to keep.
    pub open spec fn well_formed(self) -> bool {
        match self {
            StatusBarView::Message(_) => true,
            StatusBarView::Input(input) => input.well_formed(),
        }
    }
}

impl View for StatusBarInput {
    type V = InputView;

    open spec fn view(&self) -> InputView {
        InputView { input: self.input@, cursor_position: self.cursor_position }
    }
}

impl View for StatusBar {
    type V = StatusBarView;

    open spec fn view(&self) -> StatusBarView {
        match self {
            StatusBar::Message(message) => StatusBarView::Message(message@),
            StatusBar::Input(input) => StatusBarView::Input(input@),
        }
    }
}

impl Clone for StatusBarInput {
    fn clone(&self) -> (r: StatusBarInput)
        ensures
            r@ == self@,
    {
        StatusBarInput { input: self.input.clone(), cursor_position: self.cursor_position }
    }
}

impl Clone for StatusBar {
    fn clone(&self) -> (r: StatusBar)
        ensures
            r@ == self@,
    {
        match self {
            StatusBar::Message(message) => StatusBar::Message(message.clone()),
            StatusBar::Input(input) => StatusBar::Input(input.clone()),
        }
    }
}

impl StatusBar {
    /// The text that the status bar shows: the message, or the line that is being typed.
    pub fn text(&self) -> (text: &String)
        ensures
            text@ == match self@ {
                StatusBarView::Message(message) => message,
                StatusBarView::Input(input) => input.input,
            },
    {
        match self {
            StatusBar::Message(message) => message,
            StatusBar::Input(input) => &input.input,
        }
    }
}

// ---------------------------------------------------------------------------------------------
// Scrolling
// ---------------------------------------------------------------------------------------------

/// Where a scrollbar stands: the length of what it scrolls over, and the place in it.
#[derive(Debug, Clone, Copy, PartialEq, Eq)]
pub struct ScrollState {
    pub content_length: usize,
    pub position: usize,
}

impl ScrollState {
    /// The last place that `next` moves to: one before the length, and 0 for no content.
    pub open spec fn last_position(self) -> int {
        if self.content_length > 0 {
            self.content_length - 1
        } else {
            0
        }
    }

    /// The state one place further on, but not behind the last place.
    pub open spec fn after_next(self) -> ScrollState {
        ScrollState {
            position: if self.position < self.last_position() {
                (self.position + 1) as usize
            } else {
                self.last_position() as usize
            },
            ..self
        }
    }

    /// The state one place back, but not before the first place.
    pub open spec fn after_prev(self) -> ScrollState {
        ScrollState {
            position: if self.position > 0 {
                (self.position - 1) as usize
            } else {
                0
            },
            ..self
        }
    }

    /// The scrollbar over `content_length` places, at the first of them.
    pub fn new(content_length: usize) -> (state: ScrollState)
        ensures
            state == (ScrollState { content_length, position: 0 }),
    {
        ScrollState { content_length, position: 0 }
    }

    /// The same scrollbar at `position`.
    pub fn position(self, position: usize) -> (state: ScrollState)
        ensures
            state == (ScrollState { position, ..self }),
    {
        ScrollState { content_length: self.content_length, position }
    }

    /// Moves one place on.
    pub fn next(&mut self)
        ensures
            *final(self) == old(self).after_next(),
    {
        let last = self.content_length.saturating_sub(1);
        let moved = self.position.saturating_add(1);
        self.position = if moved < last {
            moved
        } else {
            last
        };
    }

    /// Moves one place back.
    pub fn prev(&mut self)
        ensures
            *final(self) == old(self).after_prev(),
    {
        self.position = self.position.saturating_sub(1);
    }
}

// ---------------------------------------------------------------------------------------------
// Column widths
// ---------------------------------------------------------------------------------------------

/// The largest of `widths`, and 0 where there is none.
pub open spec fn largest(widths: Seq<nat>) -> nat
    decreases widths.len(),
{
    if widths.len() == 0 {
        0
    } else if largest(widths.drop_last()) >= widths.last() {
        largest(widths.drop_last())
    } else {
        widths.last()
    }
}

/// The display width of the widest line of `text`, and 0 for the empty text.
pub open spec fn widest_line(text: Seq<char>) -> nat {
    largest(lines_of(text).map_values(|line: Seq<char>| display_width(line)))
}

/// The display width that a cell takes: that of its widest line, and 0 for a missing cell.
pub open spec fn cell_width(cell: Option<Seq<char>>) -> nat {
    match cell {
        Some(text) => widest_line(text),
        None => 0,
    }
}

/// The display width that a column takes: that of its widest cell.
pub open spec fn column_width(cells: Seq<Option<Seq<char>>>) -> nat {
    largest(cells.map_values(|cell: Option<Seq<char>>| cell_width(cell)))
}

/// The column of the values under `field`, one cell for each entry.
pub open spec fn field_column(items: Seq<Reference>, field: FieldType) -> Seq<Option<Seq<char>>> {
    items.map_values(|r: Reference| value_of(r@, field))
}

/// The column of the authors as they are shown, one cell for each entry.
pub open spec fn author_column(items: Seq<Reference>) -> Seq<Option<Seq<char>>> {
    items.map_values(|r: Reference| crate::reference::formatted_author_of(r@))
}

/// What is kept of a width: its 16 lowest bits.
pub open spec fn kept(width: nat) -> nat {
    width % 0x10000
}

/// The display widths of the columns of the key, the type, the authors as they are shown, the
/// year and the title, in this order, each cut down to its 16 lowest bits.
pub open spec fn column_lens(items: Seq<Reference>) -> (u16, u16, u16, u16, u16) {
    (
        kept(column_width(field_column(items, FieldType::Key))) as u16,
        kept(column_width(field_column(items, FieldType::Type))) as u16,
        kept(column_width(author_column(items))) as u16,
        kept(column_width(field_column(items, FieldType::Year))) as u16,
        kept(column_width(field_column(items, FieldType::Title))) as u16,
    )
}

/// `largest` of one more width.
pub proof fn lemma_largest_push(widths: Seq<nat>, last: nat)
    ensures
        largest(widths.push(last)) == if largest(widths) >= last {
            largest(widths)
        } else {
            last
        },
{
    assert(widths.push(last).drop_last() == widths);
}

/// The larger of `so_far` and the largest of `widths`.
pub fn max_width(so_far: usize, widths: &Vec<usize>) -> (m: usize)
    ensures
        m == if so_far >= largest(widths@.map_values(|w: usize| w as nat)) {
            so_far as nat
        } else {
            largest(widths@.map_values(|w: usize| w as nat))
        },
{
    let mut m = so_far;
    let mut i: usize = 0;
    let ghost all = widths@.map_values(|w: usize| w as nat);
    assert(all.take(0) =~= Seq::<nat>::empty());
    while i < widths.len()
        invariant
            i <= widths.len(),
            all == widths@.map_values(|w: usize| w as nat),
            m == if so_far >= largest(all.take(i as int)) {
                so_far as nat
            } else {
                largest(all.take(i as int))
            },
        decreases widths.len() - i,
    {
        proof {
            assert(all.take(i + 1) =~= all.take(i as int).push(widths@[i as int] as nat));
            lemma_largest_push(all.take(i as int), widths@[i as int] as nat);
        }
        if widths[i] > m {
            m = widths[i];
        }
        i += 1;
    }
    assert(all.take(i as int) =~= all);
    m
}

/// The display widths of the lines of `text`.
pub fn line_widths(text: &str) -> (widths: Vec<usize>)
    ensures
        widths@.map_values(|w: usize| w as nat) == lines_of(text@).map_values(
            |line: Seq<char>| display_width(line),
        ),
{
    let chars = to_chars(text);
    let all = lines(chars.as_slice());
    let mut widths: Vec<usize> = Vec::new();
    let mut i: usize = 0;
    let ghost wanted = lines_of(text@).map_values(|line: Seq<char>| display_width(line));
    while i < all.len()
        invariant
            i <= all.len(),
            views(all@) == lines_of(text@),
            wanted == lines_of(text@).map_values(|line: Seq<char>| display_width(line)),
            widths@.map_values(|w: usize| w as nat) == wanted.take(i as int),
        decreases all.len() - i,
    {
        let line = to_string(all[i]);
        let w = width(line.as_str());
        let ghost before = widths@;
        widths.push(w);
        proof {
            assert(views(all@)[i as int] == all@[i as int]@);
            assert(widths@.map_values(|w: usize| w as nat) =~= before.map_values(
                |w: usize| w as nat,
            ).push(w as nat));
            assert(wanted.take(i + 1) =~= wanted.take(i as int).push(wanted[i as int]));
        }
        i += 1;
    }
    assert(wanted.take(i as int) =~= wanted);
    widths
}

/// The larger of `so_far` and the display width that `cell` takes.
pub fn widen(so_far: usize, cell: Option<&String>) -> (m: usize)
    ensures
        m == if so_far >= cell_width(text_of(cell)) {
            so_far as nat
        } else {
            cell_width(text_of(cell))
        },
{
    match cell {
        Some(text) => {
            let widths = line_widths(text.as_str());
            max_width(so_far, &widths)
        },
        None => so_far,
    }
}

/// The 16 lowest bits of `width`.
pub fn keep(width: usize) -> (k: u16)
    ensures
        k == kept(width as nat),
{
    (width % 0x10000) as u16
}

/// The display widths of the columns of the key, the type, the authors as they are shown, the
/// year and the title, in this order. Each is the width of the widest line in the column, of
/// which the 16 lowest bits are kept.
pub fn constraint_len_calculator(items: &[Reference]) -> (lens: (u16, u16, u16, u16, u16))
    ensures
        lens == column_lens(items@),
{
    let mut key_len: usize = 0;
    let mut reference_type_len: usize = 0;
    let mut author_len: usize = 0;
    let mut year_len: usize = 0;
    let mut title_len: usize = 0;
    let mut i: usize = 0;
    proof {
        lemma_column_empty(field_column(items@, FieldType::Key));
        lemma_column_empty(field_column(items@, FieldType::Type));
        lemma_column_empty(author_column(items@));
        lemma_column_empty(field_column(items@, FieldType::Year));
        lemma_column_empty(field_column(items@, FieldType::Title));
    }
    while i < items.len()
        invariant
            i <= items.len(),
            key_len == column_width(field_column(items@, FieldType::Key).take(i as int)),
            reference_type_len == column_width(
                field_column(items@, FieldType::Type).take(i as int),
            ),
            author_len == column_width(author_column(items@).take(i as int)),
            year_len == column_width(field_column(items@, FieldType::Year).take(i as int)),
            title_len == column_width(field_column(items@, FieldType::Title).take(i as int)),
        decreases items.len() - i,
    {
        let item = &items[i];
        proof {
            lemma_column_push(field_column(items@, FieldType::Key), i as int);
            lemma_column_push(field_column(items@, FieldType::Type), i as int);
            lemma_column_push(author_column(items@), i as int);
            lemma_column_push(field_column(items@, FieldType::Year), i as int);
            lemma_column_push(field_column(items@, FieldType::Title), i as int);
        }
        key_len = widen(key_len, item.key());
        reference_type_len = widen(reference_type_len, item.reference_type());
        let author = item.formatted_author();
        author_len = widen(author_len, author.as_ref());
        year_len = widen(year_len, item.year());
        title_len = widen(title_len, item.title());
        i += 1;
    }
    proof {
        assert(field_column(items@, FieldType::Key).take(i as int) =~= field_column(
            items@,
            FieldType::Key,
        ));
        assert(field_column(items@, FieldType::Type).take(i as int) =~= field_column(
            items@,
            FieldType::Type,
        ));
        assert(author_column(items@).take(i as int) =~= author_column(items@));
        assert(field_column(items@, FieldType::Year).take(i as int) =~= field_column(
            items@,
            FieldType::Year,
        ));
        assert(field_column(items@, FieldType::Title).take(i as int) =~= field_column(
            items@,
            FieldType::Title,
        ));
    }
    (
        keep(key_len),
        keep(reference_type_len),
        keep(author_len),
        keep(year_len),
        keep(title_len),
    )
}

/// A column without cells has no width.
pub proof fn lemma_column_empty(cells: Seq<Option<Seq<char>>>)
    ensures
        column_width(cells.take(0)) == 0,
{
    assert(cells.take(0).map_values(|cell: Option<Seq<char>>| cell_width(cell)) =~= Seq::<
        nat,
    >::empty());
}

/// The width of a column with one more cell.
pub proof fn lemma_column_push(cells: Seq<Option<Seq<char>>>, i: int)
    requires
        0 <= i < cells.len(),
    ensures
        column_width(cells.take(i + 1)) == if column_width(cells.take(i)) >= cell_width(cells[i]) {
            column_width(cells.take(i))
        } else {
            cell_width(cells[i])
        },
{
    let widths = cells.take(i).map_values(|cell: Option<Seq<char>>| cell_width(cell));
    assert(cells.take(i + 1).map_values(|cell: Option<Seq<char>>| cell_width(cell)) =~= widths.push(
        cell_width(cells[i]),
    ));
    lemma_largest_push(widths, cell_width(cells[i]));
}

// ---------------------------------------------------------------------------------------------
// Searching
// ---------------------------------------------------------------------------------------------

/// `input` without the slashes at its start.
pub open spec fn search_term(input: Seq<char>) -> Seq<char>
    decreases input.len(),
{
    if input.len() > 0 && input[0] == '/' {
        search_term(input.drop_first())
    } else {
        input
    }
}

/// Whether `term` occurs in `value`, both taken in lowercase.
pub open spec fn value_matches(value: Seq<char>, term: Seq<char>) -> bool {
    occurs_in(lowercase(term), lowercase(value))
}

/// Whether `term` occurs in the value of a field of the entry, the title among them, without
/// regard to case.
pub open spec fn entry_matches(entry: Seq<(FieldType, Seq<char>)>, term: Seq<char>) -> bool {
    exists|i: int| 0 <= i < entry.len() && value_matches(#[trigger] entry[i].1, term)
}

/// The entries that a search for `term` finds, in the order of the catalog.
pub open spec fn found(items: Seq<Reference>, term: Seq<char>) -> Seq<Reference> {
    items.filter(|r: Reference| entry_matches(r@, term))
}

/// What the search finds while the status bar holds `status_bar`: the entries that match the
/// term that is being typed, and nothing while a message is shown.
pub open spec fn search_results_of(items: Seq<Reference>, status_bar: StatusBarView) -> Seq<
    Seq<(FieldType, Seq<char>)>,
> {
    match status_bar {
        StatusBarView::Message(_) => Seq::empty(),
        StatusBarView::Input(input) => reference_views(
            found(items, search_term(input.input)),
        ),
    }
}

/// Cuts the slashes off the start of `input`.
pub fn strip_slashes<'a>(input: &'a [char]) -> (term: &'a [char])
    ensures
        term@ == search_term(input@),
{
    let mut i: usize = 0;
    assert(input@.skip(0) == input@);
    while i < input.len() && input[i] == '/'
        invariant
            i <= input.len(),
            search_term(input@) == search_term(input@.skip(i as int)),
        decreases input.len() - i,
    {
        assert(input@.skip(i as int).drop_first() == input@.skip(i + 1));
        i += 1;
    }
    assert(input@.skip(i as int) == input@.subrange(i as int, input@.len() as int));
    vstd::slice::slice_subrange(input, i, input.len())
}

/// Whether `term`, which is in lowercase, occurs in the lowercase form of `value`.
pub fn value_contains(value: &str, term: &[char]) -> (r: bool)
    ensures
        r == occurs_in(term@, lowercase(value@)),
{
    let lower = value.to_lowercase();
    let chars = to_chars(lower.as_str());
    contains(chars.as_slice(), term)
}

/// Whether `pattern` occurs in the value of a field of `reference`, without regard to case.
pub fn reference_contains(reference: &Reference, pattern: &str) -> (r: bool)
    ensures
        r == entry_matches(reference@, pattern@),
{
    let lower = pattern.to_lowercase();
    let term = to_chars(lower.as_str());
    let mut i: usize = 0;
    while i < reference.fields.len()
        invariant
            i <= reference@.len(),
            term@ == lowercase(pattern@),
            forall|j: int| 0 <= j < i ==> !value_matches(#[trigger] reference@[j].1, pattern@),
        decreases reference@.len() - i,
    {
        if value_contains(reference.fields.value_at(i).as_str(), term.as_slice()) {
            assert(value_matches(reference@[i as int].1, pattern@));
            return true;
        }
        i += 1;
    }
    false
}

// ---------------------------------------------------------------------------------------------
// The state
// ---------------------------------------------------------------------------------------------

/// The place that the selection moves to from `selected` in a catalog of `len` entries, going
/// down: the next entry, and the first one after the last. Nothing is selected in an empty
/// catalog.
pub open spec fn next_index(selected: Option<usize>, len: nat) -> Option<usize> {
    if len == 0 {
        None
    } else {
        match selected {
            Some(i) => if i + 1 >= len {
                Some(0)
            } else {
                Some((i + 1) as usize)
            },
            None => Some(0),
        }
    }
}

/// The place that the selection moves to from `selected` in a catalog of `len` entries, going
/// up: the entry before, and the last one before the first. Nothing is selected in an empty
/// catalog.
pub open spec fn previous_index(selected: Option<usize>, len: nat) -> Option<usize> {
    if len == 0 {
        None
    } else {
        match selected {
            Some(i) => if i == 0 {
                Some((len - 1) as usize)
            } else {
                Some((i - 1) as usize)
            },
            None => Some(0),
        }
    }
}

/// The place of the vertical scrollbar that belongs to a selection.
pub open spec fn scroll_position(selected: Option<usize>) -> usize {
    match selected {
        Some(i) => i,
        None => 0,
    }
}

/// The index of the palette after `index`, the first one after the last.
pub open spec fn next_palette(index: usize) -> usize {
    ((index % PALETTE_COUNT + 1) % (PALETTE_COUNT as int)) as usize
}

/// The index of the palette before `index`, the last one before the first.
pub open spec fn previous_palette(index: usize) -> usize {
    ((index % PALETTE_COUNT + PALETTE_COUNT - 1) % (PALETTE_COUNT as int)) as usize
}

/// The message that tells of a copy of the entry under `key`.
pub open spec fn copied_message(key: Seq<char>) -> Seq<char> {
    "Copied "@ + key + " to the clipboard as BibTeX."@
}

/// The state of the browser.
pub struct App {
    /// The index of the selected entry.
    pub selected: Option<usize>,
    /// The catalog.
    pub items: Vec<Reference>,
    /// The display widths of the columns of the key, the type, the authors, the year and
    /// the title.
    pub longest_item_lens: (u16, u16, u16, u16, u16),
    /// The scrollbar along the rows.
    pub vertical_scroll: ScrollState,
    /// The scrollbar along the columns.
    pub horizontal_scroll: ScrollState,
    /// The fields that the table shows, in the order of its columns.
    pub visible_headers: Vec<FieldType>,
    /// The index of the palette that the table is shown in.
    pub color_index: usize,
    /// What the status bar holds.
    pub status_bar: StatusBar,
    /// What the last search found.
    pub search_results: Vec<Reference>,
}

impl App {
    /// Whether the state holds together: an entry of the catalog is selected unless the
    /// catalog is empty, the vertical scrollbar stands where the selection is, the palette is
    /// one of those there are, and a line that is being typed has its shape.
    pub open spec fn well_formed(&self) -> bool {
        &&& self.status_bar@.well_formed()
        &&& self.items@.len() == 0 ==> self.selected is None
        &&& self.items@.len() > 0 ==> (self.selected matches Some(i) && i < self.items@.len())
        &&& self.vertical_scroll.position == scroll_position(self.selected)
        &&& self.color_index < PALETTE_COUNT
    }

    /// The selected entry.
    pub open spec fn selected_entry(&self) -> Option<Reference> {
        match self.selected {
            Some(i) => if i < self.items@.len() {
                Some(self.items@[i as int])
            } else {
                None
            },
            None => None,
        }
    }

    /// Whether `other` differs from this state in nothing but the selection and the place of
    /// the vertical scrollbar.
    pub open spec fn same_but_selection(&self, other: &App) -> bool {
        &&& other.items == self.items
        &&& other.longest_item_lens == self.longest_item_lens
        &&& other.vertical_scroll.content_length == self.vertical_scroll.content_length
        &&& other.horizontal_scroll == self.horizontal_scroll
        &&& other.visible_headers == self.visible_headers
        &&& other.color_index == self.color_index
        &&& other.status_bar == self.status_bar
        &&& other.search_results == self.search_results
    }

    /// Whether `other` differs from this state in nothing but the status bar.
    pub open spec fn same_but_status(&self, other: &App) -> bool {
        &&& other.selected == self.selected
        &&& other.items == self.items
        &&& other.longest_item_lens == self.longest_item_lens
        &&& other.vertical_scroll == self.vertical_scroll
        &&& other.horizontal_scroll == self.horizontal_scroll
        &&& other.visible_headers == self.visible_headers
        &&& other.color_index == self.color_index
        &&& other.search_results == self.search_results
    }

    /// Whether `other` differs from this state in nothing but what the search found.
    pub open spec fn same_but_results(&self, other: &App) -> bool {
        &&& other.selected == self.selected
        &&& other.items == self.items
        &&& other.longest_item_lens == self.longest_item_lens
        &&& other.vertical_scroll == self.vertical_scroll
        &&& other.horizontal_scroll == self.horizontal_scroll
        &&& other.visible_headers == self.visible_headers
        &&& other.color_index == self.color_index
        &&& other.status_bar == self.status_bar
    }

    /// The state at the start: the first entry of `references` is selected, or none where
    /// there is no entry; the table shows the key, the type, the authors, the year and the
    /// title in the first palette; the status bar shows an empty message; nothing was found.
    pub fn new(references: Vec<Reference>) -> (app: App)
        ensures
            app.well_formed(),
            app.items == references,
            app.selected == if references@.len() == 0 {
                None
            } else {
                Some(0usize)
            },
            app.longest_item_lens == column_lens(references@),
            app.vertical_scroll == (ScrollState {
                content_length: if references@.len() == 0 {
                    0
                } else {
                    (references@.len() - 1) as usize
                },
                position: 0,
            }),
            app.horizontal_scroll == (ScrollState { content_length: 5, position: 0 }),
            app.visible_headers@ == seq![
                FieldType::Key,
                FieldType::Type,
                FieldType::Author,
                FieldType::Year,
                FieldType::Title,
            ],
            app.color_index == 0,
            app.status_bar@ == StatusBarView::Message(Seq::empty()),
            app.search_results@.len() == 0,
    {
        let longest_item_lens = constraint_len_calculator(references.as_slice());
        let mut visible_headers: Vec<FieldType> = Vec::new();
        visible_headers.push(FieldType::Key);
        visible_headers.push(FieldType::Type);
        visible_headers.push(FieldType::Author);
        visible_headers.push(FieldType::Year);
        visible_headers.push(FieldType::Title);
        assert(visible_headers@ =~= seq![
            FieldType::Key,
            FieldType::Type,
            FieldType::Author,
            FieldType::Year,
            FieldType::Title,
        ]);
        let selected = if references.len() == 0 {
            None
        } else {
            Some(0)
        };
        App {
            selected,
            longest_item_lens,
            vertical_scroll: ScrollState::new(references.len().saturating_sub(1) * ITEM_HEIGHT),
            horizontal_scroll: ScrollState::new(visible_headers.len()),
            visible_headers,
            color_index: 0,
            items: references,
            status_bar: StatusBar::Message(String::new()),
            search_results: Vec::new(),
        }
    }

    /// Selects the next entry, and the first one after the last.
    pub fn select_next(&mut self)
        ensures
            final(self).selected == next_index(old(self).selected, old(self).items@.len()),
            final(self).vertical_scroll.position == scroll_position(final(self).selected),
            old(self).same_but_selection(final(self)),
            old(self).well_formed() ==> final(self).well_formed(),
    {
        if self.items.len() == 0 {
            self.selected = None;
            self.vertical_scroll.position = 0;
            return ;
        }
        let i = match self.selected {
            Some(i) => {
                if i >= self.items.len() - 1 {
                    0
                } else {
                    i + 1
                }
            },
            None => 0,
        };
        self.selected = Some(i);
        self.vertical_scroll.position = i * ITEM_HEIGHT;
    }

    /// Selects the entry before, and the last one before the first.
    pub fn select_previous(&mut self)
        ensures
            final(self).selected == previous_index(old(self).selected, old(self).items@.len()),
            final(self).vertical_scroll.position == scroll_position(final(self).selected),
            old(self).same_but_selection(final(self)),
            old(self).well_formed() ==> final(self).well_formed(),
    {
        if self.items.len() == 0 {
            self.selected = None;
            self.vertical_scroll.position = 0;
            return ;
        }
        let i = match self.selected {
            Some(i) => {
                if i == 0 {
                    self.items.len() - 1
                } else {
                    i - 1
                }
            },
            None => 0,
        };
        self.selected = Some(i);
        self.vertical_scroll.position = i * ITEM_HEIGHT;
    }

    /// Scrolls one column on, but not behind the last.
    pub fn select_next_column(&mut self)
        ensures
            *final(self) == (App {
                horizontal_scroll: old(self).horizontal_scroll.after_next(),
                ..*old(self)
            }),
            old(self).well_formed() ==> final(self).well_formed(),
    {
        self.horizontal_scroll.next();
    }

    /// Scrolls one column back, but not before the first.
    pub fn select_previous_column(&mut self)
        ensures
            *final(self) == (App {
                horizontal_scroll: old(self).horizontal_scroll.after_prev(),
                ..*old(self)
            }),
            old(self).well_formed() ==> final(self).well_formed(),
    {
        self.horizontal_scroll.prev();
    }

    /// Takes the next palette, and the first one after the last.
    pub fn next_color(&mut self)
        ensures
            *final(self) == (App { color_index: next_palette(old(self).color_index), ..*old(self) }),
            old(self).well_formed() ==> final(self).well_formed(),
    {
        self.color_index = (self.color_index % PALETTE_COUNT + 1) % PALETTE_COUNT;
    }

    /// Takes the palette before, and the last one before the first.
    pub fn previous_color(&mut self)
        ensures
            *final(self) == (App {
                color_index: previous_palette(old(self).color_index),
                ..*old(self)
            }),
            old(self).well_formed() ==> final(self).well_formed(),
    {
        self.color_index = (self.color_index % PALETTE_COUNT + PALETTE_COUNT - 1) % PALETTE_COUNT;
    }

    /// Puts the catalog in the order of the rows: by the authors as they are shown, entries
    /// without an author field first. Entries whose authors are shown alike keep the order
    /// they had. The selection stays at its index.
    pub fn sort_items(&mut self)
        ensures
            final(self).items@.to_multiset() == old(self).items@.to_multiset(),
            final(self).items@.len() == old(self).items@.len(),
            crate::ui::sorted_by_author(final(self).items@),
            forall|r: Reference| #[trigger]
                crate::ui::tied_with(final(self).items@, r) == crate::ui::tied_with(
                    old(self).items@,
                    r,
                ),
            old(self).well_formed() ==> final(self).well_formed(),
            *final(self) == (App { items: final(self).items, ..*old(self) }),
    {
        proof {
            vstd::seq_lib::to_multiset_len(self.items@);
        }
        crate::ui::sort_by_authors(&mut self.items);
        proof {
            vstd::seq_lib::to_multiset_len(self.items@);
        }
    }

    /// The selected entry.
    pub fn selected_reference(&self) -> (reference: Option<&Reference>)
        ensures
            match self.selected_entry() {
                Some(entry) => reference == Some(&entry),
                None => reference is None,
            },
    {
        match self.selected {
            Some(i) => {
                if i < self.items.len() {
                    Some(&self.items[i])
                } else {
                    None
                }
            },
            None => None,
        }
    }

    /// The BibTeX text of the selected entry, which is what a yank copies. `None` where no
    /// entry is selected.
    pub fn yank(&self) -> (bibtex: Option<String>)
        ensures
            owned_text(bibtex) == match self.selected_entry() {
                Some(entry) => Some(bibtex_of(entry@)),
                None => None,
            },
    {
        match self.selected_reference() {
            Some(reference) => Some(reference.to_bibtex()),
            None => None,
        }
    }

    /// Tells in the status bar how a yank went: that the selected entry was copied, with its
    /// key, where `copied` says so and an entry is selected; else that the yank failed.
    pub fn yank_finished(&mut self, copied: bool)
        ensures
            old(self).same_but_status(final(self)),
            old(self).well_formed() ==> final(self).well_formed(),
            final(self).status_bar@ == StatusBarView::Message(
                match old(self).selected_entry() {
                    Some(entry) if copied => copied_message(
                        match value_of(entry@, FieldType::Key) {
                            Some(key) => key,
                            None => Seq::empty(),
                        },
                    ),
                    _ => "Yank failed."@,
                },
            ),
    {
        let message = match self.selected_reference() {
            Some(reference) if copied => {
                let mut message = String::from_str("Copied ");
                match reference.key() {
                    Some(key) => message.append(key.as_str()),
                    None => {},
                }
                message.append(" to the clipboard as BibTeX.");
                assert(message@ =~= copied_message(
                    match value_of(reference@, FieldType::Key) {
                        Some(key) => key,
                        None => Seq::empty(),
                    },
                ));
                message
            },
            _ => String::from_str("Yank failed."),
        };
        self.status_bar = StatusBar::Message(message);
    }

    /// Starts the typing of a search term: the status bar holds the input `/` with the cursor
    /// behind it.
    pub fn enter_search_mode(&mut self)
        ensures
            old(self).same_but_status(final(self)),
            old(self).well_formed() ==> final(self).well_formed(),
            final(self).status_bar@ == StatusBarView::Input(
                InputView { input: "/"@, cursor_position: 1 },
            ),
            final(self).status_bar@.well_formed(),
    {
        proof {
            reveal_strlit("/");
        }
        self.status_bar = StatusBar::Input(
            StatusBarInput { input: String::from_str("/"), cursor_position: 1 },
        );
    }

    /// Finds the entries that match the term in the status bar: those in which the term,
    /// without the slashes at its start, occurs in the value of a field, without regard to
    /// case. While the status bar shows a message, nothing is found.
    pub fn search(&mut self)
        ensures
            old(self).same_but_results(final(self)),
            old(self).well_formed() ==> final(self).well_formed(),
            reference_views(final(self).search_results@) == search_results_of(
                old(self).items@,
                old(self).status_bar@,
            ),
    {
        let mut search_results: Vec<Reference> = Vec::new();
        match &self.status_bar {
            StatusBar::Message(_) => {
                assert(reference_views(search_results@) =~= Seq::empty());
            },
            StatusBar::Input(status_bar_input) => {
                let chars = to_chars(status_bar_input.input.as_str());
                let search_value = to_string(strip_slashes(chars.as_slice()));
                let ghost term = search_term(status_bar_input.input@);
                let ghost wanted = |r: Reference| entry_matches(r@, term);
                let mut i: usize = 0;
                proof {
                    assert(self.items@.take(0) =~= Seq::<Reference>::empty());
                    reveal(Seq::filter);
                    assert(reference_views(search_results@) =~= Seq::empty());
                }
                while i < self.items.len()
                    invariant
                        i <= self.items.len(),
                        search_value@ == term,
                        wanted == |r: Reference| entry_matches(r@, term),
                        reference_views(search_results@)
                            == reference_views(
                            self.items@.take(i as int).filter(wanted),
                        ),
                    decreases self.items.len() - i,
                {
                    let ghost before = search_results@;
                    let ghost upto = self.items@.take(i as int);
                    proof {
                        assert(self.items@.take(i + 1) =~= upto.push(self.items@[i as int]));
                        upto.lemma_filter_push(self.items@[i as int], wanted);
                    }
                    if reference_contains(&self.items[i], search_value.as_str()) {
                        let copy = self.items[i].clone();
                        search_results.push(copy);
                        assert(reference_views(search_results@)
                            =~= reference_views(before).push(copy@));
                        assert(reference_views(
                            upto.filter(wanted).push(self.items@[i as int]),
                        ) =~= reference_views(upto.filter(wanted)).push(
                            self.items@[i as int]@,
                        ));
                    }
                    i += 1;
                }
                assert(self.items@.take(i as int) =~= self.items@);
            },
        }
        self.search_results = search_results;
    }
}

} // verus!
