//! What the screen needs of the state: the cursor of the input line and the order of the rows.

use crate::app::StatusBarInput;
use crate::order::optional_order;
use crate::reference::{compare_optional, formatted_author_of, Reference};
use crate::text::{push_chars, to_chars};
use std::cmp::Ordering;
use vstd::prelude::*;
use vstd::slice::slice_subrange;
use vstd::string::StrSliceExecFns;

verus! {

/// The position nearest to `position` at which a cursor can stand in an input of `len`
/// characters: at most one place behind its end.
pub open spec fn clamped(len: nat, position: int) -> int {
    if position <= len {
        position
    } else {
        (len + 1) as int
    }
}

/// The position one place to the left of `position`, or `position` where it is the first.
pub open spec fn one_less(position: usize) -> int {
    if position > 0 {
        position - 1
    } else {
        0
    }
}

/// The position one place to the right of `position`, or `position` where it is the last
/// that a `usize` holds.
pub open spec fn one_more(position: usize) -> int {
    if position < usize::MAX {
        position + 1
    } else {
        position as int
    }
}

/// `input` with `c` put in at the place `at`, at its end where `at` lies behind it.
pub open spec fn with_char(input: Seq<char>, at: int, c: char) -> Seq<char> {
    if 0 <= at <= input.len() {
        input.take(at).push(c) + input.skip(at)
    } else {
        input.push(c)
    }
}

/// `input` without the character before the place `at`. Nothing leaves where `at` lies more
/// than one place behind the end.
pub open spec fn without_char_before(input: Seq<char>, at: int) -> Seq<char> {
    if 1 <= at <= input.len() {
        input.take(at - 1) + input.skip(at)
    } else {
        input
    }
}

/// The place of the cursor after it was moved to `new_cursor_pos`, which is brought back to
/// one place behind the end of the input where it lies further out. Places count characters.
pub fn clamp_cursor(status_bar_input: &StatusBarInput, new_cursor_pos: usize) -> (position: usize)
    ensures
        position == clamped(status_bar_input.input@.len(), new_cursor_pos as int),
{
    let len = status_bar_input.input.as_str().unicode_len();
    if new_cursor_pos <= len {
        new_cursor_pos
    } else {
        len + 1
    }
}

/// The place one to the left of `cursor_position`.
pub fn move_cursor_left(status_bar_input: &StatusBarInput, cursor_position: usize) -> (position:
    usize)
    ensures
        position == clamped(status_bar_input.input@.len(), one_less(cursor_position)),
{
    let cursor_moved_left = cursor_position.saturating_sub(1);
    clamp_cursor(status_bar_input, cursor_moved_left)
}

/// The place one to the right of `cursor_position`.
pub fn move_cursor_right(status_bar_input: &StatusBarInput, cursor_position: usize) -> (position:
    usize)
    ensures
        position == clamped(status_bar_input.input@.len(), one_more(cursor_position)),
{
    let cursor_moved_right = cursor_position.saturating_add(1);
    clamp_cursor(status_bar_input, cursor_moved_right)
}

/// The input after `new_char` was typed: it stands at the cursor, and the cursor has moved one
/// place to the right.
pub fn enter_char(status_bar_input: &StatusBarInput, new_char: char) -> (next: StatusBarInput)
    ensures
        next.input@ == with_char(
            status_bar_input.input@,
            status_bar_input.cursor_position as int,
            new_char,
        ),
        next.cursor_position == clamped(
            status_bar_input.input@.len(),
            one_more(status_bar_input.cursor_position),
        ),
        status_bar_input@.well_formed() ==> next@.well_formed(),
{
    let chars = to_chars(status_bar_input.input.as_str());
    let at = if status_bar_input.cursor_position <= chars.len() {
        status_bar_input.cursor_position
    } else {
        chars.len()
    };
    let mut next_input = String::new();
    push_chars(&mut next_input, slice_subrange(chars.as_slice(), 0, at));
    next_input.push(new_char);
    push_chars(&mut next_input, slice_subrange(chars.as_slice(), at, chars.len()));
    proof {
        let input = status_bar_input.input@;
        assert(input.subrange(0, at as int) == input.take(at as int));
        assert(input.subrange(at as int, input.len() as int) == input.skip(at as int));
        if at < status_bar_input.cursor_position {
            assert(input.take(at as int) == input);
            assert(input.skip(at as int) =~= Seq::<char>::empty());
            assert(input.push(new_char) + Seq::<char>::empty() =~= input.push(new_char));
        }
    }
    let next_cursor_position = move_cursor_right(
        status_bar_input,
        status_bar_input.cursor_position,
    );
    StatusBarInput { cursor_position: next_cursor_position, input: next_input }
}

/// The input after the character before the cursor was deleted. With the cursor at the first
/// place behind the leading `/`, or before it, nothing changes. Otherwise the cursor moves one
/// place to the left, to where the deleted character stood.
pub fn delete_char(status_bar_input: &StatusBarInput) -> (next: StatusBarInput)
    ensures
        status_bar_input.cursor_position <= 1 ==> next@ == status_bar_input@,
        status_bar_input.cursor_position > 1 ==> next.input@ == without_char_before(
            status_bar_input.input@,
            status_bar_input.cursor_position as int,
        ) && next.cursor_position == clamped(
            status_bar_input.input@.len(),
            status_bar_input.cursor_position - 1,
        ),
        status_bar_input@.well_formed() ==> next@.well_formed(),
{
    if status_bar_input.cursor_position > 1 {
        let current_index = status_bar_input.cursor_position;
        let chars = to_chars(status_bar_input.input.as_str());
        let mut next_input = String::new();
        if current_index <= chars.len() {
            push_chars(&mut next_input, slice_subrange(chars.as_slice(), 0, current_index - 1));
            push_chars(
                &mut next_input,
                slice_subrange(chars.as_slice(), current_index, chars.len()),
            );
            proof {
                let input = status_bar_input.input@;
                assert(input.subrange(0, current_index - 1) == input.take(current_index - 1));
                assert(input.subrange(current_index as int, input.len() as int) == input.skip(
                    current_index as int,
                ));
            }
        } else {
            push_chars(&mut next_input, chars.as_slice());
            assert(next_input@ =~= status_bar_input.input@);
        }
        let next_cursor_position = move_cursor_left(status_bar_input, current_index);
        StatusBarInput { cursor_position: next_cursor_position, input: next_input }
    } else {
        status_bar_input.clone()
    }
}

/// How `a` stands to `b` in the order of the rows: by their authors as they are shown, an
/// entry without an author field first.
pub fn compare_authors(a: &Reference, b: &Reference) -> (o: Ordering)
    ensures
        o == optional_order(formatted_author_of(a@), formatted_author_of(b@)),
{
    let x = a.formatted_author();
    let y = b.formatted_author();
    compare_optional(x.as_ref(), y.as_ref())
}

/// Whether `a` may stand before `b` in the rows: `a` does not come after `b` by their
/// authors as they are shown.
pub open spec fn in_author_order(a: Reference, b: Reference) -> bool {
    optional_order(formatted_author_of(a@), formatted_author_of(b@)) != Ordering::Greater
}

/// Whether each entry may stand before all that follow it.
pub open spec fn sorted_by_author(items: Seq<Reference>) -> bool {
    forall|i: int, j: int| 0 <= i < j < items.len() ==> in_author_order(items[i], items[j])
}

/// Whether `a` and `b` have the same place in the order of the rows: their authors are shown
/// alike, or both have no author field.
pub open spec fn ties(a: Reference, b: Reference) -> bool {
    optional_order(formatted_author_of(a@), formatted_author_of(b@)) == Ordering::Equal
}

/// The entries of `items` that have the same place in the order as `r`, in their order.
pub open spec fn tied_with(items: Seq<Reference>, r: Reference) -> Seq<Reference> {
    items.filter(|x: Reference| ties(x, r))
}

/// `slice::sort_by` of the standard library, with `compare_authors` as the order, which is a
/// total one. Taken on trust: it puts the items in that order, neither adds nor loses one,
/// and leaves items with the same place in the order in the order they had.
#[verifier::external_body]
pub(crate) fn sort_by_authors(items: &mut Vec<Reference>)
    ensures
        final(items)@.to_multiset() == old(items)@.to_multiset(),
        sorted_by_author(final(items)@),
        forall|r: Reference| #[trigger] tied_with(final(items)@, r) == tied_with(old(items)@, r),
{
    items.sort_by(|a, b| compare_authors(a, b));
}

} // verus!
