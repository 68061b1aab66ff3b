//! What holds of the browser's state whatever the catalog: how the selection wraps around,
//! and what a search finds.

use crate::app::{
    entry_matches, found, next_index, previous_index, search_term, value_matches,
};
use crate::reference::Reference;
use crate::text::matches_at;
use crate::unicode::lowercase;
use vstd::prelude::*;

verus! {

/// In a catalog of `len` entries, going down from the last entry selects the first, and
/// going up from the first selects the last.
pub proof fn law_selection_wraps(len: nat)
    requires
        0 < len <= usize::MAX,
    ensures
        next_index(Some((len - 1) as usize), len) == Some(0usize),
        previous_index(Some(0usize), len) == Some((len - 1) as usize),
{
}

/// Going down and then up, or up and then down, leads back to the entry that was selected.
pub proof fn law_selection_returns(selected: usize, len: nat)
    requires
        selected < len <= usize::MAX,
    ensures
        previous_index(next_index(Some(selected), len), len) == Some(selected),
        next_index(previous_index(Some(selected), len), len) == Some(selected),
{
}

/// The selection stays within the catalog.
pub proof fn law_selection_stays_inside(selected: Option<usize>, len: nat)
    requires
        0 < len <= usize::MAX,
        selected matches Some(i) ==> i < len,
    ensures
        next_index(selected, len) matches Some(i) && i < len,
        previous_index(selected, len) matches Some(i) && i < len,
{
}

/// The empty term occurs in every value.
pub proof fn law_empty_term_matches(value: Seq<char>)
    ensures
        value_matches(value, Seq::empty()),
{
    let term = lowercase(Seq::<char>::empty());
    assert(term =~= Seq::<char>::empty());
    assert(lowercase(value).subrange(0, 0) =~= term);
    assert(matches_at(lowercase(value), term, 0));
}

/// A search for the empty term finds the whole catalog, in its order, where every entry has
/// at least one field.
pub proof fn law_empty_search_finds_all(items: Seq<Reference>)
    requires
        forall|i: int| 0 <= i < items.len() ==> (#[trigger] items[i])@.len() > 0,
    ensures
        found(items, search_term("/"@)) == items,
    decreases items.len(),
{
    reveal_strlit("/");
    let input = "/"@;
    assert(input.drop_first() =~= Seq::<char>::empty());
    assert(search_term(input.drop_first()) == Seq::<char>::empty());
    assert(search_term(input) == Seq::<char>::empty());
    lemma_all_found(items, Seq::empty());
}

/// A search finds the whole catalog where every entry matches the term.
proof fn lemma_all_found(items: Seq<Reference>, term: Seq<char>)
    requires
        term == Seq::<char>::empty(),
        forall|i: int| 0 <= i < items.len() ==> (#[trigger] items[i])@.len() > 0,
    ensures
        found(items, term) == items,
    decreases items.len(),
{
    reveal(Seq::filter);
    let wanted = |r: Reference| entry_matches(r@, term);
    if items.len() > 0 {
        let rest = items.drop_last();
        let last = items.last();
        assert forall|i: int| 0 <= i < rest.len() implies (#[trigger] rest[i])@.len() > 0 by {
            assert(rest[i] == items[i]);
        }
        lemma_all_found(rest, term);
        law_empty_term_matches(last@[0].1);
        assert(entry_matches(last@, term));
        assert(wanted(last));
        assert(rest.push(last) =~= items);
    }
}

/// What a search finds is made of entries of the catalog that match the term, and every
/// entry that matches is found.
pub proof fn law_found_are_the_matches(items: Seq<Reference>, term: Seq<char>)
    ensures
        forall|r: Reference| #[trigger]
            found(items, term).contains(r) <==> items.contains(r) && entry_matches(r@, term),
{
    let wanted = |r: Reference| entry_matches(r@, term);
    assert forall|r: Reference| #[trigger]
        found(items, term).contains(r) <==> items.contains(r) && entry_matches(
            r@,
            term,
        ) by {
        if found(items, term).contains(r) {
            items.lemma_filter_contains_rev(wanted, r);
            let i = choose|i: int| 0 <= i < found(items, term).len() && found(items, term)[i] == r;
            items.lemma_filter_pred(wanted, i);
        }
        if items.contains(r) && entry_matches(r@, term) {
            let i = choose|i: int| 0 <= i < items.len() && items[i] == r;
            items.lemma_filter_contains(wanted, i);
        }
    }
}

} // verus!
