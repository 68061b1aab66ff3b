//! The order of texts: that of the dictionary, character by character, by code point.

use std::cmp::Ordering;
use vstd::prelude::*;

verus! {

/// The number of characters at the start of `a` and `b` in which they agree.
pub open spec fn common_len(a: Seq<char>, b: Seq<char>) -> int
    decreases a.len(),
{
    if a.len() == 0 || b.len() == 0 || a[0] != b[0] {
        0
    } else {
        1 + common_len(a.drop_first(), b.drop_first())
    }
}

/// `common_len` is within both texts, they agree before it, and they differ at it where both
/// go on.
pub proof fn lemma_common_len(a: Seq<char>, b: Seq<char>)
    ensures
        0 <= common_len(a, b) <= a.len(),
        common_len(a, b) <= b.len(),
        forall|j: int| 0 <= j < common_len(a, b) ==> a[j] == b[j],
        common_len(a, b) < a.len() && common_len(a, b) < b.len() ==> a[common_len(a, b)]
            != b[common_len(a, b)],
    decreases a.len(),
{
    if a.len() == 0 || b.len() == 0 || a[0] != b[0] {
    } else {
        let x = a.drop_first();
        let y = b.drop_first();
        lemma_common_len(x, y);
        assert forall|j: int| 0 <= j < common_len(a, b) implies a[j] == b[j] by {
            if j > 0 {
                assert(a[j] == x[j - 1] && b[j] == y[j - 1]);
            }
        }
        let n = common_len(x, y);
        if n < x.len() && n < y.len() {
            assert(a[n + 1] == x[n] && b[n + 1] == y[n]);
        }
    }
}

/// An index within both texts before which they agree, and at which they differ where both
/// go on, is `common_len`.
pub proof fn lemma_common_len_is(a: Seq<char>, b: Seq<char>, n: int)
    requires
        0 <= n <= a.len(),
        n <= b.len(),
        forall|j: int| 0 <= j < n ==> a[j] == b[j],
        n < a.len() && n < b.len() ==> a[n] != b[n],
    ensures
        common_len(a, b) == n,
{
    lemma_common_len(a, b);
    let m = common_len(a, b);
    if m < n {
        assert(a[m] == b[m]);
    } else if n < m {
        assert(a[n] == b[n]);
    }
}

/// The number of characters at the start of `a` and `b` in which they agree.
pub fn common_prefix_len(a: &[char], b: &[char]) -> (n: usize)
    ensures
        n == common_len(a@, b@),
{
    let mut i: usize = 0;
    while i < a.len() && i < b.len() && a[i] == b[i]
        invariant
            i <= a.len(),
            i <= b.len(),
            forall|j: int| 0 <= j < i ==> a@[j] == b@[j],
        decreases a.len() - i,
    {
        i += 1;
    }
    proof {
        lemma_common_len_is(a@, b@, i as int);
    }
    i
}

/// How `a` stands to `b` in the order of the dictionary: the first character in which they
/// differ decides, by its code point; where there is none, the shorter text comes first.
pub open spec fn text_order(a: Seq<char>, b: Seq<char>) -> Ordering {
    let n = common_len(a, b);
    if n < a.len() && n < b.len() {
        if a[n] < b[n] {
            Ordering::Less
        } else {
            Ordering::Greater
        }
    } else if a.len() < b.len() {
        Ordering::Less
    } else if a.len() > b.len() {
        Ordering::Greater
    } else {
        Ordering::Equal
    }
}

/// How `a` stands to `b` where either may be missing: a missing text comes before every text.
pub open spec fn optional_order(a: Option<Seq<char>>, b: Option<Seq<char>>) -> Ordering {
    match (a, b) {
        (None, None) => Ordering::Equal,
        (None, Some(_)) => Ordering::Less,
        (Some(_), None) => Ordering::Greater,
        (Some(x), Some(y)) => text_order(x, y),
    }
}

/// How `a` stands to `b` in the order of the dictionary.
pub fn compare_text(a: &[char], b: &[char]) -> (o: Ordering)
    ensures
        o == text_order(a@, b@),
{
    let n = common_prefix_len(a, b);
    if n < a.len() && n < b.len() {
        if a[n] < b[n] {
            Ordering::Less
        } else {
            Ordering::Greater
        }
    } else if a.len() < b.len() {
        Ordering::Less
    } else if a.len() > b.len() {
        Ordering::Greater
    } else {
        Ordering::Equal
    }
}

/// Two texts compare as equal only where they are the same text.
pub proof fn law_equal_texts(a: Seq<char>, b: Seq<char>)
    ensures
        text_order(a, b) == Ordering::Equal <==> a == b,
{
    lemma_common_len(a, b);
    if text_order(a, b) == Ordering::Equal {
        assert(a =~= b);
    }
}

/// Swapping the two texts swaps `Less` and `Greater`.
pub proof fn law_order_reverses(a: Seq<char>, b: Seq<char>)
    ensures
        text_order(a, b) == Ordering::Less <==> text_order(b, a) == Ordering::Greater,
{
    lemma_common_len(a, b);
    lemma_common_len_is(b, a, common_len(a, b));
}

/// Whether `a` comes before `b` in the order of the dictionary, or is `b`.
pub open spec fn precedes(a: Seq<char>, b: Seq<char>) -> bool {
    text_order(a, b) != Ordering::Greater
}

/// Every text precedes itself.
pub proof fn law_order_reflexive(a: Seq<char>)
    ensures
        text_order(a, a) == Ordering::Equal,
{
    law_equal_texts(a, a);
}

/// Of two texts one precedes the other.
pub proof fn law_order_total(a: Seq<char>, b: Seq<char>)
    ensures
        precedes(a, b) || precedes(b, a),
{
    law_order_reverses(b, a);
}

/// Two texts that precede each other are one text.
pub proof fn law_order_antisymmetric(a: Seq<char>, b: Seq<char>)
    requires
        precedes(a, b),
        precedes(b, a),
    ensures
        a == b,
{
    law_order_reverses(a, b);
    law_order_reverses(b, a);
    law_equal_texts(a, b);
}

/// What precedes a text precedes all that the text precedes.
pub proof fn law_order_transitive(a: Seq<char>, b: Seq<char>, c: Seq<char>)
    requires
        precedes(a, b),
        precedes(b, c),
    ensures
        precedes(a, c),
{
    lemma_common_len(a, b);
    lemma_common_len(b, c);
    let n = common_len(a, b);
    let m = common_len(b, c);
    if n < m {
        assert forall|j: int| 0 <= j < n implies a[j] == c[j] by {
            assert(a[j] == b[j] && b[j] == c[j]);
        }
        if n < a.len() {
            assert(b[n] == c[n]);
        }
        lemma_common_len_is(a, c, n);
    } else if m < n {
        assert forall|j: int| 0 <= j < m implies a[j] == c[j] by {
            assert(a[j] == b[j] && b[j] == c[j]);
        }
        assert(a[m] == b[m]);
        lemma_common_len_is(a, c, m);
    } else {
        assert forall|j: int| 0 <= j < n implies a[j] == c[j] by {
            assert(a[j] == b[j] && b[j] == c[j]);
        }
        lemma_common_len_is(a, c, n);
    }
}

/// Where either text may be missing, what precedes a text precedes all that the text
/// precedes.
pub proof fn law_optional_order_transitive(
    a: Option<Seq<char>>,
    b: Option<Seq<char>>,
    c: Option<Seq<char>>,
)
    requires
        optional_order(a, b) != Ordering::Greater,
        optional_order(b, c) != Ordering::Greater,
    ensures
        optional_order(a, c) != Ordering::Greater,
{
    match (a, b, c) {
        (Some(x), Some(y), Some(z)) => {
            law_order_transitive(x, y, z);
        },
        _ => {},
    }
}

/// Where either text may be missing, swapping the two swaps `Less` and `Greater`, and two
/// that compare as equal are both missing or one text.
pub proof fn law_optional_order_total(a: Option<Seq<char>>, b: Option<Seq<char>>)
    ensures
        optional_order(a, b) == Ordering::Less <==> optional_order(b, a) == Ordering::Greater,
        optional_order(a, b) == Ordering::Equal <==> a == b,
{
    match (a, b) {
        (Some(x), Some(y)) => {
            law_order_reverses(x, y);
            law_equal_texts(x, y);
        },
        _ => {},
    }
}

} // verus!
