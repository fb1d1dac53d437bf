//! The order of names.

use crate::text::names;
use vstd::prelude::*;
use vstd::relations::{
    antisymmetric, reflexive, sorted_by, strongly_connected, total_ordering, transitive,
};
use vstd::seq_lib::lemma_sorted_unique;
use vstd::utf8::{encode_utf8, encode_utf8_decode_utf8};

verus! {

/// Whether bytes come no later than others, by the first that differs.
pub open spec fn bytes_ordered(a: Seq<u8>, b: Seq<u8>) -> bool
    decreases a.len(),
{
    if a.len() == 0 {
        true
    } else if b.len() == 0 {
        false
    } else if a[0] != b[0] {
        a[0] < b[0]
    } else {
        bytes_ordered(a.skip(1), b.skip(1))
    }
}

/// Whether a name comes no later than another, by their bytes.
pub open spec fn ordered(a: Seq<char>, b: Seq<char>) -> bool {
    bytes_ordered(encode_utf8(a), encode_utf8(b))
}

/// Names in order.
pub open spec fn in_order(list: Seq<Seq<char>>) -> Seq<Seq<char>> {
    list.sort_by(|a: Seq<char>, b: Seq<char>| ordered(a, b))
}

proof fn lemma_bytes_reflexive(a: Seq<u8>)
    ensures
        bytes_ordered(a, a),
    decreases a.len(),
{
    if a.len() > 0 {
        lemma_bytes_reflexive(a.skip(1));
    }
}

proof fn lemma_bytes_connected(a: Seq<u8>, b: Seq<u8>)
    ensures
        bytes_ordered(a, b) || bytes_ordered(b, a),
    decreases a.len(),
{
    if a.len() > 0 && b.len() > 0 {
        lemma_bytes_connected(a.skip(1), b.skip(1));
    }
}

proof fn lemma_bytes_antisymmetric(a: Seq<u8>, b: Seq<u8>)
    requires
        bytes_ordered(a, b),
        bytes_ordered(b, a),
    ensures
        a == b,
    decreases a.len(),
{
    if a.len() > 0 && b.len() > 0 {
        lemma_bytes_antisymmetric(a.skip(1), b.skip(1));
        assert(a =~= seq![a[0]] + a.skip(1));
        assert(b =~= seq![b[0]] + b.skip(1));
    } else {
        assert(a =~= b);
    }
}

proof fn lemma_bytes_transitive(a: Seq<u8>, b: Seq<u8>, c: Seq<u8>)
    requires
        bytes_ordered(a, b),
        bytes_ordered(b, c),
    ensures
        bytes_ordered(a, c),
    decreases a.len(),
{
    if a.len() > 0 && b.len() > 0 && c.len() > 0 && a[0] == b[0] && b[0] == c[0] {
        lemma_bytes_transitive(a.skip(1), b.skip(1), c.skip(1));
    }
}

/// Any two names can be compared, and two different names come in one order only.
pub proof fn lemma_total()
    ensures
        total_ordering(|a: Seq<char>, b: Seq<char>| ordered(a, b)),
{
    let leq = |a: Seq<char>, b: Seq<char>| ordered(a, b);
    assert forall|a: Seq<char>| #[trigger] leq(a, a) by {
        lemma_bytes_reflexive(encode_utf8(a));
    }
    assert forall|a: Seq<char>, b: Seq<char>| #[trigger] leq(a, b) && #[trigger] leq(b, a) implies a
        == b by {
        lemma_bytes_antisymmetric(encode_utf8(a), encode_utf8(b));
        encode_utf8_decode_utf8(a);
        encode_utf8_decode_utf8(b);
    }
    assert forall|a: Seq<char>, b: Seq<char>, c: Seq<char>| #[trigger]
        leq(a, b) && #[trigger] leq(b, c) implies leq(a, c) by {
        lemma_bytes_transitive(encode_utf8(a), encode_utf8(b), encode_utf8(c));
    }
    assert forall|a: Seq<char>, b: Seq<char>| #[trigger] leq(a, b) || #[trigger] leq(b, a) by {
        lemma_bytes_connected(encode_utf8(a), encode_utf8(b));
    }
    assert(reflexive(leq));
    assert(antisymmetric(leq));
    assert(transitive(leq));
    assert(strongly_connected(leq));
}

/// Names in order are the same names, each as often, and each comes no later than those behind it.
pub proof fn lemma_in_order(list: Seq<Seq<char>>)
    ensures
        in_order(list).to_multiset() == list.to_multiset(),
        forall|i: int, j: int|
            0 <= i < j < in_order(list).len() ==> ordered(
                #[trigger] in_order(list)[i],
                #[trigger] in_order(list)[j],
            ),
{
    let leq = |a: Seq<char>, b: Seq<char>| ordered(a, b);
    lemma_total();
    list.lemma_sort_by_ensures(leq);
    let s = in_order(list);
    assert forall|i: int, j: int| 0 <= i < j < s.len() implies ordered(
        #[trigger] s[i],
        #[trigger] s[j],
    ) by {
        assert(leq(s[i], s[j]));
    }
}

/// Wraps the slice method `sort_unstable` of std on strings: the strings are the same, each as
/// often, and stand in the order of their bytes.
#[verifier::external_body]
fn sort_strings(list: &mut Vec<String>)
    ensures
        names(final(list)@).to_multiset() == names(old(list)@).to_multiset(),
        forall|i: int, j: int|
            0 <= i < j < final(list)@.len() ==> ordered(
                #[trigger] names(final(list)@)[i],
                #[trigger] names(final(list)@)[j],
            ),
{
    list.sort_unstable();
}

/// Puts names in order.
pub fn sort_names(list: &mut Vec<String>)
    ensures
        names(final(list)@) == in_order(names(old(list)@)),
{
    sort_strings(list);
    proof {
        let leq = |a: Seq<char>, b: Seq<char>| ordered(a, b);
        let before = names(old(list)@);
        let after = names(list@);
        lemma_total();
        before.lemma_sort_by_ensures(leq);
        assert(sorted_by(after, leq)) by {
            assert forall|i: int, j: int| 0 <= i < j < after.len() implies #[trigger] leq(
                after[i],
                after[j],
            ) by {
                assert(ordered(names(list@)[i], names(list@)[j]));
            }
        }
        lemma_sorted_unique(after, in_order(before), leq);
    }
}

} // verus!
