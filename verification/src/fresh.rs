//! Names that are not taken yet.

use crate::text::{dec, join, lemma_tag_injective, push_nat};
use vstd::hash_set::StringHashSet;
use vstd::prelude::*;
use vstd::set_lib::*;
use vstd::string::*;

verus! {

/// `base` with a number behind it.
pub open spec fn numbered(base: Seq<char>, k: nat) -> Seq<char> {
    base + "_"@ + dec(k as int)
}

/// Whether `k` is the least number from `start` on under which `base` is free.
pub open spec fn least_free(used: Set<Seq<char>>, base: Seq<char>, start: nat, k: nat) -> bool {
    start <= k && !used.contains(numbered(base, k)) && forall|j: nat|
        start <= j < k ==> used.contains(#[trigger] numbered(base, j))
}

/// `base` with the least number from `start` on under which it is free.
pub open spec fn free_name(used: Set<Seq<char>>, base: Seq<char>, start: nat) -> Seq<char> {
    numbered(base, choose|k: nat| least_free(used, base, start, k))
}

/// There is only one least number.
pub proof fn lemma_least_free_unique(used: Set<Seq<char>>, base: Seq<char>, start: nat, k: nat)
    requires
        least_free(used, base, start, k),
    ensures
        free_name(used, base, start) == numbered(base, k),
        !used.contains(free_name(used, base, start)),
{
    let j = choose|j: nat| least_free(used, base, start, j);
    assert(least_free(used, base, start, j));
    if j < k {
        assert(used.contains(numbered(base, j)));
    } else if k < j {
        assert(used.contains(numbered(base, k)));
    }
}

/// The names tried up to a number, all different.
spec fn tried(base: Seq<char>, start: nat, k: nat) -> Set<Seq<char>>
    decreases k,
{
    if k <= start {
        Set::empty()
    } else {
        tried(base, start, (k - 1) as nat).insert(numbered(base, (k - 1) as nat))
    }
}

proof fn lemma_tried(base: Seq<char>, start: nat, k: nat, used: Set<Seq<char>>)
    requires
        start <= k,
        used.finite(),
        forall|j: nat| start <= j < k ==> used.contains(#[trigger] numbered(base, j)),
    ensures
        tried(base, start, k).finite(),
        tried(base, start, k).len() == k - start,
        tried(base, start, k).subset_of(used),
        forall|j: nat| k <= j ==> !tried(base, start, k).contains(#[trigger] numbered(base, j)),
    decreases k,
{
    if k > start {
        lemma_tried(base, start, (k - 1) as nat, used);
        assert forall|j: nat| k <= j implies !tried(base, start, k).contains(
            #[trigger] numbered(base, j),
        ) by {
            if numbered(base, j) == numbered(base, (k - 1) as nat) {
                lemma_tag_injective(base + "_"@, j as int, k - 1);
            }
        }
    }
}

/// From `k` on, with every number before it taken, there is a least number under which `base` is
/// free.
proof fn lemma_some_free(used: Set<Seq<char>>, base: Seq<char>, start: nat, k: nat)
    requires
        used.finite(),
        start <= k,
        forall|j: nat| start <= j < k ==> used.contains(#[trigger] numbered(base, j)),
    ensures
        exists|n: nat| least_free(used, base, start, n),
    decreases start + used.len() + 1 - k,
{
    if used.contains(numbered(base, k)) {
        assert forall|j: nat| start <= j < k + 1 implies used.contains(
            #[trigger] numbered(base, j),
        ) by {}
        lemma_tried(base, start, k + 1, used);
        lemma_len_subset(tried(base, start, k + 1), used);
        lemma_some_free(used, base, start, k + 1);
    } else {
        assert(least_free(used, base, start, k));
    }
}

/// A free name is not among the names that are taken.
pub proof fn lemma_free_name(used: Set<Seq<char>>, base: Seq<char>, start: nat)
    requires
        used.finite(),
    ensures
        !used.contains(free_name(used, base, start)),
        free_name(used, base, start).len() > 0,
{
    lemma_some_free(used, base, start, start);
    let k = choose|k: nat| least_free(used, base, start, k);
    assert(least_free(used, base, start, k));
    reveal_strlit("_");
}

/// Finds `base` with the least number from `start` on under which it is free.
pub fn find_free(used: &StringHashSet, base: &str, start: u128) -> (name: String)
    requires
        used@.finite(),
        start <= 1,
    ensures
        name@ == free_name(used@, base@, start as nat),
        !used@.contains(name@),
{
    let prefix = join(base, "_");
    let count: usize = used.len();
    let mut k: u128 = start;
    let mut name = prefix.clone();
    push_nat(&mut name, k);
    while used.contains(name.as_str())
        invariant
            start <= k <= start + used@.len(),
            start <= 1,
            used@.len() == count,
            used@.finite(),
            prefix@ == base@ + "_"@,
            name@ == numbered(base@, k as nat),
            forall|j: nat| start <= j < k ==> used@.contains(#[trigger] numbered(base@, j)),
        decreases start + used@.len() - k,
    {
        proof {
            assert forall|j: nat| start <= j < (k + 1) implies used@.contains(
                #[trigger] numbered(base@, j),
            ) by {
                if j == k {
                    assert(numbered(base@, j) == name@);
                }
            }
            lemma_tried(base@, start as nat, (k + 1) as nat, used@);
            lemma_len_subset(tried(base@, start as nat, (k + 1) as nat), used@);
        }
        k = k + 1;
        name = prefix.clone();
        push_nat(&mut name, k);
    }
    proof {
        assert(least_free(used@, base@, start as nat, k as nat));
        lemma_least_free_unique(used@, base@, start as nat, k as nat);
    }
    name
}

} // verus!
