//! What shapes, permutations and positions do.

use crate::converter::ops::math::last_swapped;
use crate::converter::ops::pad::pairs_parted;
use crate::converter::ops::transform::descending;
use crate::converter::optimizer::dims::{
    broadcasts_into, composable, composed, first_unknown, identity_perm, is_axis, known_numel,
    lemma_numel_bound, lemma_others_mono, lemma_others_total, numel, others_below, product,
    reshaped, unknowns, unsqueezed, zeros_copied,
};
use vstd::prelude::*;

verus! {

proof fn lemma_known_step(dims: Seq<i64>)
    requires
        dims.len() > 0,
        dims.last() != -1,
        known_numel(dims) is Some,
    ensures
        known_numel(dims.drop_last()) is Some,
        known_numel(dims)->0 == known_numel(dims.drop_last())->0 * dims.last(),
{
    lemma_numel_bound(dims.drop_last());
    let n = known_numel(dims.drop_last())->0;
    assert(n * dims.last() >= 0) by (nonlinear_arith)
        requires
            n >= 0,
            dims.last() >= 0,
    ;
}

proof fn lemma_known_product(dims: Seq<i64>)
    requires
        unknowns(dims) == 0,
    ensures
        known_numel(dims) matches Some(n) ==> n == product(dims),
        forall|i: int| 0 <= i < dims.len() ==> #[trigger] dims[i] != -1,
    decreases dims.len(),
{
    if dims.len() > 0 {
        lemma_known_product(dims.drop_last());
        if known_numel(dims) is Some {
            lemma_known_step(dims);
        }
        assert forall|i: int| 0 <= i < dims.len() implies #[trigger] dims[i] != -1 by {
            if i < dims.len() - 1 {
                assert(dims.drop_last()[i] == dims[i]);
            }
        }
    }
}

proof fn lemma_inferred_product(dims: Seq<i64>, at: int, size: i64)
    requires
        unknowns(dims) == 1,
        0 <= at < dims.len(),
        dims[at] == -1,
        known_numel(dims) is Some,
    ensures
        product(dims.update(at, size)) == known_numel(dims)->0 * size,
    decreases dims.len(),
{
    let out = dims.update(at, size);
    if at == dims.len() - 1 {
        assert(out.drop_last() =~= dims.drop_last());
        lemma_known_product(dims.drop_last());
    } else {
        assert(out.drop_last() =~= dims.drop_last().update(at, size));
        assert(dims.drop_last()[at] == -1);
        if dims.last() == -1 {
            lemma_known_product(dims.drop_last());
        } else {
            lemma_known_step(dims);
            lemma_inferred_product(dims.drop_last(), at, size);
            let n = known_numel(dims.drop_last())->0;
            assert((n * size) * dims.last() == (n * dims.last()) * size) by (nonlinear_arith);
        }
    }
}

proof fn lemma_some_unknown(dims: Seq<i64>)
    requires
        unknowns(dims) > 0,
    ensures
        dims.contains(-1i64),
    decreases dims.len(),
{
    if dims.len() > 0 && dims.last() != -1 {
        lemma_some_unknown(dims.drop_last());
        let i = choose|i: int| 0 <= i < dims.drop_last().len() && dims.drop_last()[i] == -1;
        assert(dims[i] == -1);
    } else {
        assert(dims[dims.len() - 1] == -1);
    }
}

/// A size that a reshape infers makes up for the others: the number of elements stays.
pub proof fn law_inferred_size_keeps_elements(input: Seq<i64>, target: Seq<i64>, allowzero: i64)
    requires
        reshaped(input, target, allowzero) is Some,
        unknowns(zeros_copied(input, target, allowzero)->0) == 1,
    ensures
        product(reshaped(input, target, allowzero)->0) == product(input),
{
    let dims = zeros_copied(input, target, allowzero)->0;
    lemma_numel_bound(input);
    lemma_numel_bound(dims);
    let all = numel(input)->0;
    let known = known_numel(dims)->0;
    lemma_some_unknown(dims);
    dims.index_of_first_ensures(-1i64);
    lemma_inferred_product(dims, first_unknown(dims), (all / known) as i64);
    vstd::arithmetic::div_mod::lemma_fundamental_div_mod(all as int, known as int);
    vstd::arithmetic::div_mod::lemma_div_pos_is_pos(all as int, known as int);
    vstd::arithmetic::div_mod::lemma_div_nonincreasing(all as int, known as int);
}

proof fn lemma_unsqueezed_product(input: Seq<i64>, axes: Seq<i64>, p: int)
    requires
        unsqueezed(input, axes) is Some,
        0 <= p <= input.len() + axes.len(),
    ensures
        others_below(axes, (input.len() + axes.len()) as int, p) <= input.len(),
        product(unsqueezed(input, axes)->0.take(p)) == product(
            input.take(others_below(axes, (input.len() + axes.len()) as int, p) as int),
        ),
    decreases p,
{
    let rank = (input.len() + axes.len()) as int;
    let out = unsqueezed(input, axes)->0;
    lemma_others_total(axes, rank);
    lemma_others_mono(axes, rank, p, rank);
    if p > 0 {
        lemma_unsqueezed_product(input, axes, p - 1);
        assert(out.take(p).drop_last() =~= out.take(p - 1));
        assert(out.take(p).last() == out[p - 1]);
        let before = others_below(axes, rank, p - 1) as int;
        if is_axis(axes, rank, p - 1) {
            assert(out[p - 1] == 1);
        } else {
            assert(out[p - 1] == input[before]);
            assert(input.take(before + 1).drop_last() =~= input.take(before));
            assert(input.take(before + 1).last() == input[before]);
        }
    } else {
        assert(out.take(0) =~= Seq::empty());
        assert(input.take(0) =~= Seq::empty());
    }
}

/// New axes add to the rank and keep the number of elements.
pub proof fn law_new_axes_keep_elements(input: Seq<i64>, axes: Seq<i64>)
    requires
        unsqueezed(input, axes) is Some,
    ensures
        unsqueezed(input, axes)->0.len() == input.len() + axes.len(),
        product(unsqueezed(input, axes)->0) == product(input),
{
    let rank = (input.len() + axes.len()) as int;
    lemma_others_total(axes, rank);
    lemma_unsqueezed_product(input, axes, rank);
    assert(unsqueezed(input, axes)->0.take(rank) =~= unsqueezed(input, axes)->0);
    assert(input.take(input.len() as int) =~= input);
}

/// What a permutation of the axes makes of one entry for each axis.
pub open spec fn permuted<T>(list: Seq<T>, perm: Seq<i64>) -> Seq<T> {
    Seq::new(perm.len(), |i: int| list[perm[i] as int])
}

/// One transpose by the composed permutation does what the two in a row do.
pub proof fn law_composed_transposes<T>(list: Seq<T>, first: Seq<i64>, second: Seq<i64>)
    requires
        composable(first, second),
    ensures
        permuted(permuted(list, first), second) == permuted(list, composed(first, second)),
{
    assert forall|i: int| 0 <= i < second.len() implies #[trigger] permuted(
        permuted(list, first),
        second,
    )[i] == permuted(list, composed(first, second))[i] by {
        assert(0 <= second[i] < first.len());
    }
    assert(permuted(permuted(list, first), second) =~= permuted(list, composed(first, second)));
}

/// A transpose that is dropped moves nothing.
pub proof fn law_identity_transpose<T>(list: Seq<T>, perm: Seq<i64>)
    requires
        identity_perm(perm),
        perm.len() == list.len(),
    ensures
        permuted(list, perm) == list,
{
    assert(permuted(list, perm) =~= list);
}

/// A transposed factor has the last two sizes of the factor swapped and all others in place; doing
/// it twice changes nothing.
pub proof fn law_last_axes_swapped<T>(list: Seq<T>)
    requires
        2 <= list.len() <= i64::MAX,
    ensures
        permuted(list, last_swapped(list.len())) == list.update(
            list.len() - 1,
            list[list.len() - 2],
        ).update(list.len() - 2, list[list.len() - 1]),
        permuted(permuted(list, last_swapped(list.len())), last_swapped(list.len())) == list,
{
    let perm = last_swapped(list.len());
    assert(permuted(list, perm) =~= list.update(list.len() - 1, list[list.len() - 2]).update(
        list.len() - 2,
        list[list.len() - 1],
    ));
    assert(permuted(permuted(list, perm), perm) =~= list);
}

/// Picking the positions in descending order reverses a list.
pub proof fn law_descending_reverses<T>(list: Seq<T>)
    requires
        list.len() <= i64::MAX,
    ensures
        permuted(list, descending(list.len() as int)) == list.reverse(),
{
    assert(permuted(list, descending(list.len() as int)) =~= list.reverse());
}

/// The last elements followed by the others are the list rotated: an element moves on by the
/// shift, and what leaves at the end comes back at the start.
pub proof fn law_roll_rotates<T>(list: Seq<T>, shift_raw: int, i: int)
    requires
        0 <= i < list.len(),
    ensures
        ({
            let dim = list.len() as int;
            let split = dim - shift_raw % dim;
            (list.subrange(split, dim) + list.subrange(0, split))[(i + shift_raw) % dim] == list[i]
        }),
{
    let dim = list.len() as int;
    let shift = shift_raw % dim;
    let split = dim - shift;
    vstd::arithmetic::div_mod::lemma_add_mod_noop(i, shift_raw, dim);
    assert(i % dim == i) by {
        vstd::arithmetic::div_mod::lemma_small_mod(i as nat, dim as nat);
    }
    assert((i + shift_raw) % dim == (i + shift) % dim);
    let rolled = list.subrange(split, dim) + list.subrange(0, split);
    if i + shift < dim {
        vstd::arithmetic::div_mod::lemma_small_mod((i + shift) as nat, dim as nat);
        assert(rolled[i + shift] == list.subrange(0, split)[i]);
    } else {
        vstd::arithmetic::div_mod::lemma_mod_sub_multiples_vanish(i + shift, dim);
        vstd::arithmetic::div_mod::lemma_small_mod((i + shift - dim) as nat, dim as nat);
        assert((i + shift) % dim == i + shift - dim);
        assert(rolled[i + shift - dim] == list.subrange(split, dim)[i + shift - dim]);
    }
}

/// Paddings that come in pairs are told apart: the begin of an axis stands at the axis, and its end
/// as far behind the begins.
pub proof fn law_paddings_told_apart(list: Seq<i64>, axis: int)
    requires
        list.len() % 2 == 0,
        0 <= axis < list.len() / 2,
    ensures
        pairs_parted(list).len() == list.len(),
        pairs_parted(list)[axis] == list[2 * axis],
        pairs_parted(list)[list.len() / 2 + axis] == list[2 * axis + 1],
{
}

/// The size along an axis of what two shapes broadcast to, aligned at the right.
pub open spec fn broadcast_size(a: Seq<i64>, b: Seq<i64>, rank: int, p: int) -> i64 {
    let x = if p >= rank - a.len() {
        a[p - (rank - a.len())]
    } else {
        1
    };
    let y = if p >= rank - b.len() {
        b[p - (rank - b.len())]
    } else {
        1
    };
    if x == 1 {
        y
    } else {
        x
    }
}

/// An addend that broadcasts into a shape does not enlarge it: the sum has that shape.
pub proof fn law_addend_keeps_shape(src: Seq<i64>, target: Seq<i64>, p: int)
    requires
        broadcasts_into(src, target),
        0 <= p < target.len(),
    ensures
        broadcast_size(src, target, target.len() as int, p) == target[p],
{
    let i = p - (target.len() - src.len());
    if i >= 0 {
        assert(src[i] == 1 || (src[i] >= 0 && target[target.len() - src.len() + i] == src[i]));
    }
}

} // verus!
