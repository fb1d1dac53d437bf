//! Arithmetic on shapes and permutations.

use vstd::prelude::*;

verus! {

/// The product of a list of sizes.
pub open spec fn product(dims: Seq<i64>) -> int
    decreases dims.len(),
{
    if dims.len() == 0 {
        1
    } else {
        product(dims.drop_last()) * dims.last()
    }
}

/// The number of elements of a shape, where no size is negative and no partial product exceeds
/// `i64`.
pub open spec fn numel(dims: Seq<i64>) -> Option<i64>
    decreases dims.len(),
{
    if dims.len() == 0 {
        Some(1)
    } else {
        match numel(dims.drop_last()) {
            Some(n) => if dims.last() >= 0 && n * dims.last() <= i64::MAX {
                Some((n * dims.last()) as i64)
            } else {
                None
            },
            None => None,
        }
    }
}

/// [`numel`] of the sizes other than -1.
pub open spec fn known_numel(dims: Seq<i64>) -> Option<i64>
    decreases dims.len(),
{
    if dims.len() == 0 {
        Some(1)
    } else if dims.last() == -1 {
        known_numel(dims.drop_last())
    } else {
        match known_numel(dims.drop_last()) {
            Some(n) => if dims.last() >= 0 && n * dims.last() <= i64::MAX {
                Some((n * dims.last()) as i64)
            } else {
                None
            },
            None => None,
        }
    }
}

/// How many sizes are -1.
pub open spec fn unknowns(dims: Seq<i64>) -> nat
    decreases dims.len(),
{
    if dims.len() == 0 {
        0
    } else {
        unknowns(dims.drop_last()) + (if dims.last() == -1 {
            1nat
        } else {
            0
        })
    }
}

/// The first position that holds -1.
pub open spec fn first_unknown(dims: Seq<i64>) -> int {
    dims.index_of_first(-1i64)->0
}

/// The target shape, with zeros standing for the input's sizes unless `allowzero` is set.
pub open spec fn zeros_copied(input: Seq<i64>, target: Seq<i64>, allowzero: i64) -> Option<Seq<i64>> {
    if exists|i: int|
        input.len() <= i < target.len() && #[trigger] target[i] == 0 && allowzero == 0 {
        None
    } else {
        Some(
            Seq::new(
                target.len(),
                |i: int|
                    if target[i] == 0 && allowzero == 0 {
                        input[i]
                    } else {
                        target[i]
                    },
            ),
        )
    }
}

/// The shape that a `Reshape` to `target` gives a tensor of shape `input`, where it is known:
/// zeros copy the input's sizes unless `allowzero` is set, and a single -1 is inferred.
pub open spec fn reshaped(input: Seq<i64>, target: Seq<i64>, allowzero: i64) -> Option<Seq<i64>> {
    match zeros_copied(input, target, allowzero) {
        None => None,
        Some(dims) => if unknowns(dims) > 1 {
            None
        } else if unknowns(dims) == 0 {
            Some(dims)
        } else {
            match (numel(input), known_numel(dims)) {
                (Some(all), Some(known)) => if known == 0 || all % known != 0 {
                    None
                } else {
                    Some(dims.update(first_unknown(dims), (all / known) as i64))
                },
                _ => None,
            }
        },
    }
}

/// `axis` counted from the front in a shape of the given rank.
pub open spec fn from_front(axis: i64, rank: int) -> int {
    if axis < 0 {
        axis + rank
    } else {
        axis as int
    }
}

/// Whether position `p` is one of the axes.
pub open spec fn is_axis(axes: Seq<i64>, rank: int, p: int) -> bool {
    exists|k: int| 0 <= k < axes.len() && from_front(#[trigger] axes[k], rank) == p
}

/// How many positions below `p` are no axes.
pub open spec fn others_below(axes: Seq<i64>, rank: int, p: int) -> nat
    decreases p,
{
    if p <= 0 {
        0
    } else {
        others_below(axes, rank, p - 1) + (if is_axis(axes, rank, p - 1) {
            0nat
        } else {
            1
        })
    }
}

/// Whether the axes, counted from the front, lie in a shape of the given rank and differ.
pub open spec fn proper_axes(axes: Seq<i64>, rank: int) -> bool {
    &&& forall|k: int| 0 <= k < axes.len() ==> 0 <= from_front(#[trigger] axes[k], rank) < rank
    &&& forall|j: int, k: int|
        0 <= j < k < axes.len() ==> from_front(#[trigger] axes[j], rank) != from_front(
            #[trigger] axes[k],
            rank,
        )
}

/// The shape with a size of one at each axis of the result, where the axes are proper.
pub open spec fn unsqueezed(input: Seq<i64>, axes: Seq<i64>) -> Option<Seq<i64>> {
    let rank = (input.len() + axes.len()) as int;
    if rank > usize::MAX || !proper_axes(axes, rank) {
        None
    } else {
        Some(
            Seq::new(
                rank as nat,
                |p: int|
                    if is_axis(axes, rank, p) {
                        1i64
                    } else {
                        input[others_below(axes, rank, p) as int]
                    },
            ),
        )
    }
}

/// Whether `perm` leaves every axis where it is.
pub open spec fn identity_perm(perm: Seq<i64>) -> bool {
    forall|i: int| 0 <= i < perm.len() ==> #[trigger] perm[i] == i
}

/// Whether every entry of `second` is a position in `first`.
pub open spec fn composable(first: Seq<i64>, second: Seq<i64>) -> bool {
    forall|i: int| 0 <= i < second.len() ==> 0 <= #[trigger] second[i] < first.len()
}

/// The permutation that does `first` and then `second`.
pub open spec fn composed(first: Seq<i64>, second: Seq<i64>) -> Seq<i64> {
    Seq::new(second.len(), |i: int| first[second[i] as int])
}

/// Whether `src` broadcasts to `target` without enlarging it: aligned at the right, each of its
/// sizes is one, or known and equal to the target's.
pub open spec fn broadcasts_into(src: Seq<i64>, target: Seq<i64>) -> bool {
    src.len() <= target.len() && forall|i: int|
        0 <= i < src.len() ==> #[trigger] src[i] == 1 || (src[i] >= 0 && target[target.len()
            - src.len() + i] == src[i])
}

/// The number of elements of a shape.
pub fn static_numel(dims: &Vec<i64>) -> (r: Option<i64>)
    ensures
        r == numel(dims@),
{
    let mut n: i64 = 1;
    let mut i: usize = 0;
    while i < dims.len()
        invariant
            i <= dims.len(),
            n >= 0,
            numel(dims@.take(i as int)) == Some(n),
        decreases dims.len() - i,
    {
        proof {
            assert(dims@.take(i + 1).drop_last() =~= dims@.take(i as int));
            assert(dims@.take(i + 1).last() == dims@[i as int]);
        }
        let dim: i64 = dims[i];
        if dim < 0 {
            proof {
                lemma_numel_none(dims@, i + 1);
            }
            return None;
        }
        match n.checked_mul(dim) {
            Some(m) => {
                proof {
                    assert(n * dim >= 0) by (nonlinear_arith)
                        requires
                            n >= 0,
                            dim >= 0,
                    ;
                }
                n = m;
            },
            None => {
                proof {
                    assert(n * dim >= 0) by (nonlinear_arith)
                        requires
                            n >= 0,
                            dim >= 0,
                    ;
                    lemma_numel_none(dims@, i + 1);
                }
                return None;
            },
        }
        i = i + 1;
    }
    proof {
        assert(dims@.take(i as int) =~= dims@);
    }
    Some(n)
}

proof fn lemma_numel_none(dims: Seq<i64>, k: int)
    requires
        0 <= k <= dims.len(),
        numel(dims.take(k)) is None,
    ensures
        numel(dims) is None,
    decreases dims.len() - k,
{
    if k < dims.len() {
        assert(dims.take(k + 1).drop_last() =~= dims.take(k));
        lemma_numel_none(dims, k + 1);
    } else {
        assert(dims.take(k) =~= dims);
    }
}

proof fn lemma_known_numel_none(dims: Seq<i64>, k: int)
    requires
        0 <= k <= dims.len(),
        known_numel(dims.take(k)) is None,
    ensures
        known_numel(dims) is None,
    decreases dims.len() - k,
{
    if k < dims.len() {
        assert(dims.take(k + 1).drop_last() =~= dims.take(k));
        lemma_known_numel_none(dims, k + 1);
    } else {
        assert(dims.take(k) =~= dims);
    }
}

fn known_size(dims: &Vec<i64>) -> (r: Option<i64>)
    ensures
        r == known_numel(dims@),
        r matches Some(n) ==> n >= 0,
{
    let mut n: i64 = 1;
    let mut i: usize = 0;
    while i < dims.len()
        invariant
            i <= dims.len(),
            n >= 0,
            known_numel(dims@.take(i as int)) == Some(n),
        decreases dims.len() - i,
    {
        proof {
            assert(dims@.take(i + 1).drop_last() =~= dims@.take(i as int));
            assert(dims@.take(i + 1).last() == dims@[i as int]);
        }
        let dim: i64 = dims[i];
        if dim != -1 {
            if dim < 0 {
                proof {
                    lemma_known_numel_none(dims@, i + 1);
                }
                return None;
            }
            proof {
                assert(n * dim >= 0) by (nonlinear_arith)
                    requires
                        n >= 0,
                        dim >= 0,
                ;
            }
            match n.checked_mul(dim) {
                Some(m) => {
                    n = m;
                },
                None => {
                    proof {
                        lemma_known_numel_none(dims@, i + 1);
                    }
                    return None;
                },
            }
        }
        i = i + 1;
    }
    proof {
        assert(dims@.take(i as int) =~= dims@);
    }
    Some(n)
}

/// The number of elements of a shape is not negative.
pub proof fn lemma_numel_bound(dims: Seq<i64>)
    ensures
        numel(dims) matches Some(n) ==> n >= 0 && n == product(dims),
        known_numel(dims) matches Some(n) ==> n >= 0,
    decreases dims.len(),
{
    if dims.len() > 0 {
        lemma_numel_bound(dims.drop_last());
        match numel(dims.drop_last()) {
            Some(n) => {
                if dims.last() >= 0 {
                    assert(n * dims.last() >= 0) by (nonlinear_arith)
                        requires
                            n >= 0,
                            dims.last() >= 0,
                    ;
                }
            },
            None => {},
        }
        match known_numel(dims.drop_last()) {
            Some(n) => {
                if dims.last() >= 0 {
                    assert(n * dims.last() >= 0) by (nonlinear_arith)
                        requires
                            n >= 0,
                            dims.last() >= 0,
                    ;
                }
            },
            None => {},
        }
    }
}

proof fn lemma_unknown_found(dims: Seq<i64>)
    ensures
        unknowns(dims) > 0 ==> dims.contains(-1i64),
    decreases dims.len(),
{
    if dims.len() > 0 {
        lemma_unknown_found(dims.drop_last());
        if dims.last() == -1 {
            assert(dims[dims.len() - 1] == -1i64);
        } else if unknowns(dims) > 0 {
            let k = choose|k: int| 0 <= k < dims.drop_last().len() && dims.drop_last()[k] == -1i64;
            assert(dims[k] == -1i64);
        }
    }
}

/// The shape that a `Reshape` gives, where it is known.
pub fn reshape_dims(input: &Vec<i64>, target: &Vec<i64>, allowzero: i64) -> (r: Option<Vec<i64>>)
    ensures
        match r {
            Some(dims) => reshaped(input@, target@, allowzero) == Some(dims@),
            None => reshaped(input@, target@, allowzero) is None,
        },
{
    let mut output: Vec<i64> = Vec::new();
    let mut count: usize = 0;
    let mut at: usize = 0;
    let mut i: usize = 0;
    while i < target.len()
        invariant
            i <= target.len(),
            output.len() == i,
            count <= i,
            count == unknowns(output@),
            forall|k: int|
                0 <= k < i ==> #[trigger] output@[k] == (if target@[k] == 0 && allowzero == 0 {
                    input@[k]
                } else {
                    target@[k]
                }),
            forall|k: int|
                input@.len() <= k < i ==> !(#[trigger] target@[k] == 0 && allowzero == 0),
            count > 0 ==> at < i && output@[at as int] == -1 && forall|k: int|
                0 <= k < at ==> #[trigger] output@[k] != -1,
            count == 0 ==> forall|k: int| 0 <= k < i ==> #[trigger] output@[k] != -1,
        decreases target.len() - i,
    {
        let ghost before = output@;
        let dim: i64 = target[i];
        if dim == 0 && allowzero == 0 {
            if i >= input.len() {
                return None;
            }
            output.push(input[i]);
        } else {
            output.push(dim);
        }
        proof {
            assert(output@.drop_last() =~= before);
        }
        if output[i] == -1 {
            if count == 0 {
                at = i;
            }
            count = count + 1;
        }
        i = i + 1;
    }
    proof {
        assert(zeros_copied(input@, target@, allowzero)->0 =~= output@);
    }
    if count > 1 {
        return None;
    }
    if count == 1 {
        proof {
            output@.index_of_first_ensures(-1i64);
            lemma_unknown_found(output@);
            lemma_numel_bound(input@);
        }
        match static_numel(input) {
            Some(all) => match known_size(&output) {
                Some(known) => {
                    if known == 0 || all % known != 0 {
                        return None;
                    }
                    proof {
                        assert(at == first_unknown(output@));
                    }
                    output[at] = all / known;
                },
                None => {
                    return None;
                },
            },
            None => {
                return None;
            },
        }
    }
    Some(output)
}

/// Farther on there are no fewer positions that are no axes, and not more than positions in between.
pub proof fn lemma_others_mono(axes: Seq<i64>, rank: int, p: int, q: int)
    requires
        0 <= p <= q,
    ensures
        others_below(axes, rank, p) <= others_below(axes, rank, q),
        others_below(axes, rank, q) - others_below(axes, rank, p) <= q - p,
    decreases q - p,
{
    if p < q {
        lemma_others_mono(axes, rank, p, q - 1);
    }
}

/// The positions below `p` that are axes, and those that are not, add up to `p`.
proof fn lemma_others_count(axes: Seq<i64>, rank: int, p: int)
    requires
        0 <= p <= rank,
        proper_axes(axes, rank),
    ensures
        others_below(axes, rank, p) + axes.map_values(|a: i64| from_front(a, rank)).to_set().filter(
            |q: int| 0 <= q < p,
        ).len() == p,
        axes.map_values(|a: i64| from_front(a, rank)).to_set().filter(
            |q: int| 0 <= q < p,
        ).finite(),
    decreases p,
{
    let front = axes.map_values(|a: i64| from_front(a, rank));
    let all = front.to_set();
    let below = all.filter(|q: int| 0 <= q < p);
    vstd::seq_lib::seq_to_set_is_finite(front);
    if p > 0 {
        lemma_others_count(axes, rank, p - 1);
        let less = all.filter(|q: int| 0 <= q < p - 1);
        if is_axis(axes, rank, p - 1) {
            let k = choose|k: int|
                0 <= k < axes.len() && from_front(#[trigger] axes[k], rank) == p - 1;
            assert(front[k] == p - 1);
            assert(all.contains(p - 1));
            assert(below =~= less.insert(p - 1));
        } else {
            if all.contains(p - 1) {
                let k = choose|k: int| 0 <= k < front.len() && front[k] == p - 1;
                assert(from_front(axes[k], rank) == p - 1);
            }
            assert(below =~= less);
        }
    } else {
        assert(below =~= Set::empty());
    }
}

/// As many positions are no axes as the input has sizes.
pub proof fn lemma_others_total(axes: Seq<i64>, rank: int)
    requires
        proper_axes(axes, rank),
        rank >= axes.len(),
    ensures
        others_below(axes, rank, rank) == rank - axes.len(),
{
    let front = axes.map_values(|a: i64| from_front(a, rank));
    lemma_others_count(axes, rank, rank);
    assert(front.no_duplicates()) by {
        assert forall|j: int, k: int|
            0 <= j < front.len() && 0 <= k < front.len() && j != k implies front[j] != front[k] by {
            if j < k {
                assert(from_front(axes[j], rank) != from_front(axes[k], rank));
            } else {
                assert(from_front(axes[k], rank) != from_front(axes[j], rank));
            }
        }
    }
    front.unique_seq_to_set();
    assert(front.to_set().filter(|q: int| 0 <= q < rank) =~= front.to_set()) by {
        assert forall|q: int| front.to_set().contains(q) implies 0 <= q < rank by {
            let k = choose|k: int| 0 <= k < front.len() && front[k] == q;
            assert(0 <= from_front(axes[k], rank) < rank);
        }
    }
}

/// The shape with a size of one at each axis.
pub fn unsqueeze_dims(input: &Vec<i64>, axes: &Vec<i64>) -> (r: Option<Vec<i64>>)
    ensures
        match r {
            Some(dims) => unsqueezed(input@, axes@) == Some(dims@),
            None => unsqueezed(input@, axes@) is None,
        },
{
    let rank: usize = match input.len().checked_add(axes.len()) {
        Some(rank) => rank,
        None => {
            return None;
        },
    };
    let mut front: Vec<usize> = Vec::new();
    let mut i: usize = 0;
    while i < axes.len()
        invariant
            i <= axes.len(),
            rank == input.len() + axes.len(),
            front.len() == i,
            forall|k: int|
                0 <= k < i ==> #[trigger] front@[k] == from_front(axes@[k], rank as int)
                    && front@[k] < rank,
            forall|j: int, k: int|
                0 <= j < k < i ==> from_front(#[trigger] axes@[j], rank as int) != from_front(
                    #[trigger] axes@[k],
                    rank as int,
                ),
        decreases axes.len() - i,
    {
        let axis: i64 = axes[i];
        let place: i128 = if axis < 0 {
            axis as i128 + rank as i128
        } else {
            axis as i128
        };
        if place < 0 || place >= rank as i128 {
            proof {
                assert(!(0 <= from_front(axes@[i as int], rank as int) < rank));
            }
            return None;
        }
        let place: usize = place as usize;
        let mut j: usize = 0;
        while j < i
            invariant
                j <= i,
                i < axes.len(),
                rank == input.len() + axes.len(),
                front.len() == i,
                place == from_front(axes@[i as int], rank as int),
                forall|k: int|
                    0 <= k < i ==> #[trigger] front@[k] == from_front(axes@[k], rank as int),
                forall|k: int|
                    0 <= k < j ==> from_front(#[trigger] axes@[k], rank as int) != place,
            decreases i - j,
        {
            if front[j] == place {
                proof {
                    assert(front@[j as int] == from_front(axes@[j as int], rank as int));
                    assert(from_front(axes@[j as int], rank as int) == from_front(
                        axes@[i as int],
                        rank as int,
                    ));
                }
                return None;
            }
            proof {
                assert(front@[j as int] == from_front(axes@[j as int], rank as int));
            }
            j = j + 1;
        }
        front.push(place);
        i = i + 1;
    }
    proof {
        assert(proper_axes(axes@, rank as int)) by {
            assert forall|k: int| 0 <= k < axes@.len() implies 0 <= from_front(
                #[trigger] axes@[k],
                rank as int,
            ) < rank by {
                assert(front@[k] < rank);
            }
        }
        lemma_others_total(axes@, rank as int);
    }
    let mut output: Vec<i64> = Vec::new();
    let mut used: usize = 0;
    let mut p: usize = 0;
    while p < rank
        invariant
            p <= rank,
            rank == input.len() + axes.len(),
            front.len() == axes.len(),
            forall|k: int|
                0 <= k < axes.len() ==> #[trigger] front@[k] == from_front(axes@[k], rank as int),
            proper_axes(axes@, rank as int),
            others_below(axes@, rank as int, rank as int) == input.len(),
            used == others_below(axes@, rank as int, p as int),
            used <= p,
            output@ =~= unsqueezed(input@, axes@)->0.take(p as int),
        decreases rank - p,
    {
        let mut found = false;
        let mut k: usize = 0;
        while k < front.len() && !found
            invariant
                k <= front.len(),
                front.len() == axes.len(),
                forall|k: int|
                    0 <= k < axes.len() ==> #[trigger] front@[k] == from_front(
                        axes@[k],
                        rank as int,
                    ),
                found ==> is_axis(axes@, rank as int, p as int),
                !found ==> forall|m: int|
                    0 <= m < k ==> from_front(#[trigger] axes@[m], rank as int) != p,
            decreases front.len() - k,
        {
            proof {
                assert(front@[k as int] == from_front(axes@[k as int], rank as int));
            }
            if front[k] == p {
                found = true;
            }
            k = k + 1;
        }
        proof {
            lemma_others_mono(axes@, rank as int, p + 1, rank as int);
            assert(unsqueezed(input@, axes@)->0.take(p + 1) =~= unsqueezed(
                input@,
                axes@,
            )->0.take(p as int).push(unsqueezed(input@, axes@)->0[p as int]));
        }
        if found {
            output.push(1);
        } else {
            proof {
                assert(!is_axis(axes@, rank as int, p as int));
                assert(others_below(axes@, rank as int, p + 1) == used + 1);
            }
            output.push(input[used]);
            used = used + 1;
        }
        p = p + 1;
    }
    proof {
        assert(output@ =~= unsqueezed(input@, axes@)->0);
    }
    Some(output)
}

/// Whether a permutation leaves every axis where it is.
pub fn is_identity_perm(perm: &Vec<i64>) -> (r: bool)
    ensures
        r == identity_perm(perm@),
{
    let mut i: usize = 0;
    while i < perm.len()
        invariant
            i <= perm.len(),
            forall|k: int| 0 <= k < i ==> #[trigger] perm@[k] == k,
        decreases perm.len() - i,
    {
        if perm[i] as i128 != i as i128 {
            return false;
        }
        i = i + 1;
    }
    true
}

/// The permutation that does `first` and then `second`.
pub fn compose(first: &Vec<i64>, second: &Vec<i64>) -> (r: Option<Vec<i64>>)
    ensures
        match r {
            Some(list) => composable(first@, second@) && list@ == composed(first@, second@),
            None => !composable(first@, second@),
        },
{
    let mut list: Vec<i64> = Vec::new();
    let mut i: usize = 0;
    while i < second.len()
        invariant
            i <= second.len(),
            list@ =~= composed(first@, second@).take(i as int),
            forall|k: int| 0 <= k < i ==> 0 <= #[trigger] second@[k] < first.len(),
        decreases second.len() - i,
    {
        let axis: i64 = second[i];
        if axis < 0 || axis as u64 >= first.len() as u64 {
            return None;
        }
        list.push(first[axis as usize]);
        i = i + 1;
    }
    proof {
        assert(composed(first@, second@).take(i as int) =~= composed(first@, second@));
    }
    Some(list)
}

/// Whether `src` broadcasts to `target` without enlarging it.
pub fn unidir_broadcastable_to(src: &Vec<i64>, target: &Vec<i64>) -> (r: bool)
    ensures
        r == broadcasts_into(src@, target@),
{
    if src.len() > target.len() {
        return false;
    }
    let offset = target.len() - src.len();
    let mut i: usize = 0;
    while i < src.len()
        invariant
            i <= src.len() <= target.len(),
            offset == target.len() - src.len(),
            forall|k: int|
                0 <= k < i ==> #[trigger] src@[k] == 1 || (src@[k] >= 0 && target@[offset + k]
                    == src@[k]),
        decreases src.len() - i,
    {
        let dim: i64 = src[i];
        if dim != 1 {
            if dim < 0 || target[offset + i] != dim {
                return false;
            }
        }
        i = i + 1;
    }
    true
}

/// What a wrapping `i64` multiplication gives.
pub open spec fn wrapped_product(dims: Seq<i64>) -> i64
    decreases dims.len(),
{
    if dims.len() == 0 {
        1
    } else {
        vstd::wrapping::i64_specs::wrapping_mul(wrapped_product(dims.drop_last()), dims.last())
    }
}

/// Whether a shape has exactly one element.
pub fn is_single(dims: &Vec<i64>) -> (r: bool)
    ensures
        r == (wrapped_product(dims@) == 1),
{
    let mut n: i64 = 1;
    let mut i: usize = 0;
    while i < dims.len()
        invariant
            i <= dims.len(),
            n == wrapped_product(dims@.take(i as int)),
        decreases dims.len() - i,
    {
        proof {
            assert(dims@.take(i + 1).drop_last() =~= dims@.take(i as int));
            assert(dims@.take(i + 1).last() == dims@[i as int]);
        }
        n = n.wrapping_mul(dims[i]);
        i = i + 1;
    }
    proof {
        assert(dims@.take(i as int) =~= dims@);
    }
    n == 1
}

} // verus!
