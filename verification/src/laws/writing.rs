//! What the nodes that stand for operators that overwrite parts of a value compute.

use crate::converter::emit::counted;
use crate::converter::ops::common::{
    add_wrapped, axis_from_front, const_ints, first_const, has_type, shape_or_empty,
};
use crate::converter::ops::update::{
    block_positions, flat_rows, index_put_lowered, lemma_step_count, put_along_axis_lowered,
    repeat_interleave_lowered, repeat_parts, rows_of, second_axis_shape, set_value_lowered,
    set_value_scalar, set_value_with_tensor_lowered, slice_positions, stepped,
};
use crate::converter::state::{dtype_if_known, tensor_name, Meta};
use crate::dtype::FLOAT;
use crate::float::{to_i64, ONE};
use crate::helper::{attr_int_of, attr_ints_of, attr_items_of, input_ids, or_default, out_id};
use crate::json::JsonView;
use crate::laws::meaning::{
    group_runs, input_of, output_of, ran, runs, seen, value_of, whole, whole_scalar, Values, World,
};
use crate::laws::shaping::sizes_between;
use crate::onnx::Graph;
use crate::text::tagged;
use vstd::arithmetic::div_mod::*;
use vstd::prelude::*;

verus! {

// ---- index_put ----

/// `index_put` by a mask of the data's own shape takes the value where the mask is true, and the
/// data elsewhere.
pub proof fn law_put_by_mask<V>(w: World<V>, env: Values<V>, m: Meta, g: Graph, op: JsonView)
    requires
        ran(w, env, index_put_lowered(m, g, op)),
        ({
            let masks = m.combines[input_ids(op)[1]];
            masks.len() == 1 && has_type(m, masks[0], "0.t_bool"@) && shape_or_empty(m, masks[0])
                == shape_or_empty(m, input_ids(op)[0])
        }),
    ensures
        ({
            let data = input_of(m, env, op, 0);
            let mask = value_of(m, env, m.combines[input_ids(op)[1]][0]);
            let value = w.of2("Expand"@, input_of(m, env, op, 2), w.of1("Shape"@, data));
            output_of(m, env, op) == w.of3("Where"@, mask, value, data)
        }),
{
    broadcast use group_runs;

}

/// `index_put` by a list of rows overwrites the rows of a matrix with one value.
pub proof fn law_put_rows<V>(w: World<V>, env: Values<V>, m: Meta, g: Graph, op: JsonView)
    requires
        ran(w, env, index_put_lowered(m, g, op)),
        m.combines[input_ids(op)[1]].len() == 1,
        !has_type(m, m.combines[input_ids(op)[1]][0], "0.t_bool"@),
    ensures
        ({
            let rows = w.unsqueeze(
                value_of(m, env, m.combines[input_ids(op)[1]][0]),
                seq![0i64],
            );
            output_of(m, env, op) == w.scatter(
                input_of(m, env, op, 0),
                rows,
                w.of2("Expand"@, input_of(m, env, op, 2), w.of1("Shape"@, rows)),
                0,
            )
        }),
{
    broadcast use group_runs;

}

/// `index_put` by rows and columns overwrites the cells at them.
pub proof fn law_put_cells<V>(w: World<V>, env: Values<V>, m: Meta, g: Graph, op: JsonView)
    requires
        ran(w, env, index_put_lowered(m, g, op)),
        m.combines[input_ids(op)[1]].len() == 2,
    ensures
        ({
            let list = m.combines[input_ids(op)[1]];
            let row = w.unsqueeze(value_of(m, env, list[0]), seq![-1i64]);
            let column = w.unsqueeze(value_of(m, env, list[1]), seq![-1i64]);
            output_of(m, env, op) == w.of3(
                "ScatterND"@,
                input_of(m, env, op, 0),
                w.concat(seq![row, column], -1),
                input_of(m, env, op, 2),
            )
        }),
{
    broadcast use group_runs;

    let id = out_id(op)->Ok_0;
    let row = tagged("index_put_row_unsqueezed_"@, id);
    let column = tagged("index_put_col_unsqueezed_"@, id);
    assert(seen(env, seq![row, column]) =~= seq![env(row), env(column)]);
}

// ---- set_value_ ----

/// The numbers that steps from `start` on reach before `end` are those, and no others.
pub proof fn law_stepped(start: int, end: int, step: int, x: int)
    requires
        step > 0,
        i64::MIN <= start,
        end <= i64::MAX,
    ensures
        (exists|k: int|
            0 <= k < stepped(start, end, step).len() && #[trigger] stepped(start, end, step)[k] == x)
            <==> (start <= x < end && (x - start) % step == 0),
{
    let list = stepped(start, end, step);
    lemma_step_count(start, end, step, 0);
    if start <= x < end && (x - start) % step == 0 {
        let k = (x - start) / step;
        lemma_fundamental_div_mod(x - start, step);
        assert(k * step == x - start) by (nonlinear_arith)
            requires
                x - start == step * k,
        ;
        assert(k >= 0) by (nonlinear_arith)
            requires
                k * step == x - start,
                x >= start,
                step > 0,
        ;
        lemma_step_count(start, end, step, k);
        assert(list[k] == x);
    }
    if exists|k: int| 0 <= k < list.len() && #[trigger] list[k] == x {
        let k = choose|k: int| 0 <= k < list.len() && #[trigger] list[k] == x;
        lemma_step_count(start, end, step, k);
        assert(k * step >= 0) by (nonlinear_arith)
            requires
                k >= 0,
                step > 0,
        ;
        assert(x == start + k * step);
        lemma_mod_multiples_basic(k, step);
    }
}

/// The scalar that `set_value_` writes, in the element type of what it is written to.
pub open spec fn written_scalar<V>(w: World<V>, m: Meta, op: JsonView, count: nat) -> V {
    let scalar = match attr_items_of(op, "values"@) {
        Some(items) => if items.len() > 0 {
            match items[0].field("D"@) {
                Some(v) => or_default(v.float(), 0),
                None => 0,
            }
        } else {
            0
        },
        None => 0,
    };
    w.numbers(
        seq![count as i64],
        or_default(dtype_if_known(m, input_ids(op)[0])->Ok_0, FLOAT),
        Seq::new(count, |i: int| scalar),
    )
}

/// A bound of a slice along one axis.
pub open spec fn bound_of(m: Meta, op: JsonView, i: int, usual: u64) -> i64 {
    to_i64(or_default(first_const(m, input_ids(op)[i]), usual))
}

/// `set_value_` along the second axis writes a scalar at every position from the start on before
/// the end, by steps, and leaves everything else alone.
pub proof fn law_set_value_along_axis<V>(w: World<V>, env: Values<V>, m: Meta, g: Graph, op: JsonView)
    requires
        ran(w, env, set_value_lowered(m, g, op)),
        attr_ints_of(op, "axes"@) == Some(seq![1i64]),
        first_const(m, input_ids(op)[2]) is Some,
    ensures
        ({
            let start = bound_of(m, op, 1, 0);
            let end = bound_of(m, op, 2, 0);
            let step = bound_of(m, op, 3, ONE);
            let data = input_of(m, env, op, 0);
            let columns = stepped(start as int, end as int, step as int);
            let size = w.vector(seq![columns.len() as i64]);
            let target = w.concat(
                seq![w.of2("Gather"@, w.of1("Shape"@, data), w.vector(seq![0i64])), size],
                0,
            );
            &&& start >= 0 && step > 0
            &&& output_of(m, env, op) == if columns.len() == 0 {
                w.of1("Identity"@, data)
            } else {
                w.scatter(
                    data,
                    w.of2(
                        "Expand"@,
                        w.ints(seq![1i64, columns.len() as i64], columns),
                        target,
                    ),
                    w.of2("Expand"@, written_scalar(w, m, op, 1), target),
                    1,
                )
            }
        }),
{
    broadcast use group_runs;

    let id = out_id(op)->Ok_0;
    let batch = tagged("set_value_batch_dim_"@, id);
    let length = tagged("set_value_slice_len_"@, id);
    assert(seen(env, seq![batch, length]) =~= seq![env(batch), env(length)]);
    assert(seq![set_value_scalar(op)] =~= Seq::new(1, |i: int| set_value_scalar(op)));
    assert(seq![1i64].len() == 1 && seq![1i64] != seq![1i64, 2i64]) by {
        assert(seq![1i64, 2i64].len() == 2);
    }
}

/// The positions that a slice selects along an axis of a size: from the start on before the end,
/// both counted from the front and kept inside, by steps.
pub open spec fn positions_along(dim: i64, start: i64, end: i64, step: i64) -> Seq<i64> {
    let from_front = |x: i64|
        if x < 0 {
            x + dim
        } else {
            x as int
        };
    let inside = |x: int, low: int, high: int|
        if x < low {
            low
        } else if x > high {
            high
        } else {
            x
        };
    if step > 0 {
        stepped(
            inside(from_front(start), 0, dim as int),
            inside(from_front(end), 0, dim as int),
            step as int,
        )
    } else {
        stepped(
            inside(from_front(start), -1, dim - 1),
            inside(from_front(end), -1, dim - 1),
            step as int,
        )
    }
}

/// The cells of a block that is bounded along the second and third axis.
pub open spec fn cells_of(m: Meta, op: JsonView) -> Seq<Seq<i64>> {
    let dims = m.tensor_shapes[input_ids(op)[0]];
    let starts = const_ints(m, input_ids(op)[1])->0;
    let ends = const_ints(m, input_ids(op)[2])->0;
    let steps = const_ints(m, input_ids(op)[3])->0;
    rows_of(
        Seq::new(
            dims.len(),
            |d: int|
                if d == 1 {
                    positions_along(dims[1], starts[0], ends[0], steps[0])
                } else if d == 2 {
                    positions_along(dims[2], starts[1], ends[1], steps[1])
                } else {
                    Seq::new(dims[d] as nat, |i: int| i as i64)
                },
        ),
        dims.len(),
    )
}

/// `set_value_` along the second and third axis writes a scalar to the cells of the block that the
/// bounds select, with every position along the other axes, and leaves everything else alone.
pub proof fn law_set_value_in_block<V>(w: World<V>, env: Values<V>, m: Meta, g: Graph, op: JsonView)
    requires
        ran(w, env, set_value_lowered(m, g, op)),
        attr_ints_of(op, "axes"@) == Some(seq![1i64, 2i64]),
    ensures
        ({
            let data = input_of(m, env, op, 0);
            let cells = cells_of(m, op);
            let rank = m.tensor_shapes[input_ids(op)[0]].len();
            output_of(m, env, op) == if cells.len() == 0 {
                w.of1("Identity"@, data)
            } else {
                w.of3(
                    "ScatterND"@,
                    data,
                    w.ints(seq![cells.len() as i64, rank as i64], flat_rows(cells, cells.len())),
                    written_scalar(w, m, op, cells.len()),
                )
            }
        }),
{
    broadcast use group_runs;

    assert(seq![1i64, 2i64].len() == 2 && seq![1i64].len() == 1);
    let dims = m.tensor_shapes[input_ids(op)[0]];
    let starts = const_ints(m, input_ids(op)[1])->0;
    let ends = const_ints(m, input_ids(op)[2])->0;
    let steps = const_ints(m, input_ids(op)[3])->0;
    let lists = block_positions(
        dims,
        slice_positions(dims[1], starts[0], ends[0], steps[0]),
        slice_positions(dims[2], starts[1], ends[1], steps[1]),
    );
    assert(lists =~= Seq::new(
        dims.len(),
        |d: int|
            if d == 1 {
                positions_along(dims[1], starts[0], ends[0], steps[0])
            } else if d == 2 {
                positions_along(dims[2], starts[1], ends[1], steps[1])
            } else {
                Seq::new(dims[d] as nat, |i: int| i as i64)
            },
    )) by {
        assert forall|d: int| 0 <= d < dims.len() && d != 1 && d != 2 implies #[trigger] lists[d]
            == Seq::new(dims[d] as nat, |i: int| i as i64) by {
            assert(counted(dims[d] as nat) =~= Seq::new(dims[d] as nat, |i: int| i as i64));
        }
    }
    let rows = rows_of(lists, dims.len());
    assert(rows == cells_of(m, op));
}

/// The rows that take one number from each of the first lists are all such rows, and no others.
pub proof fn law_rows_complete(lists: Seq<Seq<i64>>, k: nat, row: Seq<i64>)
    requires
        k <= lists.len(),
    ensures
        rows_of(lists, k).contains(row) <==> row.len() == k && forall|d: int|
            0 <= d < k ==> lists[d].contains(#[trigger] row[d]),
    decreases k,
{
    let rows = rows_of(lists, k);
    if k == 0 {
        assert(rows[0] =~= Seq::<i64>::empty());
        if row.len() == 0 {
            assert(row =~= rows[0]);
        }
    } else {
        let front = rows_of(lists, (k - 1) as nat);
        let list = lists[k - 1];
        let n = list.len() as int;
        if rows.contains(row) {
            let i = choose|i: int| 0 <= i < rows.len() && rows[i] == row;
            assert(rows.len() == front.len() * list.len());
            assert(n > 0) by {
                if n == 0 {
                    assert(front.len() * list.len() == 0) by (nonlinear_arith)
                        requires
                            list.len() == 0,
                    ;
                }
            }
            lemma_fundamental_div_mod(i, n);
            lemma_mod_bound(i, n);
            let q = i / n;
            assert(0 <= q < front.len()) by (nonlinear_arith)
                requires
                    i == n * q + i % n,
                    0 <= i % n < n,
                    0 <= i < front.len() * n,
                    n > 0,
            ;
            law_rows_complete(lists, (k - 1) as nat, front[q]);
            assert(front.contains(front[q]));
            assert(row == front[q].push(list[i % n]));
            assert forall|d: int| 0 <= d < k implies lists[d].contains(#[trigger] row[d]) by {
                if d < k - 1 {
                    assert(row[d] == front[q][d]);
                }
            }
        }
        if row.len() == k && forall|d: int| 0 <= d < k ==> lists[d].contains(#[trigger] row[d]) {
            let rest = row.drop_last();
            assert forall|d: int| 0 <= d < k - 1 implies lists[d].contains(#[trigger] rest[d]) by {
                assert(rest[d] == row[d]);
            }
            law_rows_complete(lists, (k - 1) as nat, rest);
            let q = choose|q: int| 0 <= q < front.len() && front[q] == rest;
            assert(lists[k - 1].contains(row[k - 1]));
            let r = choose|r: int| 0 <= r < list.len() && list[r] == row[k - 1];
            let i = q * n + r;
            lemma_fundamental_div_mod_converse(i, n, q, r);
            assert(0 <= i < front.len() * list.len()) by (nonlinear_arith)
                requires
                    0 <= q < front.len(),
                    0 <= r < n,
                    i == q * n + r,
                    n == list.len(),
            ;
            assert(rows[i] =~= row);
        }
    }
}

/// `set_value_with_tensor_` without axes takes the values in place of the data.
pub proof fn law_set_value_with_tensor<V>(
    w: World<V>,
    env: Values<V>,
    m: Meta,
    g: Graph,
    op: JsonView,
)
    requires
        ran(w, env, set_value_with_tensor_lowered(m, g, op)),
        or_default(attr_items_of(op, "axes"@), Seq::empty()).len() == 0,
    ensures
        output_of(m, env, op) == w.of1("Identity"@, input_of(m, env, op, 1)),
{
    broadcast use group_runs;

}

/// `set_value_with_tensor_` along the second axis writes the values at the positions from the start
/// on before the end, by steps; values without that axis get it first.
pub proof fn law_set_slice_with_tensor<V>(
    w: World<V>,
    env: Values<V>,
    m: Meta,
    g: Graph,
    op: JsonView,
)
    requires
        ran(w, env, set_value_with_tensor_lowered(m, g, op)),
        or_default(attr_items_of(op, "axes"@), Seq::empty()).len() > 0,
    ensures
        ({
            let ins = input_ids(op);
            let rank = m.tensor_shapes[ins[0]].len();
            let dropped = or_default(attr_ints_of(op, "decrease_axes"@), Seq::empty()).len() > 0;
            let range = w.of3(
                "Range"@,
                whole_scalar(w, m, env, ins[2]),
                whole_scalar(w, m, env, ins[3]),
                whole_scalar(w, m, env, ins[4]),
            );
            let updates = if dropped {
                w.unsqueeze(input_of(m, env, op, 1), seq![1i64])
            } else {
                input_of(m, env, op, 1)
            };
            let along = Seq::new(
                rank,
                |d: int|
                    if d == 1 {
                        -1i64
                    } else {
                        1i64
                    },
            );
            output_of(m, env, op) == w.scatter(
                input_of(m, env, op, 0),
                w.of2(
                    "Expand"@,
                    w.of2("Reshape"@, range, w.ints(seq![rank as i64], along)),
                    w.of1("Shape"@, updates),
                ),
                updates,
                1,
            )
        }),
{
    broadcast use group_runs;

    let rank = m.tensor_shapes[input_ids(op)[0]].len();
    assert(second_axis_shape(rank) =~= Seq::new(
        rank,
        |d: int|
            if d == 1 {
                -1i64
            } else {
                1i64
            },
    ));
}

/// `put_along_axis` overwrites elements along its axis.
pub proof fn law_put_along_axis<V>(w: World<V>, env: Values<V>, m: Meta, g: Graph, op: JsonView)
    requires
        ran(w, env, put_along_axis_lowered(m, g, op)),
    ensures
        output_of(m, env, op) == w.scatter(
            input_of(m, env, op, 0),
            whole(w, m, env, input_ids(op)[1]),
            input_of(m, env, op, 2),
            axis_from_front(
                m,
                input_ids(op)[0],
                or_default(attr_int_of(op, "axis"@), 0),
            )->Ok_0 as int,
        ),
{
    broadcast use group_runs;

}

// ---- repeat_interleave ----

proof fn lemma_repeat_parts<V>(w: World<V>, env: Values<V>, g: Graph, id: i64, at: i64, k: nat)
    requires
        k <= i64::MAX,
        runs(w, env, repeat_parts(g, id, at, k).0),
    ensures
        runs(w, env, g),
        seen(env, repeat_parts(g, id, at, k).1) == Seq::new(
            k,
            |i: int|
                if i == at {
                    env(tagged("repeat_interleave_repeats_dim_"@, id))
                } else {
                    w.vector(seq![1i64])
                },
        ),
    decreases k,
{
    broadcast use group_runs;

    let list = repeat_parts(g, id, at, k).1;
    let values = Seq::new(
        k,
        |i: int|
            if i == at {
                env(tagged("repeat_interleave_repeats_dim_"@, id))
            } else {
                w.vector(seq![1i64])
            },
    );
    if k > 0 {
        let front = repeat_parts(g, id, at, (k - 1) as nat).1;
        assert(runs(w, env, repeat_parts(g, id, at, (k - 1) as nat).0));
        lemma_repeat_parts(w, env, g, id, at, (k - 1) as nat);
        assert(seen(env, front).len() == front.len());
        assert forall|i: int| 0 <= i < k - 1 implies env(#[trigger] front[i]) == values[i] by {
            assert(seen(env, front)[i] == env(front[i]));
        }
        assert(list.drop_last() =~= front);
        assert(env(list.last()) == values[k - 1]);
    }
    assert(seen(env, list) =~= values);
}

/// How often `repeat_interleave` repeats.
pub open spec fn repeats_of<V>(w: World<V>, m: Meta, env: Values<V>, op: JsonView) -> V {
    match attr_int_of(op, "repeats"@) {
        Some(count) => w.vector(seq![count]),
        None => w.unsqueeze(whole_scalar(w, m, env, input_ids(op)[1]), seq![0i64]),
    }
}

/// Values joined along the first axis, if there are several.
pub open spec fn joined_values<V>(w: World<V>, list: Seq<V>) -> V {
    if list.len() == 1 {
        list[0]
    } else {
        w.concat(list, 0)
    }
}

/// `repeat_interleave` repeats each item along an axis in place: an axis is added behind it, the
/// value is repeated along that, and the two axes become one.
pub proof fn law_repeat_interleave<V>(w: World<V>, env: Values<V>, m: Meta, g: Graph, op: JsonView)
    requires
        ran(w, env, repeat_interleave_lowered(m, g, op)),
        m.tensor_shapes[input_ids(op)[0]].len() < i64::MAX,
        ({
            let axis = axis_from_front(
                m,
                input_ids(op)[0],
                or_default(attr_int_of(op, "axis"@), 0),
            )->Ok_0;
            0 <= axis < m.tensor_shapes[input_ids(op)[0]].len()
        }),
    ensures
        ({
            let x = input_of(m, env, op, 0);
            let rank = m.tensor_shapes[input_ids(op)[0]].len();
            let axis = axis_from_front(
                m,
                input_ids(op)[0],
                or_default(attr_int_of(op, "axis"@), 0),
            )->Ok_0;
            let count = repeats_of(w, m, env, op);
            let times = Seq::new(
                rank + 1,
                |i: int|
                    if i == axis + 1 {
                        count
                    } else {
                        w.vector(seq![1i64])
                    },
            );
            let wide = w.unsqueeze(x, seq![(axis + 1) as i64]);
            let tiled = w.of2("Tile"@, wide, joined_values(w, times));
            let shape = w.of1("Shape"@, x);
            let grown = w.of2("Mul"@, sizes_between(w, shape, axis, (axis + 1) as i64), count);
            let sizes = (if axis > 0 {
                seq![sizes_between(w, shape, 0, axis)]
            } else {
                Seq::empty()
            }).push(grown) + (if axis + 1 < rank {
                seq![sizes_between(w, shape, (axis + 1) as i64, rank as i64)]
            } else {
                Seq::empty()
            });
            output_of(m, env, op) == w.of2("Reshape"@, tiled, joined_values(w, sizes))
        }),
{
    broadcast use group_runs;

    let ins = input_ids(op);
    let id = out_id(op)->Ok_0;
    let rank = m.tensor_shapes[ins[0]].len();
    let axis = axis_from_front(m, ins[0], or_default(attr_int_of(op, "axis"@), 0))->Ok_0;
    assert(add_wrapped(axis, 1) == axis + 1);
    let g1 = crate::converter::emit::unsqueeze_added(
        g,
        m.target_opset,
        tensor_name(m, ins[0])->Ok_0,
        tagged("repeat_interleave_expanded_"@, id),
        seq![add_wrapped(axis, 1)],
        tagged("repeat_interleave_axes_"@, id),
    );
    let g2 = crate::converter::ops::update::repeats_given(m, g1, op, id, ins).0;
    let (g3, parts) = repeat_parts(g2, id, add_wrapped(axis, 1), rank + 1);
    let before = tagged("repeat_interleave_prefix_"@, id);
    let grown = tagged("repeat_interleave_repeated_dim_"@, id);
    let behind = tagged("repeat_interleave_suffix_"@, id);
    let names = (if axis > 0 {
        seq![before]
    } else {
        Seq::empty()
    }).push(grown) + (if axis + 1 < rank {
        seq![behind]
    } else {
        Seq::empty()
    });
    let sizes = (if axis > 0 {
        seq![env(before)]
    } else {
        Seq::empty()
    }).push(env(grown)) + (if axis + 1 < rank {
        seq![env(behind)]
    } else {
        Seq::empty()
    });
    assert(seen(env, names) =~= sizes);
    assert(runs(w, env, g3));
    lemma_repeat_parts(w, env, g2, id, add_wrapped(axis, 1), rank + 1);
    assert(seen(env, parts).len() == parts.len());
    assert(env(tagged("repeat_interleave_repeats_dim_"@, id)) == repeats_of(w, m, env, op));
    if names.len() == 1 {
        assert(names[0] == grown);
    }
}

} // verus!
