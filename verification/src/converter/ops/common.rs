//! Steps that several lowerings share.

use crate::converter::emit::{cast_added, squeeze_added, unary_added, unsqueeze_added};
use crate::converter::optimizer::options::map_get;
use crate::converter::state::{name_result, tensor_name, Converter, Meta};
use crate::dtype::INT64;
use crate::error::{message, Error, ErrorView};
use crate::float::{as_i64, to_i64};
use crate::helper::id_result;
use crate::onnx::Graph;
use crate::text::{dec, int_text, ints1, join3, names, push_name, same, tag, tagged};
use vstd::prelude::*;

verus! {

/// A step that changes a graph and yields a name, or fails.
pub type NameStep = (Graph, Result<Seq<char>, ErrorView>);

/// A sum of two integers that wraps around.
pub open spec fn add_wrapped(a: i64, b: i64) -> i64 {
    vstd::wrapping::i64_specs::wrapping_add(a, b)
}

/// Whether a value is known to have the given element type.
pub open spec fn has_type(m: Meta, id: i64, name: Seq<char>) -> bool {
    map_get(m.tensor_types, id) == Some(name)
}

/// Whether a value is known to have the given shape.
pub open spec fn has_shape(m: Meta, id: i64, dims: Seq<i64>) -> bool {
    map_get(m.tensor_shapes, id) == Some(dims)
}

/// The shape of a value, or that of a scalar where it is not known.
pub open spec fn shape_or_empty(m: Meta, id: i64) -> Seq<i64> {
    match map_get(m.tensor_shapes, id) {
        Some(dims) => dims,
        None => Seq::empty(),
    }
}

/// Values rounded toward zero.
pub open spec fn as_ints(values: Seq<u64>) -> Seq<i64> {
    Seq::new(values.len(), |i: int| to_i64(values[i]))
}

/// The integers of a constant.
pub open spec fn const_ints(m: Meta, id: i64) -> Option<Seq<i64>> {
    match map_get(m.constants, id) {
        Some(values) => Some(as_ints(values)),
        None => None,
    }
}

/// The first value of a constant.
pub open spec fn first_const(m: Meta, id: i64) -> Option<u64> {
    match map_get(m.constants, id) {
        Some(values) => if values.len() > 0 {
            Some(values[0])
        } else {
            None
        },
        None => None,
    }
}

/// `axis` counted from the front, where the rank is known.
pub open spec fn axis_from_front(m: Meta, id: i64, axis: i64) -> Result<i64, ErrorView> {
    match map_get(m.tensor_shapes, id) {
        Some(dims) => Ok(
            if axis < 0 {
                add_wrapped(axis, dims.len() as i64)
            } else {
                axis
            },
        ),
        None => Err(message("missing rank metadata for tensor "@ + dec(id as int))),
    }
}

/// `label`, `middle` and an id.
pub open spec fn labelled(label: Seq<char>, middle: Seq<char>, id: i64) -> Seq<char> {
    label + middle + dec(id as int)
}

/// The graph in which a value is also there as an `INT64` scalar, and that one's name.
#[verifier::opaque]
pub open spec fn scalar_ensured(m: Meta, g: Graph, id: i64, out_id: i64, label: Seq<char>) -> NameStep {
    match tensor_name(m, id) {
        Err(e) => (g, Err(e)),
        Ok(name) => {
            let single = has_shape(m, id, seq![1i64]);
            let squeezed = labelled(label, "_scalar_"@, out_id);
            let g1 = if single {
                squeeze_added(
                    g,
                    m.target_opset,
                    name,
                    squeezed,
                    Some(seq![0i64]),
                    Some(labelled(label, "_scalar_axes_"@, out_id)),
                )
            } else {
                g
            };
            let name1 = if single {
                squeezed
            } else {
                name
            };
            if has_type(m, id, "0.t_i64"@) {
                (g1, Ok(name1))
            } else {
                let casted = labelled(label, "_i64_"@, out_id);
                (cast_added(g1, name1, casted, INT64), Ok(casted))
            }
        },
    }
}

/// The graph in which a value is also there with `INT64` elements, and that one's name.
#[verifier::opaque]
pub open spec fn ints_ensured(m: Meta, g: Graph, id: i64, out_id: i64, label: Seq<char>) -> NameStep {
    match tensor_name(m, id) {
        Err(e) => (g, Err(e)),
        Ok(name) => if has_type(m, id, "0.t_i64"@) {
            (g, Ok(name))
        } else {
            let casted = labelled(label, "_i64_"@, out_id);
            (cast_added(g, name, casted, INT64), Ok(casted))
        },
    }
}

/// The graph in which a reduction of a scalar is the scalar itself, and whether the input is one.
#[verifier::opaque]
pub open spec fn scalar_passed(m: Meta, g: Graph, id: i64, out_id: i64) -> (
    Graph,
    Result<bool, ErrorView>,
) {
    if !has_shape(m, id, Seq::empty()) {
        (g, Ok(false))
    } else {
        match (tensor_name(m, id), tensor_name(m, out_id)) {
            (Err(e), _) => (g, Err(e)),
            (_, Err(e)) => (g, Err(e)),
            (Ok(input), Ok(output)) => if has_shape(m, out_id, seq![1i64]) {
                (
                    unsqueeze_added(
                        g,
                        m.target_opset,
                        input,
                        output,
                        seq![0i64],
                        tagged("scalar_reduce_axes_"@, out_id),
                    ),
                    Ok(true),
                )
            } else {
                (unary_added(g, "Identity"@, input, output), Ok(true))
            },
        }
    }
}

/// Compares two lists.
pub fn same_list(a: &Vec<i64>, b: &Vec<i64>) -> (r: bool)
    ensures
        r == (a@ == b@),
{
    if a.len() != b.len() {
        return false;
    }
    let mut i: usize = 0;
    while i < a.len()
        invariant
            i <= a.len() == b.len(),
            forall|k: int| 0 <= k < i ==> a@[k] == b@[k],
        decreases a.len() - i,
    {
        if a[i] != b[i] {
            return false;
        }
        i = i + 1;
    }
    proof {
        assert(a@ =~= b@);
    }
    true
}

/// Copies a list.
pub fn copy_list(list: &Vec<i64>) -> (r: Vec<i64>)
    ensures
        r@ == list@,
{
    let r = list.clone();
    proof {
        assert(r@ =~= list@);
    }
    r
}

/// Rounds values toward zero.
pub fn round_all(values: &Vec<u64>) -> (r: Vec<i64>)
    ensures
        r@ == as_ints(values@),
{
    let mut list: Vec<i64> = Vec::new();
    let mut i: usize = 0;
    while i < values.len()
        invariant
            i <= values.len(),
            list@ =~= as_ints(values@).take(i as int),
        decreases values.len() - i,
    {
        list.push(as_i64(values[i]));
        i = i + 1;
    }
    proof {
        assert(as_ints(values@).take(i as int) =~= as_ints(values@));
    }
    list
}

/// Whether some number of a list is negative.
pub open spec fn some_negative(list: Seq<i64>) -> bool {
    exists|i: int| 0 <= i < list.len() && #[trigger] list[i] < 0
}

/// Whether some number of a list is negative.
pub fn any_negative(list: &Vec<i64>) -> (r: bool)
    ensures
        r == some_negative(list@),
{
    let mut i: usize = 0;
    while i < list.len()
        invariant
            i <= list.len(),
            forall|k: int| 0 <= k < i ==> #[trigger] list@[k] >= 0,
        decreases list.len() - i,
    {
        if list[i] < 0 {
            return true;
        }
        i = i + 1;
    }
    false
}

/// Whether some number of a list is not positive.
pub open spec fn some_not_positive(list: Seq<i64>) -> bool {
    exists|i: int| 0 <= i < list.len() && #[trigger] list[i] <= 0
}

/// Whether some number of a list is not positive.
pub fn any_not_positive(list: &Vec<i64>) -> (r: bool)
    ensures
        r == some_not_positive(list@),
{
    let mut i: usize = 0;
    while i < list.len()
        invariant
            i <= list.len(),
            forall|k: int| 0 <= k < i ==> #[trigger] list@[k] > 0,
        decreases list.len() - i,
    {
        if list[i] <= 0 {
            return true;
        }
        i = i + 1;
    }
    false
}

/// Whether a list holds a number.
pub fn holds(list: &Vec<i64>, value: i64) -> (r: bool)
    ensures
        r == list@.contains(value),
{
    let mut i: usize = 0;
    while i < list.len()
        invariant
            i <= list.len(),
            forall|k: int| 0 <= k < i ==> list@[k] != value,
        decreases list.len() - i,
    {
        if list[i] == value {
            return true;
        }
        i = i + 1;
    }
    false
}

/// The first names of some values, in order, or the first error.
pub open spec fn names_upto(m: Meta, ids: Seq<i64>, k: nat) -> Result<Seq<Seq<char>>, ErrorView>
    decreases k,
{
    if k == 0 {
        Ok(Seq::empty())
    } else {
        match names_upto(m, ids, (k - 1) as nat) {
            Err(e) => Err(e),
            Ok(front) => match tensor_name(m, ids[k - 1]) {
                Err(e) => Err(e),
                Ok(name) => Ok(front.push(name)),
            },
        }
    }
}

proof fn lemma_names_err(m: Meta, ids: Seq<i64>, k: nat, n: nat)
    requires
        k <= n,
        names_upto(m, ids, k) is Err,
    ensures
        names_upto(m, ids, n) == names_upto(m, ids, k),
    decreases n,
{
    if k < n {
        lemma_names_err(m, ids, k, (n - 1) as nat);
    }
}

/// The content of a result with names.
pub open spec fn names_result(r: Result<Vec<String>, Error>) -> Result<Seq<Seq<char>>, ErrorView> {
    match r {
        Ok(list) => Ok(names(list@)),
        Err(e) => Err(e@),
    }
}

/// The content of a result with a truth value.
pub open spec fn bool_result(r: Result<bool, Error>) -> Result<bool, ErrorView> {
    match r {
        Ok(b) => Ok(b),
        Err(e) => Err(e@),
    }
}

/// Lists are views of equal lists.
pub open spec fn ints_option(list: Option<Vec<i64>>) -> Option<Seq<i64>> {
    match list {
        Some(list) => Some(list@),
        None => None,
    }
}

impl Converter {
    /// The names of the first `count` of some values.
    pub fn first_names(&self, ids: &Vec<i64>, count: usize) -> (r: Result<Vec<String>, Error>)
        requires
            count <= ids.len(),
        ensures
            names_result(r) == names_upto(self.meta(), ids@, count as nat),
    {
        let mut list: Vec<String> = Vec::new();
        let mut i: usize = 0;
        proof {
            assert(names(list@) =~= Seq::empty());
        }
        while i < count
            invariant
                i <= count <= ids.len(),
                names_upto(self.meta(), ids@, i as nat) == Ok::<Seq<Seq<char>>, ErrorView>(
                    names(list@),
                ),
            decreases count - i,
        {
            match self.get_tensor_name(ids[i]) {
                Ok(name) => {
                    push_name(&mut list, name);
                },
                Err(e) => {
                    proof {
                        lemma_names_err(self.meta(), ids@, (i + 1) as nat, count as nat);
                    }
                    return Err(e);
                },
            }
            i = i + 1;
        }
        Ok(list)
    }

    /// Whether a value is known to have the given element type.
    pub fn is_type(&self, id: i64, name: &str) -> (r: bool)
        ensures
            r == has_type(self.meta(), id, name@),
    {
        match self.state.tensor_types.get(id) {
            Some(found) => same(found.as_str(), name),
            None => false,
        }
    }

    /// Whether a value is known to have the given shape.
    pub fn is_shape(&self, id: i64, dims: &Vec<i64>) -> (r: bool)
        ensures
            r == has_shape(self.meta(), id, dims@),
    {
        match self.state.tensor_shapes.get(id) {
            Some(found) => same_list(found, dims),
            None => false,
        }
    }

    /// The shape of a value, where it is known.
    pub fn known_dims(&self, id: i64) -> (r: Option<Vec<i64>>)
        ensures
            ints_option(r) == map_get(self.meta().tensor_shapes, id),
    {
        match self.state.tensor_shapes.get(id) {
            Some(dims) => Some(copy_list(dims)),
            None => None,
        }
    }

    /// The shape of a value, or that of a scalar where it is not known.
    pub fn dims_or_empty(&self, id: i64) -> (r: Vec<i64>)
        ensures
            r@ == shape_or_empty(self.meta(), id),
    {
        match self.state.tensor_shapes.get(id) {
            Some(dims) => copy_list(dims),
            None => Vec::new(),
        }
    }

    /// The integers of a constant.
    pub fn constant_ints(&self, id: i64) -> (r: Option<Vec<i64>>)
        ensures
            ints_option(r) == const_ints(self.meta(), id),
    {
        match self.state.constants.get(id) {
            Some(values) => Some(round_all(values)),
            None => None,
        }
    }

    /// The first value of a constant.
    pub fn first_constant(&self, id: i64) -> (r: Option<u64>)
        ensures
            r == first_const(self.meta(), id),
    {
        match self.state.constants.get(id) {
            Some(values) => if values.len() > 0 {
                Some(values[0])
            } else {
                None
            },
            None => None,
        }
    }

    /// `axis` counted from the front.
    pub fn normalize_axis(&self, input_id: i64, axis: i64) -> (r: Result<i64, Error>)
        ensures
            id_result(r) == axis_from_front(self.meta(), input_id, axis),
    {
        match self.state.tensor_shapes.get(input_id) {
            Some(dims) => {
                if axis < 0 {
                    Ok(axis.wrapping_add(dims.len() as i64))
                } else {
                    Ok(axis)
                }
            },
            None => Err(Error::owned(tag("missing rank metadata for tensor ", input_id))),
        }
    }

    /// Makes a value available as an `INT64` scalar.
    pub fn ensure_scalar_i64_input(&mut self, input_id: i64, out_id: i64, label: &str) -> (r: Result<
        String,
        Error,
    >)
        ensures
            final(self).meta() == old(self).meta(),
            (final(self).onnx_graph@, name_result(r)) == scalar_ensured(
                old(self).meta(),
                old(self).onnx_graph@,
                input_id,
                out_id,
                label@,
            ),
    {
        proof {
            reveal(scalar_ensured);
        }
        let mut name = self.get_tensor_name(input_id)?;
        if self.is_shape(input_id, &ints1(1)) {
            let squeezed = join3(label, "_scalar_", int_text(out_id).as_str());
            self.add_squeeze_node(
                name,
                squeezed.clone(),
                Some(&ints1(0)),
                Some(join3(label, "_scalar_axes_", int_text(out_id).as_str())),
            );
            name = squeezed;
        }
        if !self.is_type(input_id, "0.t_i64") {
            let casted = join3(label, "_i64_", int_text(out_id).as_str());
            self.add_cast_node(name, casted.clone(), INT64);
            name = casted;
        }
        Ok(name)
    }

    /// Makes a value available with `INT64` elements.
    pub fn ensure_i64_input(&mut self, input_id: i64, out_id: i64, label: &str) -> (r: Result<
        String,
        Error,
    >)
        ensures
            final(self).meta() == old(self).meta(),
            (final(self).onnx_graph@, name_result(r)) == ints_ensured(
                old(self).meta(),
                old(self).onnx_graph@,
                input_id,
                out_id,
                label@,
            ),
    {
        proof {
            reveal(ints_ensured);
        }
        let name = self.get_tensor_name(input_id)?;
        if self.is_type(input_id, "0.t_i64") {
            return Ok(name);
        }
        let casted = join3(label, "_i64_", int_text(out_id).as_str());
        self.add_cast_node(name, casted.clone(), INT64);
        Ok(casted)
    }

    /// Lowers a reduction of a scalar.
    pub fn scalar_reduce_passthrough(&mut self, input_id: i64, out_id: i64) -> (r: Result<
        bool,
        Error,
    >)
        ensures
            final(self).meta() == old(self).meta(),
            (final(self).onnx_graph@, bool_result(r)) == scalar_passed(
                old(self).meta(),
                old(self).onnx_graph@,
                input_id,
                out_id,
            ),
    {
        proof {
            reveal(scalar_passed);
        }
        if !self.is_shape(input_id, &Vec::new()) {
            return Ok(false);
        }
        let input = self.get_tensor_name(input_id)?;
        let output = self.get_tensor_name(out_id)?;
        if self.is_shape(out_id, &ints1(1)) {
            self.add_unsqueeze_node(
                input,
                output,
                &ints1(0),
                tag("scalar_reduce_axes_", out_id),
            );
        } else {
            self.add_unary_node("Identity", input, output);
        }
        Ok(true)
    }
}

} // verus!
