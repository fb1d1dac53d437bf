//! What the converter knows of a model.

use crate::converter::optimizer::options::{map_get, OptimizationLevel};
use crate::converter::DEFAULT_OPSET;
use crate::dtype::{dtype_result, elem_type_of, onnx_elem_type_from_paddle};
use crate::error::{message, outcome, Error, ErrorView};
use crate::onnx::{graph_of, GraphProto};
use crate::text::{dec, int_text, names, push_name, same, tag};
use std::collections::HashMap;
use vstd::prelude::*;
use vstd::std_specs::iter::IteratorSpec;

verus! {

broadcast use vstd::std_specs::hash::group_hash_axioms;

/// Metadata by value id. A copy is independent of what it was copied from.
pub struct CloneOnWriteMap<V> {
    inner: HashMap<i64, V>,
}

impl<V: View> View for CloneOnWriteMap<V> {
    type V = Map<i64, V::V>;

    closed spec fn view(&self) -> Map<i64, V::V> {
        self.inner@.map_values(|v: V| v@)
    }
}

impl<V: View> CloneOnWriteMap<V> {
    /// The empty map.
    pub fn new() -> (r: Self)
        ensures
            r@ == Map::<i64, V::V>::empty(),
    {
        let r = CloneOnWriteMap { inner: HashMap::new() };
        proof {
            assert(r@ =~= Map::<i64, V::V>::empty());
        }
        r
    }

    /// Gives `id` a value, in place of the one it had, which is returned.
    pub fn insert(&mut self, id: i64, value: V) -> (r: Option<V>)
        ensures
            final(self)@ == old(self)@.insert(id, value@),
            match r {
                Some(v) => map_get(old(self)@, id) == Some(v@),
                None => map_get(old(self)@, id) is None,
            },
    {
        let previous = self.inner.insert(id, value);
        proof {
            assert(self@ =~= old(self)@.insert(id, value@));
        }
        previous
    }

    /// The value of `id`.
    pub fn get(&self, id: i64) -> (r: Option<&V>)
        ensures
            match r {
                Some(v) => map_get(self@, id) == Some(v@),
                None => map_get(self@, id) is None,
            },
    {
        self.inner.get(&id)
    }

    /// The ids that have a value, in any order.
    pub fn ids(&self) -> (r: Vec<i64>)
        ensures
            r@.to_set() == self@.dom(),
    {
        let mut list: Vec<i64> = Vec::new();
        for id in it: self.inner.keys()
            invariant
                list@.len() == it.index(),
                forall|k: int| 0 <= k < list@.len() ==> list@[k] == *it.seq()[k],
                it.seq() == vstd::std_specs::hash::spec_keys_iter(&self.inner).remaining(),
        {
            list.push(*id);
        }
        proof {
            let all = vstd::std_specs::hash::spec_keys_iter(&self.inner).remaining();
            assert(list@ =~= all.unref());
            assert(self@.dom() =~= self.inner@.dom());
        }
        list
    }
}

impl<V: View + Clone> CloneOnWriteMap<V> {
    /// A copy of the map.
    pub fn duplicate(&self) -> (r: Self)
        ensures
            r@ == self@,
    {
        CloneOnWriteMap { inner: self.inner.clone() }
    }
}

/// The element type and the sizes of a parameter.
pub struct ParamMeta {
    pub onnx_dtype: Option<i32>,
    pub dims: Vec<i64>,
}

/// The content of [`ParamMeta`].
#[verifier::ext_equal]
pub struct Param {
    pub onnx_dtype: Option<i32>,
    pub dims: Seq<i64>,
}

impl View for ParamMeta {
    type V = Param;

    open spec fn view(&self) -> Param {
        Param { onnx_dtype: self.onnx_dtype, dims: self.dims@ }
    }
}

/// Metadata by parameter name. A copy is independent of what it was copied from.
pub struct ParamTable {
    entries: Vec<(String, ParamMeta)>,
}

/// The position of the last entry for `name`.
spec fn entry_of(list: Seq<(String, ParamMeta)>, name: Seq<char>) -> Option<nat>
    decreases list.len(),
{
    if list.len() == 0 {
        None
    } else if list.last().0@ == name {
        Some((list.len() - 1) as nat)
    } else {
        entry_of(list.drop_last(), name)
    }
}

proof fn lemma_entry_bound(list: Seq<(String, ParamMeta)>, name: Seq<char>)
    ensures
        entry_of(list, name) matches Some(i) ==> i < list.len() && list[i as int].0@ == name,
    decreases list.len(),
{
    if list.len() > 0 && list.last().0@ != name {
        lemma_entry_bound(list.drop_last(), name);
    }
}

proof fn lemma_entry_same(a: Seq<(String, ParamMeta)>, b: Seq<(String, ParamMeta)>, name: Seq<char>)
    requires
        a.len() == b.len(),
        forall|i: int| 0 <= i < a.len() ==> (#[trigger] a[i]).0@ == b[i].0@,
    ensures
        entry_of(a, name) == entry_of(b, name),
    decreases a.len(),
{
    if a.len() > 0 {
        assert(a[a.len() - 1].0@ == b[b.len() - 1].0@);
        assert forall|i: int| 0 <= i < a.drop_last().len() implies (
        #[trigger] a.drop_last()[i]).0@ == b.drop_last()[i].0@ by {
            assert(a[i].0@ == b[i].0@);
        }
        lemma_entry_same(a.drop_last(), b.drop_last(), name);
    }
}

proof fn lemma_entry_added(
    a: Seq<(String, ParamMeta)>,
    b: Seq<(String, ParamMeta)>,
    key: Seq<char>,
    name: Seq<char>,
)
    requires
        match entry_of(a, key) {
            Some(_) => a.len() == b.len() && forall|i: int|
                0 <= i < a.len() ==> (#[trigger] a[i]).0@ == b[i].0@,
            None => b.len() == a.len() + 1 && b.drop_last() == a && b.last().0@ == key,
        },
    ensures
        name == key && entry_of(a, key) is None ==> entry_of(b, name) == Some(a.len()),
        name != key || entry_of(a, key) is Some ==> entry_of(b, name) == entry_of(a, name),
{
    if entry_of(a, key) is Some {
        lemma_entry_same(a, b, name);
    }
}

impl View for ParamTable {
    type V = Map<Seq<char>, Param>;

    closed spec fn view(&self) -> Map<Seq<char>, Param> {
        Map::new(
            |name: Seq<char>| entry_of(self.entries@, name) is Some,
            |name: Seq<char>| self.entries@[entry_of(self.entries@, name)->0 as int].1@,
        )
    }
}

impl ParamTable {
    /// The empty table.
    pub fn new() -> (r: ParamTable)
        ensures
            r@ == Map::<Seq<char>, Param>::empty(),
    {
        let r = ParamTable { entries: Vec::new() };
        proof {
            assert(r@ =~= Map::<Seq<char>, Param>::empty());
        }
        r
    }

    fn position(&self, name: &str) -> (r: Option<usize>)
        ensures
            match r {
                Some(i) => i < self.entries.len() && entry_of(self.entries@, name@) == Some(
                    i as nat,
                ),
                None => entry_of(self.entries@, name@) is None,
            },
    {
        let ghost all = self.entries@;
        let mut i: usize = self.entries.len();
        proof {
            assert(all.take(i as int) =~= all);
        }
        while i > 0
            invariant
                i <= self.entries.len(),
                all == self.entries@,
                entry_of(all, name@) == entry_of(all.take(i as int), name@),
            decreases i,
        {
            i = i - 1;
            proof {
                assert(all.take(i + 1).last() == all[i as int]);
                assert(all.take(i + 1).drop_last() =~= all.take(i as int));
            }
            if same(self.entries[i].0.as_str(), name) {
                return Some(i);
            }
        }
        None
    }

    /// Gives `name` metadata, in place of what it had, which is returned.
    pub fn insert(&mut self, name: String, meta: ParamMeta) -> (r: Option<ParamMeta>)
        ensures
            final(self)@ == old(self)@.insert(name@, meta@),
            match r {
                Some(previous) => map_get(old(self)@, name@) == Some(previous@),
                None => map_get(old(self)@, name@) is None,
            },
    {
        let ghost before = self.entries@;
        let ghost key = name@;
        let ghost value = meta@;
        let mut r: Option<ParamMeta> = None;
        match self.position(name.as_str()) {
            Some(i) => {
                let mut previous = meta;
                std::mem::swap(&mut self.entries[i].1, &mut previous);
                r = Some(previous);
            },
            None => {
                self.entries.push((name, meta));
                proof {
                    assert(self.entries@.drop_last() =~= before);
                }
            },
        }
        proof {
            let after = self.entries@;
            let target = old(self)@.insert(key, value);
            if r is Some {
                let i = entry_of(before, key)->0 as int;
                assert(after.len() == before.len());
                assert(after[i].1@ == value);
            }
            assert forall|x: Seq<char>| #[trigger]
                self@.dom().contains(x) == target.dom().contains(x) by {
                lemma_entry_added(before, after, key, x);
            }
            assert forall|x: Seq<char>| #[trigger] self@.dom().contains(x) implies self@[x]
                == target[x] by {
                lemma_entry_added(before, after, key, x);
                lemma_entry_bound(before, x);
                lemma_entry_bound(before, key);
            }
            assert(self@ =~= target);
        }
        r
    }

    /// What is known of the parameter `name`.
    pub fn get(&self, name: &str) -> (r: Option<&ParamMeta>)
        ensures
            match r {
                Some(meta) => map_get(self@, name@) == Some(meta@),
                None => map_get(self@, name@) is None,
            },
    {
        match self.position(name) {
            Some(i) => Some(&self.entries[i].1),
            None => None,
        }
    }

    /// A copy of the table.
    pub fn duplicate(&self) -> (r: ParamTable)
        ensures
            r@ == self@,
    {
        let mut copy: Vec<(String, ParamMeta)> = Vec::new();
        let mut i: usize = 0;
        while i < self.entries.len()
            invariant
                i <= self.entries.len(),
                copy.len() == i,
                forall|k: int|
                    0 <= k < i ==> (#[trigger] copy@[k]).0@ == self.entries@[k].0@ && copy@[k].1@
                        == self.entries@[k].1@,
            decreases self.entries.len() - i,
        {
            let dims = self.entries[i].1.dims.clone();
            proof {
                assert(dims@ =~= self.entries@[i as int].1.dims@);
            }
            copy.push(
                (
                    self.entries[i].0.clone(),
                    ParamMeta { onnx_dtype: self.entries[i].1.onnx_dtype, dims },
                ),
            );
            i = i + 1;
        }
        let r = ParamTable { entries: copy };
        proof {
            assert forall|x: Seq<char>| #[trigger]
                r@.dom().contains(x) == self@.dom().contains(x) by {
                lemma_entry_same(r.entries@, self.entries@, x);
            }
            assert forall|x: Seq<char>| #[trigger] r@.dom().contains(x) implies r@[x]
                == self@[x] by {
                lemma_entry_same(r.entries@, self.entries@, x);
                lemma_entry_bound(self.entries@, x);
            }
            assert(r@ =~= self@);
        }
        r
    }
}

/// What is known of a model's values. Floating-point constants are kept by their bits.
pub struct ConverterState {
    pub id_to_name: CloneOnWriteMap<String>,
    pub param_names: Vec<String>,
    pub param_meta: ParamTable,
    pub combines: CloneOnWriteMap<Vec<i64>>,
    pub stack_parts: CloneOnWriteMap<Vec<i64>>,
    pub splits: CloneOnWriteMap<Vec<i64>>,
    pub constants: CloneOnWriteMap<Vec<u64>>,
    pub tensor_shapes: CloneOnWriteMap<Vec<i64>>,
    pub tensor_types: CloneOnWriteMap<String>,
}

/// Converts a model description into a graph.
pub struct Converter {
    pub onnx_graph: GraphProto,
    pub state: ConverterState,
    pub target_opset: i64,
    pub optimization_level: OptimizationLevel,
    pub strict: bool,
    pub warned_multinomial_degraded: bool,
}

/// What a converter knows, apart from the graph.
#[verifier::ext_equal]
pub struct Meta {
    pub id_to_name: Map<i64, Seq<char>>,
    pub param_names: Seq<Seq<char>>,
    pub param_meta: Map<Seq<char>, Param>,
    pub combines: Map<i64, Seq<i64>>,
    pub stack_parts: Map<i64, Seq<i64>>,
    pub splits: Map<i64, Seq<i64>>,
    pub constants: Map<i64, Seq<u64>>,
    pub tensor_shapes: Map<i64, Seq<i64>>,
    pub tensor_types: Map<i64, Seq<char>>,
    pub target_opset: i64,
    pub optimization_level: OptimizationLevel,
    pub strict: bool,
    pub warned_multinomial_degraded: bool,
}

/// The state of knowing nothing.
pub open spec fn empty_meta() -> Meta {
    Meta {
        id_to_name: Map::empty(),
        param_names: Seq::empty(),
        param_meta: Map::empty(),
        combines: Map::empty(),
        stack_parts: Map::empty(),
        splits: Map::empty(),
        constants: Map::empty(),
        tensor_shapes: Map::empty(),
        tensor_types: Map::empty(),
        target_opset: DEFAULT_OPSET,
        optimization_level: OptimizationLevel::Basic,
        strict: false,
        warned_multinomial_degraded: false,
    }
}

/// What a converter for a nested graph knows.
pub open spec fn nested_meta(m: Meta) -> Meta {
    Meta { warned_multinomial_degraded: false, ..m }
}

fn copy_names(list: &Vec<String>) -> (r: Vec<String>)
    ensures
        names(r@) == names(list@),
{
    let mut copy: Vec<String> = Vec::new();
    let mut i: usize = 0;
    while i < list.len()
        invariant
            i <= list.len(),
            names(copy@) =~= names(list@).take(i as int),
        decreases list.len() - i,
    {
        push_name(&mut copy, list[i].clone());
        i = i + 1;
    }
    proof {
        assert(names(list@).take(i as int) =~= names(list@));
    }
    copy
}

impl ConverterState {
    /// A copy.
    pub fn duplicate(&self) -> (r: ConverterState)
        ensures
            r.id_to_name@ == self.id_to_name@,
            names(r.param_names@) == names(self.param_names@),
            r.param_meta@ == self.param_meta@,
            r.combines@ == self.combines@,
            r.stack_parts@ == self.stack_parts@,
            r.splits@ == self.splits@,
            r.constants@ == self.constants@,
            r.tensor_shapes@ == self.tensor_shapes@,
            r.tensor_types@ == self.tensor_types@,
    {
        ConverterState {
            id_to_name: self.id_to_name.duplicate(),
            param_names: copy_names(&self.param_names),
            param_meta: self.param_meta.duplicate(),
            combines: self.combines.duplicate(),
            stack_parts: self.stack_parts.duplicate(),
            splits: self.splits.duplicate(),
            constants: self.constants.duplicate(),
            tensor_shapes: self.tensor_shapes.duplicate(),
            tensor_types: self.tensor_types.duplicate(),
        }
    }
}

impl Default for Converter {
    fn default() -> (r: Converter)
        ensures
            r.meta() == empty_meta(),
            r.onnx_graph@ == graph_of("Paddle2ONNX_Model"@),
    {
        Converter::new()
    }
}

/// The name of a value: none for id zero, the known one, or one made from the id, which then must
/// be positive.
pub open spec fn tensor_name(m: Meta, id: i64) -> Result<Seq<char>, ErrorView> {
    if id == 0 {
        Ok(""@)
    } else if m.id_to_name.contains_key(id) {
        Ok(m.id_to_name[id])
    } else if id < 0 {
        Err(message("Undefined value id "@ + dec(id as int)))
    } else {
        Ok("tensor_"@ + dec(id as int))
    }
}

/// The content of a result with a name.
pub open spec fn name_result(r: Result<String, Error>) -> Result<Seq<char>, ErrorView> {
    match r {
        Ok(name) => Ok(name@),
        Err(e) => Err(e@),
    }
}

/// The check that the target opset is at least `min`.
pub open spec fn opset_checked(m: Meta, min: i64, op: Seq<char>) -> Result<(), ErrorView> {
    if m.target_opset < min {
        Err(
            message(
                op + " requires opset >= "@ + dec(min as int) + ", but target opset is "@ + dec(
                    m.target_opset as int,
                ),
            ),
        )
    } else {
        Ok(())
    }
}

/// The element type of a value, where its type is known.
pub open spec fn dtype_if_known(m: Meta, id: i64) -> Result<Option<i32>, ErrorView> {
    match map_get(m.tensor_types, id) {
        Some(name) => match elem_type_of(name) {
            Ok(dtype) => Ok(Some(dtype)),
            Err(e) => Err(e),
        },
        None => Ok(None),
    }
}

/// The element type of a value.
pub open spec fn dtype_for(m: Meta, id: i64) -> Result<i32, ErrorView> {
    match dtype_if_known(m, id) {
        Ok(Some(dtype)) => Ok(dtype),
        Ok(None) => Err(message("missing dtype metadata for tensor "@ + dec(id as int))),
        Err(e) => Err(e),
    }
}

/// The content of a result with an optional element type.
pub open spec fn dtype_option_result(r: Result<Option<i32>, Error>) -> Result<
    Option<i32>,
    ErrorView,
> {
    match r {
        Ok(dtype) => Ok(dtype),
        Err(e) => Err(e@),
    }
}

impl Converter {
    /// What the converter knows, apart from the graph.
    pub open spec fn meta(&self) -> Meta {
        Meta {
            id_to_name: self.state.id_to_name@,
            param_names: names(self.state.param_names@),
            param_meta: self.state.param_meta@,
            combines: self.state.combines@,
            stack_parts: self.state.stack_parts@,
            splits: self.state.splits@,
            constants: self.state.constants@,
            tensor_shapes: self.state.tensor_shapes@,
            tensor_types: self.state.tensor_types@,
            target_opset: self.target_opset,
            optimization_level: self.optimization_level,
            strict: self.strict,
            warned_multinomial_degraded: self.warned_multinomial_degraded,
        }
    }

    /// A converter with an empty graph.
    pub fn new() -> (r: Converter)
        ensures
            r.meta() == empty_meta(),
            r.onnx_graph@ == graph_of("Paddle2ONNX_Model"@),
    {
        let r = Converter {
            onnx_graph: GraphProto::new("Paddle2ONNX_Model"),
            state: ConverterState {
                id_to_name: CloneOnWriteMap::new(),
                param_names: Vec::new(),
                param_meta: ParamTable::new(),
                combines: CloneOnWriteMap::new(),
                stack_parts: CloneOnWriteMap::new(),
                splits: CloneOnWriteMap::new(),
                constants: CloneOnWriteMap::new(),
                tensor_shapes: CloneOnWriteMap::new(),
                tensor_types: CloneOnWriteMap::new(),
            },
            target_opset: DEFAULT_OPSET,
            optimization_level: OptimizationLevel::Basic,
            strict: false,
            warned_multinomial_degraded: false,
        };
        proof {
            assert(r.meta().param_names =~= Seq::empty());
        }
        r
    }

    /// A converter for a nested graph: it knows what this one knows, and starts with an empty
    /// graph.
    pub fn sub_converter(&self) -> (r: Converter)
        ensures
            r.meta() == nested_meta(self.meta()),
            r.onnx_graph@ == graph_of("Paddle2ONNX_Subgraph"@),
    {
        Converter {
            onnx_graph: GraphProto::new("Paddle2ONNX_Subgraph"),
            state: self.state.duplicate(),
            target_opset: self.target_opset,
            optimization_level: self.optimization_level,
            strict: self.strict,
            warned_multinomial_degraded: false,
        }
    }

    /// Sets the opset that the graph is written for.
    pub fn set_target_opset(&mut self, opset: i64)
        ensures
            final(self).meta() == (Meta { target_opset: opset, ..old(self).meta() }),
            final(self).onnx_graph == old(self).onnx_graph,
    {
        self.target_opset = opset;
    }

    /// Sets how much the graph is optimized.
    pub fn set_optimization_level(&mut self, level: OptimizationLevel)
        ensures
            final(self).meta() == (Meta { optimization_level: level, ..old(self).meta() }),
            final(self).onnx_graph == old(self).onnx_graph,
    {
        self.optimization_level = level;
    }

    /// Sets whether lossy lowerings are refused.
    pub fn set_strict(&mut self, strict: bool)
        ensures
            final(self).meta() == (Meta { strict, ..old(self).meta() }),
            final(self).onnx_graph == old(self).onnx_graph,
    {
        self.strict = strict;
    }

    /// The graph.
    pub fn graph(&self) -> (r: &GraphProto)
        ensures
            *r == self.onnx_graph,
    {
        &self.onnx_graph
    }

    /// The opset that the graph is written for.
    pub fn target_opset(&self) -> (r: i64)
        ensures
            r == self.meta().target_opset,
    {
        self.target_opset
    }

    /// Fails where the target opset is below `min_opset`.
    pub fn require_opset(&self, min_opset: i64, op_name: &str) -> (r: Result<(), Error>)
        ensures
            outcome(r) == opset_checked(self.meta(), min_opset, op_name@),
    {
        if self.target_opset < min_opset {
            let text = crate::text::join4(
                op_name,
                " requires opset >= ",
                int_text(min_opset).as_str(),
                ", but target opset is ",
            );
            return Err(
                Error::owned(crate::text::join(text.as_str(), int_text(self.target_opset).as_str())),
            );
        }
        Ok(())
    }

    /// The name of a value.
    pub fn get_tensor_name(&self, id: i64) -> (r: Result<String, Error>)
        ensures
            name_result(r) == tensor_name(self.meta(), id),
    {
        if id == 0 {
            return Ok("".to_string());
        }
        match self.state.id_to_name.get(id) {
            Some(name) => {
                return Ok(name.clone());
            },
            None => {},
        }
        if id < 0 {
            return Err(Error::owned(tag("Undefined value id ", id)));
        }
        Ok(tag("tensor_", id))
    }

    /// The element type of a value, where its type is known.
    pub fn maybe_onnx_dtype_for_tensor_id(&self, id: i64) -> (r: Result<Option<i32>, Error>)
        ensures
            dtype_option_result(r) == dtype_if_known(self.meta(), id),
    {
        match self.state.tensor_types.get(id) {
            Some(name) => {
                let dtype: i32 = onnx_elem_type_from_paddle(name.as_str())?;
                Ok(Some(dtype))
            },
            None => Ok(None),
        }
    }

    /// The element type of a value.
    pub fn onnx_dtype_for_tensor_id(&self, id: i64) -> (r: Result<i32, Error>)
        ensures
            dtype_result(r) == dtype_for(self.meta(), id),
    {
        match self.maybe_onnx_dtype_for_tensor_id(id)? {
            Some(dtype) => Ok(dtype),
            None => Err(Error::owned(tag("missing dtype metadata for tensor ", id))),
        }
    }
}

} // verus!
