//! What is written into a tensor can be read back.

use crate::bytes::{le_value, lemma_le_inverse, lemma_words_inverse, limit};
use crate::converter::emit::{int_bytes, int_vector, scalar_bytes, single_bytes};
use crate::converter::optimizer::batch_norm::singles;
use crate::converter::optimizer::constants::{static_ints, stored_words, typed_words};
use crate::dtype::{DOUBLE, FLOAT, INT64};
use crate::float::{above, below, finite, integral, to_i64};
use crate::onnx::{tensor_of, Tensor};
use vstd::prelude::*;

verus! {

proof fn lemma_ints(t: Tensor, values: Seq<i64>)
    requires
        t.data_type == INT64,
        t.raw_data == int_bytes(values),
        t.int64_data.len() == 0,
    ensures
        static_ints(t) == Some(values),
{
    let list = Seq::new(values.len(), |i: int| values[i] as u64);
    reveal_with_fuel(limit, 9);
    lemma_words_inverse(list, 8);
    assert(typed_words(t) =~= Seq::empty());
    assert(stored_words(t) == Some(list));
    assert forall|i: int| 0 <= i < values.len() implies #[trigger] list[i] as i64 == values[i] by {
        let v = values[i];
        assert((v as u64) as i64 == v) by (bit_vector);
    }
    assert(static_ints(t)->0 =~= values);
}

/// The integers of a constant with one axis that a lowering adds are read back as they were given.
pub proof fn law_vector_read_back(name: Seq<char>, values: Seq<i64>)
    ensures
        static_ints(int_vector(name, values)) == Some(values),
{
    lemma_ints(int_vector(name, values), values);
}

/// The integers of any constant that a lowering adds are read back as they were given, whatever
/// its sizes.
pub proof fn law_integers_read_back(name: Seq<char>, dims: Seq<i64>, values: Seq<i64>)
    ensures
        static_ints(Tensor { raw_data: int_bytes(values), ..tensor_of(name, dims, INT64) }) == Some(
            values,
        ),
{
    lemma_ints(Tensor { raw_data: int_bytes(values), ..tensor_of(name, dims, INT64) }, values);
}

/// The `FLOAT` elements of a constant that a lowering adds are read back bit by bit.
pub proof fn law_singles_read_back(name: Seq<char>, dims: Seq<i64>, values: Seq<u32>)
    ensures
        singles(Tensor { raw_data: single_bytes(values), ..tensor_of(name, dims, FLOAT) }) == Some(
            values,
        ),
{
    let t = Tensor { raw_data: single_bytes(values), ..tensor_of(name, dims, FLOAT) };
    let list = Seq::new(values.len(), |i: int| values[i] as u64);
    reveal_with_fuel(limit, 5);
    lemma_words_inverse(list, 4);
    assert(typed_words(t) =~= Seq::empty());
    assert(stored_words(t) == Some(list));
    assert(singles(t)->0 =~= values);
}

/// A value that is stored as an `INT64` element is read back as the integer it is: what cannot be,
/// is refused.
pub proof fn law_integer_element(v: u64)
    ensures
        scalar_bytes(v, INT64) is Ok <==> finite(v) && integral(v) && !below(
            v,
            -0x8000_0000_0000_0000,
        ) && !above(v, 0x8000_0000_0000_0000),
        scalar_bytes(v, INT64) matches Ok(raw) ==> le_value(raw) == to_i64(v) as u64,
{
    reveal_with_fuel(limit, 9);
    lemma_le_inverse(to_i64(v) as u64 as int, 8);
}

/// A value that is stored as a `DOUBLE` element is never refused, and keeps every bit.
pub proof fn law_double_element(v: u64)
    ensures
        scalar_bytes(v, DOUBLE) is Ok,
        le_value(scalar_bytes(v, DOUBLE)->Ok_0) == v,
{
    reveal_with_fuel(limit, 9);
    lemma_le_inverse(v as int, 8);
}

} // verus!
