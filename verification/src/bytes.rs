//! Little-endian encoding of words.

use vstd::arithmetic::div_mod::*;
use vstd::arithmetic::mul::*;
use vstd::arithmetic::power::*;
use vstd::prelude::*;

verus! {

/// The `k` low-order bytes of `n`, the lowest first.
pub open spec fn le_bytes(n: int, k: nat) -> Seq<u8>
    decreases k,
{
    if k == 0 {
        Seq::empty()
    } else {
        seq![(n % 256) as u8] + le_bytes(n / 256, (k - 1) as nat)
    }
}

/// The number that `bytes` encode, the lowest byte first.
pub open spec fn le_value(bytes: Seq<u8>) -> int
    decreases bytes.len(),
{
    if bytes.len() == 0 {
        0
    } else {
        bytes[0] as int + 256 * le_value(bytes.drop_first())
    }
}

/// The words of `k` bytes each, one after the other.
pub open spec fn word_bytes(words: Seq<u64>, k: nat) -> Seq<u8>
    decreases words.len(),
{
    if words.len() == 0 {
        Seq::empty()
    } else {
        word_bytes(words.drop_last(), k) + le_bytes(words.last() as int, k)
    }
}

/// The words of `k` bytes each that `bytes` hold; a rest shorter than a word is left out.
pub open spec fn words(bytes: Seq<u8>, k: int) -> Seq<u64> {
    Seq::new(
        (bytes.len() as int / k) as nat,
        |i: int| le_value(bytes.subrange(i * k, i * k + k)) as u64,
    )
}

/// `256^k`.
pub open spec fn limit(k: nat) -> int
    decreases k,
{
    if k == 0 {
        1
    } else {
        256 * limit((k - 1) as nat)
    }
}

proof fn lemma_le_value_bound(bytes: Seq<u8>)
    ensures
        0 <= le_value(bytes) < limit(bytes.len()),
    decreases bytes.len(),
{
    if bytes.len() > 0 {
        lemma_le_value_bound(bytes.drop_first());
    }
}

/// Decoding what was encoded gives the number back.
pub proof fn lemma_le_inverse(n: int, k: nat)
    requires
        0 <= n < limit(k),
    ensures
        le_bytes(n, k).len() == k,
        le_value(le_bytes(n, k)) == n,
    decreases k,
{
    if k > 0 {
        assert(0 <= n / 256 < limit((k - 1) as nat));
        lemma_le_inverse(n / 256, (k - 1) as nat);
        assert(le_bytes(n, k).drop_first() =~= le_bytes(n / 256, (k - 1) as nat));
    }
}

proof fn lemma_word_bytes_len(list: Seq<u64>, k: nat)
    ensures
        word_bytes(list, k).len() == list.len() * k,
    decreases list.len(),
{
    if list.len() > 0 {
        lemma_word_bytes_len(list.drop_last(), k);
        lemma_le_len(list.last() as int, k);
        assert(list.len() * k == (list.len() - 1) * k + k) by (nonlinear_arith);
    } else {
        assert(0 * k == 0);
    }
}

proof fn lemma_le_len(n: int, k: nat)
    ensures
        le_bytes(n, k).len() == k,
    decreases k,
{
    if k > 0 {
        lemma_le_len(n / 256, (k - 1) as nat);
    }
}

proof fn lemma_word_at(list: Seq<u64>, k: nat, i: int)
    requires
        k > 0,
        0 <= i < list.len(),
    ensures
        i * k + k <= word_bytes(list, k).len(),
        word_bytes(list, k).subrange(i * k, i * k + k) == le_bytes(list[i] as int, k),
    decreases list.len(),
{
    lemma_word_bytes_len(list, k);
    lemma_word_bytes_len(list.drop_last(), k);
    lemma_le_len(list.last() as int, k);
    assert(i * k + k == (i + 1) * k) by (nonlinear_arith);
    assert((i + 1) * k <= list.len() * k) by (nonlinear_arith)
        requires
            i + 1 <= list.len(),
            k >= 0,
    ;
    if i == list.len() - 1 {
        assert(word_bytes(list, k).subrange(i * k, i * k + k) =~= le_bytes(list.last() as int, k));
    } else {
        lemma_word_at(list.drop_last(), k, i);
        assert(word_bytes(list, k).subrange(i * k, i * k + k) =~= word_bytes(
            list.drop_last(),
            k,
        ).subrange(i * k, i * k + k));
    }
}

/// Reading the words of an encoding gives back the words that were encoded.
pub proof fn lemma_words_inverse(list: Seq<u64>, k: nat)
    requires
        k > 0,
        forall|i: int| 0 <= i < list.len() ==> (#[trigger] list[i]) < limit(k),
    ensures
        word_bytes(list, k).len() % k == 0,
        words(word_bytes(list, k), k as int) == list,
{
    lemma_word_bytes_len(list, k);
    lemma_mod_multiples_basic(list.len() as int, k as int);
    lemma_div_multiples_vanish(list.len() as int, k as int);
    assert(list.len() * k == k * list.len()) by (nonlinear_arith);
    assert forall|i: int| 0 <= i < list.len() implies #[trigger] words(
        word_bytes(list, k),
        k as int,
    )[i] == list[i] by {
        lemma_word_at(list, k, i);
        assert(list[i] < limit(k));
        lemma_le_inverse(list[i] as int, k);
    }
    assert(words(word_bytes(list, k), k as int) =~= list);
}

proof fn lemma_le_bytes_of(bytes: Seq<u8>)
    ensures
        le_bytes(le_value(bytes), bytes.len()) == bytes,
    decreases bytes.len(),
{
    if bytes.len() > 0 {
        let rest = bytes.drop_first();
        lemma_le_bytes_of(rest);
        let n = le_value(bytes);
        assert(n % 256 == bytes[0] as int && n / 256 == le_value(rest));
        assert(le_bytes(n, bytes.len()) =~= bytes);
    } else {
        assert(le_bytes(le_value(bytes), bytes.len()) =~= bytes);
    }
}

/// Encoding the words that were read gives back the bytes, where they are whole words.
pub proof fn lemma_bytes_inverse(bytes: Seq<u8>, k: nat)
    requires
        0 < k <= 8,
        bytes.len() % k == 0,
    ensures
        word_bytes(words(bytes, k as int), k) == bytes,
    decreases bytes.len(),
{
    let list = words(bytes, k as int);
    let count = bytes.len() as int / k as int;
    lemma_fundamental_div_mod(bytes.len() as int, k as int);
    assert(bytes.len() == k * count);
    if count > 0 {
        assert(k * count == k * (count - 1) + k) by (nonlinear_arith);
        assert(k * (count - 1) >= 0) by (nonlinear_arith)
            requires
                count >= 1,
        ;
        let front = bytes.take(bytes.len() - k);
        let back = bytes.skip(bytes.len() - k);
        lemma_mod_multiples_basic(count - 1, k as int);
        lemma_div_multiples_vanish(count - 1, k as int);
        assert((count - 1) * k == k * (count - 1)) by (nonlinear_arith);
        lemma_bytes_inverse(front, k);
        assert forall|i: int| 0 <= i < count - 1 implies #[trigger] list[i] == words(
            front,
            k as int,
        )[i] by {
            assert(0 <= i * k && i * k + k <= (count - 1) * k) by (nonlinear_arith)
                requires
                    0 <= i < count - 1,
            ;
            assert(bytes.subrange(i * k, i * k + k) =~= front.subrange(i * k, i * k + k));
        }
        assert(list.drop_last() =~= words(front, k as int));
        assert(bytes.subrange((count - 1) * k, (count - 1) * k + k) =~= back);
        lemma_le_value_bound(back);
        lemma_limit(k);
        lemma_le_bytes_of(back);
        assert(list.last() as int == le_value(back));
        assert(front + back =~= bytes);
    } else {
        assert(count == 0) by (nonlinear_arith)
            requires
                bytes.len() == k * count,
                count <= 0,
                k > 0,
        ;
        assert(k * 0 == 0);
        assert(word_bytes(list, k) =~= bytes);
    }
}

proof fn lemma_limit(k: nat)
    requires
        k <= 8,
    ensures
        limit(k) <= 0x1_0000_0000_0000_0000,
{
    reveal_with_fuel(limit, 9);
}

/// Appends the `k` low-order bytes of `n`.
pub fn push_le(bytes: &mut Vec<u8>, n: u64, k: usize)
    ensures
        final(bytes)@ == old(bytes)@ + le_bytes(n as int, k as nat),
    decreases k,
{
    if k > 0 {
        bytes.push((n % 256) as u8);
        push_le(bytes, n / 256, k - 1);
    }
    proof {
        if k > 0 {
            assert(old(bytes)@.push((n % 256) as u8) + le_bytes(n as int / 256, (k - 1) as nat)
                =~= old(bytes)@ + le_bytes(n as int, k as nat));
        } else {
            assert(old(bytes)@ + le_bytes(n as int, 0) =~= old(bytes)@);
        }
    }
}

/// The `k` low-order bytes of `n`.
pub fn to_le(n: u64, k: usize) -> (r: Vec<u8>)
    ensures
        r@ == le_bytes(n as int, k as nat),
{
    let mut bytes: Vec<u8> = Vec::new();
    push_le(&mut bytes, n, k);
    proof {
        assert(Seq::<u8>::empty() + le_bytes(n as int, k as nat) =~= le_bytes(n as int, k as nat));
    }
    bytes
}

/// The words of `k` bytes each, one after the other.
pub fn encode_words(list: &Vec<u64>, k: usize) -> (r: Vec<u8>)
    ensures
        r@ == word_bytes(list@, k as nat),
{
    let mut bytes: Vec<u8> = Vec::new();
    let mut i: usize = 0;
    while i < list.len()
        invariant
            i <= list.len(),
            bytes@ == word_bytes(list@.take(i as int), k as nat),
        decreases list.len() - i,
    {
        proof {
            assert(list@.take(i + 1).drop_last() =~= list@.take(i as int));
        }
        push_le(&mut bytes, list[i], k);
        i = i + 1;
    }
    proof {
        assert(list@.take(list@.len() as int) =~= list@);
    }
    bytes
}

/// The number that the `k` bytes at `at` encode.
fn read_le(bytes: &Vec<u8>, at: usize, k: usize) -> (r: u64)
    requires
        k <= 8,
        at + k <= bytes.len(),
    ensures
        r == le_value(bytes@.subrange(at as int, at + k)),
        r < limit(k as nat),
    decreases k,
{
    if k == 0 {
        return 0;
    }
    proof {
        reveal_with_fuel(limit, 9);
        assert(bytes@.subrange(at as int, at + k).drop_first() =~= bytes@.subrange(
            at + 1,
            at + k,
        ));
        lemma_le_value_bound(bytes@.subrange(at as int, at + k));
    }
    let rest = read_le(bytes, at + 1, k - 1);
    bytes[at] as u64 + 256 * rest
}

/// The words of `k` bytes each that `bytes` hold.
pub fn read_words(bytes: &Vec<u8>, k: usize) -> (r: Vec<u64>)
    requires
        0 < k <= 8,
    ensures
        r@ == words(bytes@, k as int),
        forall|i: int| 0 <= i < r@.len() ==> (#[trigger] r@[i]) < limit(k as nat),
{
    let count = bytes.len() / k;
    let mut list: Vec<u64> = Vec::new();
    let mut i: usize = 0;
    while i < count
        invariant
            i <= count,
            count == bytes.len() / k,
            0 < k <= 8,
            list@ =~= words(bytes@, k as int).take(i as int),
            forall|j: int| 0 <= j < list@.len() ==> (#[trigger] list@[j]) < limit(k as nat),
        decreases count - i,
    {
        proof {
            lemma_fundamental_div_mod(bytes@.len() as int, k as int);
            assert(i * k + k == (i + 1) * k) by (nonlinear_arith);
            assert((i + 1) * k <= count * k) by (nonlinear_arith)
                requires
                    i + 1 <= count,
                    k >= 0,
            ;
            assert(count * k == k * count) by (nonlinear_arith);
            assert(i * k >= 0) by (nonlinear_arith)
                requires
                    i >= 0,
                    k >= 0,
            ;
        }
        list.push(read_le(bytes, i * k, k));
        i = i + 1;
    }
    proof {
        assert(words(bytes@, k as int).take(count as int) =~= words(bytes@, k as int));
    }
    list
}

} // verus!
