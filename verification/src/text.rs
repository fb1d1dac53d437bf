//! Names and messages: decimal rendering, concatenation and comparison of strings.

use vstd::prelude::*;
use vstd::string::*;

verus! {

/// The views of a list of strings.
pub open spec fn names(list: Seq<String>) -> Seq<Seq<char>> {
    list.map_values(|s: String| s@)
}

/// The decimal digit `d`, for `d < 10`.
pub open spec fn digit(d: nat) -> Seq<char> {
    if d == 0 {
        "0"@
    } else if d == 1 {
        "1"@
    } else if d == 2 {
        "2"@
    } else if d == 3 {
        "3"@
    } else if d == 4 {
        "4"@
    } else if d == 5 {
        "5"@
    } else if d == 6 {
        "6"@
    } else if d == 7 {
        "7"@
    } else if d == 8 {
        "8"@
    } else {
        "9"@
    }
}

/// `n` written in base ten, without leading zeros.
pub open spec fn dec_nat(n: nat) -> Seq<char>
    decreases n,
{
    if n < 10 {
        digit(n)
    } else {
        dec_nat(n / 10) + digit(n % 10)
    }
}

/// `i` written in base ten, with a leading minus sign when it is negative.
pub open spec fn dec(i: int) -> Seq<char> {
    if i < 0 {
        "-"@ + dec_nat((-i) as nat)
    } else {
        dec_nat(i as nat)
    }
}

/// `items` written in base ten, separated by a comma and a space.
pub open spec fn dec_items(items: Seq<i64>) -> Seq<char>
    decreases items.len(),
{
    if items.len() == 0 {
        Seq::empty()
    } else if items.len() == 1 {
        dec(items[0] as int)
    } else {
        dec_items(items.drop_last()) + ", "@ + dec(items.last() as int)
    }
}

/// `items` in square brackets.
pub open spec fn dec_list(items: Seq<i64>) -> Seq<char> {
    "["@ + dec_items(items) + "]"@
}

/// Whether two strings hold the same characters. Wraps `==` of `str`, which compares contents.
#[verifier::external_body]
pub(crate) fn same(a: &str, b: &str) -> (r: bool)
    ensures
        r == (a@ == b@),
{
    a == b
}

fn digit_str(d: u128) -> (r: &'static str)
    requires
        d < 10,
    ensures
        r@ == digit(d as nat),
{
    if d == 0 {
        "0"
    } else if d == 1 {
        "1"
    } else if d == 2 {
        "2"
    } else if d == 3 {
        "3"
    } else if d == 4 {
        "4"
    } else if d == 5 {
        "5"
    } else if d == 6 {
        "6"
    } else if d == 7 {
        "7"
    } else if d == 8 {
        "8"
    } else {
        "9"
    }
}

/// Appends `n` in base ten to `text`.
pub fn push_nat(text: &mut String, n: u128)
    ensures
        final(text)@ == old(text)@ + dec_nat(n as nat),
    decreases n,
{
    if n >= 10 {
        push_nat(text, n / 10);
    }
    text.append(digit_str(n % 10));
    proof {
        assert((old(text)@ + dec_nat((n / 10) as nat)) + digit((n % 10) as nat) =~= old(text)@ + (
        dec_nat((n / 10) as nat) + digit((n % 10) as nat)));
    }
}

/// Appends `i` in base ten to `text`.
pub fn push_int(text: &mut String, i: i64)
    ensures
        final(text)@ == old(text)@ + dec(i as int),
{
    if i < 0 {
        text.append("-");
        let magnitude: u64 = if i == i64::MIN {
            0x8000_0000_0000_0000u64
        } else {
            (-i) as u64
        };
        push_nat(text, magnitude as u128);
        proof {
            assert(magnitude as int == -(i as int));
            assert((old(text)@ + "-"@) + dec_nat(magnitude as nat) =~= old(text)@ + ("-"@ + dec_nat(
                magnitude as nat,
            )));
        }
    } else {
        push_nat(text, i as u128);
    }
}

/// `i` in base ten.
pub fn int_text(i: i64) -> (r: String)
    ensures
        r@ == dec(i as int),
{
    let mut text = String::new();
    push_int(&mut text, i);
    proof {
        assert(Seq::<char>::empty() + dec(i as int) =~= dec(i as int));
    }
    text
}

/// `n` in base ten.
pub fn size_text(n: usize) -> (r: String)
    ensures
        r@ == dec(n as int),
{
    let mut text = String::new();
    push_nat(&mut text, n as u128);
    proof {
        assert(Seq::<char>::empty() + dec_nat(n as nat) =~= dec_nat(n as nat));
    }
    text
}

/// `items` in base ten, in square brackets.
pub fn list_text(items: &Vec<i64>) -> (r: String)
    ensures
        r@ == dec_list(items@),
{
    let mut text = "[".to_string();
    let mut i: usize = 0;
    while i < items.len()
        invariant
            i <= items.len(),
            text@ == "["@ + dec_items(items@.take(i as int)),
        decreases items.len() - i,
    {
        proof {
            assert(items@.take(i + 1).drop_last() =~= items@.take(i as int));
            assert(items@.take(i + 1).last() == items@[i as int]);
        }
        if i == 0 {
            proof {
                assert("["@ + dec_items(items@.take(0)) =~= "["@);
            }
            push_int(&mut text, items[i]);
        } else {
            text.append(", ");
            push_int(&mut text, items[i]);
            proof {
                assert((("["@ + dec_items(items@.take(i as int))) + ", "@) + dec(
                    items@[i as int] as int,
                ) =~= "["@ + (dec_items(items@.take(i as int)) + ", "@ + dec(
                    items@[i as int] as int,
                )));
            }
        }
        i = i + 1;
    }
    text.append("]");
    proof {
        assert(items@.take(items@.len() as int) =~= items@);
        assert(("["@ + dec_items(items@)) + "]"@ =~= "["@ + dec_items(items@) + "]"@);
    }
    text
}

/// `prefix` followed by `id`.
pub open spec fn tagged(prefix: Seq<char>, id: i64) -> Seq<char> {
    prefix + dec(id as int)
}

/// `prefix` followed by `id`, an underscore and `part`.
pub open spec fn tagged2(prefix: Seq<char>, id: i64, part: i64) -> Seq<char> {
    prefix + dec(id as int) + "_"@ + dec(part as int)
}

/// `prefix` followed by `id`.
pub fn tag(prefix: &str, id: i64) -> (r: String)
    ensures
        r@ == tagged(prefix@, id),
{
    let mut text = prefix.to_string();
    push_int(&mut text, id);
    text
}

/// `prefix` followed by `id`, an underscore and `part`.
pub fn tag2(prefix: &str, id: i64, part: i64) -> (r: String)
    ensures
        r@ == tagged2(prefix@, id, part),
{
    let mut text = tag(prefix, id);
    text.append("_");
    push_int(&mut text, part);
    text
}

/// Appends a text.
pub fn push_text(text: &mut String, more: &str)
    ensures
        final(text)@ == old(text)@ + more@,
{
    text.append(more);
}

/// Two texts, one after the other.
pub fn join(a: &str, b: &str) -> (r: String)
    ensures
        r@ == a@ + b@,
{
    let mut text = a.to_string();
    text.append(b);
    text
}

/// Three texts, one after the other.
pub fn join3(a: &str, b: &str, c: &str) -> (r: String)
    ensures
        r@ == a@ + b@ + c@,
{
    let mut text = join(a, b);
    text.append(c);
    text
}

/// Four texts, one after the other.
pub fn join4(a: &str, b: &str, c: &str, d: &str) -> (r: String)
    ensures
        r@ == a@ + b@ + c@ + d@,
{
    let mut text = join3(a, b, c);
    text.append(d);
    text
}

/// Five texts, one after the other.
pub fn join5(a: &str, b: &str, c: &str, d: &str, e: &str) -> (r: String)
    ensures
        r@ == a@ + b@ + c@ + d@ + e@,
{
    let mut text = join4(a, b, c, d);
    text.append(e);
    text
}

/// Six texts, one after the other.
pub fn join6(a: &str, b: &str, c: &str, d: &str, e: &str, f: &str) -> (r: String)
    ensures
        r@ == a@ + b@ + c@ + d@ + e@ + f@,
{
    let mut text = join5(a, b, c, d, e);
    text.append(f);
    text
}

/// A list of one number.
pub fn ints1(a: i64) -> (r: Vec<i64>)
    ensures
        r@ == seq![a],
{
    let r: Vec<i64> = vec![a];
    proof {
        assert(r@ =~= seq![a]);
    }
    r
}

/// A list of two numbers.
pub fn ints2(a: i64, b: i64) -> (r: Vec<i64>)
    ensures
        r@ == seq![a, b],
{
    let r: Vec<i64> = vec![a, b];
    proof {
        assert(r@ =~= seq![a, b]);
    }
    r
}

/// A list of four numbers.
pub fn ints4(a: i64, b: i64, c: i64, d: i64) -> (r: Vec<i64>)
    ensures
        r@ == seq![a, b, c, d],
{
    let r: Vec<i64> = vec![a, b, c, d];
    proof {
        assert(r@ =~= seq![a, b, c, d]);
    }
    r
}

/// A list without numbers.
pub fn ints0() -> (r: Vec<i64>)
    ensures
        r@ == Seq::<i64>::empty(),
{
    Vec::new()
}

/// A list of one `binary32` value, given by its bits.
pub fn singles1(a: u32) -> (r: Vec<u32>)
    ensures
        r@ == seq![a],
{
    let r: Vec<u32> = vec![a];
    proof {
        assert(r@ =~= seq![a]);
    }
    r
}

/// A list of one `binary64` value, given by its bits.
pub fn doubles1(a: u64) -> (r: Vec<u64>)
    ensures
        r@ == seq![a],
{
    let r: Vec<u64> = vec![a];
    proof {
        assert(r@ =~= seq![a]);
    }
    r
}

/// A list of one string.
pub fn list1(a: String) -> (r: Vec<String>)
    ensures
        names(r@) == seq![a@],
{
    let r = vec![a];
    proof {
        assert(names(r@) =~= seq![a@]);
    }
    r
}

/// A list of two strings.
pub fn list2(a: String, b: String) -> (r: Vec<String>)
    ensures
        names(r@) == seq![a@, b@],
{
    let r = vec![a, b];
    proof {
        assert(names(r@) =~= seq![a@, b@]);
    }
    r
}

/// A list of three strings.
pub fn list3(a: String, b: String, c: String) -> (r: Vec<String>)
    ensures
        names(r@) == seq![a@, b@, c@],
{
    let r = vec![a, b, c];
    proof {
        assert(names(r@) =~= seq![a@, b@, c@]);
    }
    r
}

/// A list of four strings.
pub fn list4(a: String, b: String, c: String, d: String) -> (r: Vec<String>)
    ensures
        names(r@) == seq![a@, b@, c@, d@],
{
    let r = vec![a, b, c, d];
    proof {
        assert(names(r@) =~= seq![a@, b@, c@, d@]);
    }
    r
}

/// A list of five strings.
pub fn list5(a: String, b: String, c: String, d: String, e: String) -> (r: Vec<String>)
    ensures
        names(r@) == seq![a@, b@, c@, d@, e@],
{
    let r = vec![a, b, c, d, e];
    proof {
        assert(names(r@) =~= seq![a@, b@, c@, d@, e@]);
    }
    r
}

/// Appends a string to a list of strings.
pub fn push_name(list: &mut Vec<String>, name: String)
    ensures
        names(final(list)@) == names(old(list)@).push(name@),
{
    list.push(name);
    proof {
        assert(names(list@) =~= names(old(list)@).push(name@));
    }
}

/// Whether `name` occurs in `list`.
pub fn has_name(list: &Vec<String>, name: &str) -> (r: bool)
    ensures
        r == names(list@).contains(name@),
{
    let mut i: usize = 0;
    while i < list.len()
        invariant
            i <= list.len(),
            forall|k: int| 0 <= k < i ==> list@[k]@ != name@,
        decreases list.len() - i,
    {
        if same(list[i].as_str(), name) {
            proof {
                assert(names(list@)[i as int] == name@);
            }
            return true;
        }
        i = i + 1;
    }
    false
}

/// The digit that a character stands for.
pub open spec fn digit_value(c: char) -> int {
    c as int - '0' as int
}

/// The number that decimal digits stand for.
pub open spec fn digits_value(text: Seq<char>) -> int
    decreases text.len(),
{
    if text.len() == 0 {
        0
    } else {
        10 * digits_value(text.drop_last()) + digit_value(text.last())
    }
}

proof fn lemma_digit(d: nat)
    requires
        d < 10,
    ensures
        digit(d).len() == 1,
        '0' <= digit(d)[0] <= '9',
        digit_value(digit(d)[0]) == d,
{
    reveal_strlit("0");
    reveal_strlit("1");
    reveal_strlit("2");
    reveal_strlit("3");
    reveal_strlit("4");
    reveal_strlit("5");
    reveal_strlit("6");
    reveal_strlit("7");
    reveal_strlit("8");
    reveal_strlit("9");
}

/// Reading a decimal numeral gives the number that was written, and a numeral holds only digits.
pub proof fn lemma_dec_nat_value(n: nat)
    ensures
        digits_value(dec_nat(n)) == n,
        dec_nat(n).len() > 0,
        forall|i: int| 0 <= i < dec_nat(n).len() ==> '0' <= #[trigger] dec_nat(n)[i] <= '9',
    decreases n,
{
    lemma_digit(n % 10);
    if n < 10 {
        assert(n % 10 == n);
        assert(dec_nat(n) == digit(n));
        assert(dec_nat(n).drop_last() =~= Seq::empty());
        assert(digits_value(Seq::empty()) == 0);
    } else {
        lemma_dec_nat_value(n / 10);
        assert(dec_nat(n).drop_last() =~= dec_nat(n / 10));
        assert(dec_nat(n).last() == digit(n % 10)[0]);
    }
}

/// Different integers have different numerals.
pub proof fn lemma_dec_injective(a: int, b: int)
    requires
        dec(a) == dec(b),
    ensures
        a == b,
{
    reveal_strlit("-");
    if a >= 0 {
        lemma_dec_nat_value(a as nat);
        assert('0' <= dec_nat(a as nat)[0]);
    }
    if b >= 0 {
        lemma_dec_nat_value(b as nat);
        assert('0' <= dec_nat(b as nat)[0]);
    }
    if a < 0 {
        lemma_dec_nat_value((-a) as nat);
        assert(dec(a)[0] == '-');
        assert(dec(a).skip(1) =~= dec_nat((-a) as nat));
    }
    if b < 0 {
        lemma_dec_nat_value((-b) as nat);
        assert(dec(b)[0] == '-');
        assert(dec(b).skip(1) =~= dec_nat((-b) as nat));
    }
}

/// A name made of a text and a number tells the number.
pub proof fn lemma_tag_injective(prefix: Seq<char>, a: int, b: int)
    requires
        prefix + dec(a) == prefix + dec(b),
    ensures
        a == b,
{
    assert((prefix + dec(a)).skip(prefix.len() as int) =~= dec(a));
    assert((prefix + dec(b)).skip(prefix.len() as int) =~= dec(b));
    lemma_dec_injective(a, b);
}

} // verus!
