//! Source text for tables that a configuration lists: which method converts an operator, and under
//! which name an operator is carried over.

use crate::text::{names, push_text};
use vstd::prelude::*;

verus! {

/// How a method that converts an operator is called.
#[derive(Clone, Copy, PartialEq, Eq, Structural)]
pub enum DispatchKind {
    /// Nothing is called.
    Noop,
    /// With the operator.
    Simple,
    /// With the operator's type and the operator.
    Typed,
    /// With the operator and fixed arguments.
    Arg,
}

/// The method that converts an operator.
pub struct DispatchEntry {
    pub op: String,
    pub kind: DispatchKind,
    pub method: String,
    pub args: Option<Vec<String>>,
}

/// The operators that are carried over under one name.
pub struct OpTypeEntry {
    pub paddle: Vec<String>,
    pub onnx: String,
}

/// The first `k` texts, with another between any two.
pub open spec fn joined(list: Seq<Seq<char>>, between: Seq<char>, k: nat) -> Seq<char>
    decreases k,
{
    if k == 0 {
        Seq::empty()
    } else if k == 1 {
        list[0]
    } else {
        joined(list, between, (k - 1) as nat) + between + list[k - 1]
    }
}

/// The arguments of an entry, none where they are left out.
pub open spec fn entry_args(entry: DispatchEntry) -> Seq<Seq<char>> {
    match entry.args {
        Some(list) => names(list@),
        None => Seq::empty(),
    }
}

/// The line of the table for an entry.
pub open spec fn dispatch_line(entry: DispatchEntry) -> Seq<char> {
    match entry.kind {
        DispatchKind::Noop => "        (\""@ + entry.op@ + "\", pass2_noop as Pass2OpHandler),\n"@,
        DispatchKind::Simple => "        simple_dispatch!(\""@ + entry.op@ + "\" => "@
            + entry.method@ + "),\n"@,
        DispatchKind::Typed => "        typed_dispatch!(\""@ + entry.op@ + "\" => "@
            + entry.method@ + "),\n"@,
        DispatchKind::Arg => "        arg_dispatch!(\""@ + entry.op@ + "\" => "@ + entry.method@
            + "("@ + joined(entry_args(entry), ", "@, entry_args(entry).len()) + ")),\n"@,
    }
}

/// The lines of the table for the first `k` entries.
pub open spec fn dispatch_lines(entries: Seq<DispatchEntry>, k: nat) -> Seq<char>
    decreases k,
{
    if k == 0 {
        Seq::empty()
    } else {
        dispatch_lines(entries, (k - 1) as nat) + dispatch_line(entries[k - 1])
    }
}

/// The text of the function that builds the table of methods.
pub open spec fn dispatch_text(entries: Seq<DispatchEntry>) -> Seq<char> {
    "fn build_pass2_op_dispatch() -> HashMap<&'static str, Pass2OpHandler> {\n    HashMap::from([\n"@
        + dispatch_lines(entries, entries.len()) + "    ])\n}\n"@
}

/// Texts in quotes.
pub open spec fn quoted(list: Seq<Seq<char>>) -> Seq<Seq<char>> {
    Seq::new(list.len(), |i: int| "\""@ + list[i] + "\""@)
}

/// The line of the lookup for an entry.
pub open spec fn op_type_line(entry: OpTypeEntry) -> Seq<char> {
    let list = quoted(names(entry.paddle@));
    "        "@ + joined(list, " | "@, list.len()) + " => Some(\""@ + entry.onnx@ + "\"),\n"@
}

/// The lines of the lookup for the first `k` entries.
pub open spec fn op_type_lines(entries: Seq<OpTypeEntry>, k: nat) -> Seq<char>
    decreases k,
{
    if k == 0 {
        Seq::empty()
    } else {
        op_type_lines(entries, (k - 1) as nat) + op_type_line(entries[k - 1])
    }
}

/// The text of the function that looks up under which name an operator is carried over.
pub open spec fn op_type_text(entries: Seq<OpTypeEntry>) -> Seq<char> {
    "fn generated_op_type(paddle_op: &str) -> Option<&'static str> {\n    match paddle_op {\n"@
        + op_type_lines(entries, entries.len()) + "        _ => None,\n    }\n}\n"@
}

/// Appends texts, with another between any two and around each the same mark.
fn push_joined(out: &mut String, list: &Vec<String>, between: &str, mark: &str, Ghost(marked): Ghost<Seq<Seq<char>>>)
    requires
        marked == Seq::new(list@.len(), |i: int| mark@ + list@[i]@ + mark@),
    ensures
        final(out)@ == old(out)@ + joined(marked, between@, list@.len()),
{
    let ghost start = out@;
    let mut i: usize = 0;
    proof {
        assert(start + joined(marked, between@, 0) =~= start);
    }
    while i < list.len()
        invariant
            i <= list.len(),
            start == old(out)@,
            marked == Seq::new(list@.len(), |i: int| mark@ + list@[i]@ + mark@),
            out@ == start + joined(marked, between@, i as nat),
        decreases list.len() - i,
    {
        let ghost before = out@;
        if i > 0 {
            push_text(out, between);
        }
        push_text(out, mark);
        push_text(out, list[i].as_str());
        push_text(out, mark);
        proof {
            assert(marked[i as int] == mark@ + list@[i as int]@ + mark@);
            if i > 0 {
                assert(out@ =~= start + (joined(marked, between@, i as nat) + between@
                    + marked[i as int]));
            } else {
                assert(out@ =~= start + marked[0]);
            }
        }
        i = i + 1;
    }
}

fn push_args(out: &mut String, args: &Option<Vec<String>>)
    ensures
        final(out)@ == old(out)@ + (match args {
            Some(list) => joined(names(list@), ", "@, names(list@).len()),
            None => Seq::empty(),
        }),
{
    match args {
        Some(list) => {
            let ghost marked = Seq::new(list@.len(), |i: int| ""@ + list@[i]@ + ""@);
            proof {
                reveal_strlit("");
                assert(""@ =~= Seq::empty());
                assert forall|i: int| 0 <= i < list@.len() implies #[trigger] marked[i]
                    == names(list@)[i] by {
                    assert(marked[i] =~= list@[i]@);
                }
                assert(marked =~= names(list@));
            }
            push_joined(out, list, ", ", "", Ghost(marked));
        },
        None => {
            proof {
                assert(out@ + Seq::<char>::empty() =~= out@);
            }
        },
    }
}

fn push_dispatch_line(out: &mut String, entry: &DispatchEntry)
    ensures
        final(out)@ == old(out)@ + dispatch_line(*entry),
{
    let ghost start = out@;
    match entry.kind {
        DispatchKind::Noop => {
            push_text(out, "        (\"");
            push_text(out, entry.op.as_str());
            push_text(out, "\", pass2_noop as Pass2OpHandler),\n");
        },
        DispatchKind::Simple => {
            push_text(out, "        simple_dispatch!(\"");
            push_text(out, entry.op.as_str());
            push_text(out, "\" => ");
            push_text(out, entry.method.as_str());
            push_text(out, "),\n");
        },
        DispatchKind::Typed => {
            push_text(out, "        typed_dispatch!(\"");
            push_text(out, entry.op.as_str());
            push_text(out, "\" => ");
            push_text(out, entry.method.as_str());
            push_text(out, "),\n");
        },
        DispatchKind::Arg => {
            push_text(out, "        arg_dispatch!(\"");
            push_text(out, entry.op.as_str());
            push_text(out, "\" => ");
            push_text(out, entry.method.as_str());
            push_text(out, "(");
            push_args(out, &entry.args);
            proof {
                assert(joined(entry_args(*entry), ", "@, entry_args(*entry).len())
                    =~= match entry.args {
                    Some(list) => joined(names(list@), ", "@, names(list@).len()),
                    None => Seq::empty(),
                });
            }
            push_text(out, ")),\n");
        },
    }
    proof {
        assert(out@ =~= start + dispatch_line(*entry));
    }
}

/// Writes the function that builds the table of methods.
pub fn generate_pass2_dispatch(entries: &Vec<DispatchEntry>) -> (r: String)
    ensures
        r@ == dispatch_text(entries@),
{
    let mut out = String::new();
    push_text(
        &mut out,
        "fn build_pass2_op_dispatch() -> HashMap<&'static str, Pass2OpHandler> {\n    HashMap::from([\n",
    );
    let ghost head = "fn build_pass2_op_dispatch() -> HashMap<&'static str, Pass2OpHandler> {\n    HashMap::from([\n"@;
    let mut i: usize = 0;
    proof {
        assert(out@ =~= head + dispatch_lines(entries@, 0));
    }
    while i < entries.len()
        invariant
            i <= entries.len(),
            out@ == head + dispatch_lines(entries@, i as nat),
        decreases entries.len() - i,
    {
        push_dispatch_line(&mut out, &entries[i]);
        i = i + 1;
        proof {
            assert(out@ =~= head + dispatch_lines(entries@, i as nat));
        }
    }
    push_text(&mut out, "    ])\n}\n");
    out
}

fn push_op_type_line(out: &mut String, entry: &OpTypeEntry)
    ensures
        final(out)@ == old(out)@ + op_type_line(*entry),
{
    let ghost start = out@;
    let ghost list = quoted(names(entry.paddle@));
    push_text(out, "        ");
    proof {
        assert(list =~= Seq::new(entry.paddle@.len(), |i: int| "\""@ + entry.paddle@[i]@ + "\""@));
    }
    push_joined(out, &entry.paddle, " | ", "\"", Ghost(list));
    push_text(out, " => Some(\"");
    push_text(out, entry.onnx.as_str());
    push_text(out, "\"),\n");
    proof {
        assert(out@ =~= start + op_type_line(*entry));
    }
}

/// Writes the function that looks up under which name an operator is carried over.
pub fn generate_op_type_lookup(entries: &Vec<OpTypeEntry>) -> (r: String)
    ensures
        r@ == op_type_text(entries@),
{
    let mut out = String::new();
    push_text(
        &mut out,
        "fn generated_op_type(paddle_op: &str) -> Option<&'static str> {\n    match paddle_op {\n",
    );
    let ghost head = "fn generated_op_type(paddle_op: &str) -> Option<&'static str> {\n    match paddle_op {\n"@;
    let mut i: usize = 0;
    proof {
        assert(out@ =~= head + op_type_lines(entries@, 0));
    }
    while i < entries.len()
        invariant
            i <= entries.len(),
            out@ == head + op_type_lines(entries@, i as nat),
        decreases entries.len() - i,
    {
        push_op_type_line(&mut out, &entries[i]);
        i = i + 1;
        proof {
            assert(out@ =~= head + op_type_lines(entries@, i as nat));
        }
    }
    push_text(&mut out, "        _ => None,\n    }\n}\n");
    out
}

} // verus!
