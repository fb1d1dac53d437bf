//! Plans: what a folding pass decides node by node, and how the decisions are carried out.

use crate::converter::optimizer::constants::{
    placed, set_const_value, with_const, Const, ConstValue,
};
use crate::onnx::{views, Graph, GraphProto, Tensor, TensorProto};
use crate::scope::{
    rename_uses, replace_inputs_recursive, retain_graph_nodes, retained, rewrite_is_safe,
    rewrite_safe,
};
use crate::nested::lemma_with_subgraphs;
use vstd::hash_map::StringHashMap;
use vstd::hash_set::StringHashSet;
use vstd::prelude::*;

verus! {

/// What a pass decides of a node with a single output.
pub enum Decision {
    /// Leave the node alone.
    Keep,
    /// Put a folded constant in its place, and read the name instead of the node's output.
    Fold(ConstValue, String),
    /// Add a constant under the node's output name, and drop the node.
    Clone(TensorProto),
    /// Read the name instead of the node's output.
    Rewire(String),
}

/// The content of a [`Decision`].
pub enum Verdict {
    Keep,
    Fold(Const, Seq<char>),
    Clone(Tensor),
    Rewire(Seq<char>),
}

impl View for Decision {
    type V = Verdict;

    open spec fn view(&self) -> Verdict {
        match self {
            Decision::Keep => Verdict::Keep,
            Decision::Fold(value, name) => Verdict::Fold(value@, name@),
            Decision::Clone(tensor) => Verdict::Clone(tensor@),
            Decision::Rewire(name) => Verdict::Rewire(name@),
        }
    }
}

/// A name to be read instead of the output of the node at a position.
pub struct Rewrite {
    pub index: usize,
    pub from: String,
    pub to: String,
}

/// The content of a [`Rewrite`].
#[verifier::ext_equal]
pub struct Renaming {
    pub index: int,
    pub from: Seq<char>,
    pub to: Seq<char>,
}

impl View for Rewrite {
    type V = Renaming;

    open spec fn view(&self) -> Renaming {
        Renaming { index: self.index as int, from: self.from@, to: self.to@ }
    }
}

/// The decisions of a pass, gathered.
pub struct Plan {
    pub updates: Vec<ConstValue>,
    pub clones: Vec<TensorProto>,
    pub rewrites: Vec<Rewrite>,
    pub dropped: Vec<bool>,
}

/// The content of a [`Plan`].
#[verifier::ext_equal]
pub struct Changes {
    pub updates: Seq<Const>,
    pub clones: Seq<Tensor>,
    pub rewrites: Seq<Renaming>,
    pub dropped: Seq<bool>,
}

impl View for Plan {
    type V = Changes;

    open spec fn view(&self) -> Changes {
        Changes {
            updates: views(self.updates@),
            clones: views(self.clones@),
            rewrites: views(self.rewrites@),
            dropped: self.dropped@,
        }
    }
}

/// The plan that changes nothing in a graph of `count` nodes.
pub open spec fn no_changes(count: nat) -> Changes {
    Changes {
        updates: Seq::empty(),
        clones: Seq::empty(),
        rewrites: Seq::empty(),
        dropped: Seq::new(count, |i: int| false),
    }
}

impl Changes {
    /// The plan with one more decision, on node `i` with output `from`.
    pub open spec fn with(self, i: int, from: Seq<char>, v: Verdict) -> Changes {
        match v {
            Verdict::Keep => self,
            Verdict::Fold(c, to) => Changes {
                updates: self.updates.push(c),
                rewrites: self.rewrites.push(Renaming { index: i, from, to }),
                ..self
            },
            Verdict::Clone(t) => Changes {
                clones: self.clones.push(t),
                dropped: self.dropped.update(i, true),
                ..self
            },
            Verdict::Rewire(to) => Changes {
                rewrites: self.rewrites.push(Renaming { index: i, from, to }),
                ..self
            },
        }
    }

    /// Whether the plan speaks only of places that a graph has, and of each node at most once.
    pub open spec fn fits(self, g: Graph) -> bool {
        &&& self.dropped.len() == g.node.len()
        &&& forall|i: int| 0 <= i < self.updates.len() ==> placed(g, #[trigger] self.updates[i].location)
        &&& forall|i: int|
            0 <= i < self.rewrites.len() ==> 0 <= (#[trigger] self.rewrites[i]).index < g.node.len()
        &&& self.rewrites.len() + self.clones.len() <= g.node.len()
    }
}

/// The plan of the decisions `d` on the first `k` nodes.
pub open spec fn plan_of(g: Graph, d: spec_fn(int) -> Verdict, k: nat) -> Changes
    decreases k,
{
    if k == 0 {
        no_changes(g.node.len())
    } else {
        plan_of(g, d, (k - 1) as nat).with(k - 1, g.node[k - 1].output[0], d(k - 1))
    }
}

/// What the last rewrite of `name` reads instead of it.
pub open spec fn rewritten_to(list: Seq<Renaming>, name: Seq<char>) -> Option<Seq<char>>
    decreases list.len(),
{
    if list.len() == 0 {
        None
    } else if list.last().from == name {
        Some(list.last().to)
    } else {
        rewritten_to(list.drop_last(), name)
    }
}

/// The name at the end of the chain of rewrites that starts at `name`, where the chain ends within
/// `steps` names.
pub open spec fn chain_end(list: Seq<Renaming>, name: Seq<char>, steps: nat) -> Option<Seq<char>>
    decreases steps,
{
    if steps == 0 {
        None
    } else {
        match rewritten_to(list, name) {
            Some(next) => chain_end(list, next, (steps - 1) as nat),
            None => Some(name),
        }
    }
}

/// The name at the end of the chain of rewrites that starts at `name`. A chain with more names
/// than there are rewrites, and one more, comes back to itself: it leads nowhere, and `name`
/// stays.
pub open spec fn resolved(list: Seq<Renaming>, name: Seq<char>) -> Seq<char> {
    match chain_end(list, name, list.len() + 1) {
        Some(end) => end,
        None => name,
    }
}

/// The graph after the first `k` rewrites that are safe when their turn comes, and the names
/// that those replace.
pub open spec fn rewritten(g: Graph, list: Seq<Renaming>, k: nat) -> (Graph, Set<Seq<char>>)
    decreases k,
{
    if k == 0 {
        (g, Set::empty())
    } else {
        let (h, done) = rewritten(g, list, (k - 1) as nat);
        let from = list[k - 1].from;
        let to = resolved(list, list[k - 1].to);
        if rewrite_safe(h, from, to) {
            (rename_uses(h, from, to), done.insert(from))
        } else {
            (h, done)
        }
    }
}

/// The graph after the first `k` constants are put in their places.
pub open spec fn updated(g: Graph, list: Seq<Const>, k: nat) -> Graph
    decreases k,
{
    if k == 0 {
        g
    } else {
        with_const(updated(g, list, (k - 1) as nat), list[k - 1])
    }
}

/// Whether a rewrite of node `i` is among those done.
pub open spec fn rewired(list: Seq<Renaming>, done: Set<Seq<char>>, i: int) -> bool {
    exists|j: int|
        0 <= j < list.len() && (#[trigger] list[j]).index == i && done.contains(list[j].from)
}

/// Which nodes stay.
pub open spec fn kept(p: Changes, done: Set<Seq<char>>) -> Seq<bool> {
    Seq::new(p.dropped.len(), |i: int| !p.dropped[i] && !rewired(p.rewrites, done, i))
}

/// The graph after a plan, and how many changes it made: constants put in place, constants added,
/// safe rewrites made in order, and the nodes that have become superfluous dropped.
pub open spec fn carried_out(g: Graph, p: Changes) -> (Graph, nat) {
    let g1 = updated(g, p.updates, p.updates.len());
    let g2 = Graph { initializer: g1.initializer + p.clones, ..g1 };
    let (g3, done) = rewritten(g2, p.rewrites, p.rewrites.len());
    (Graph { node: retained(g3.node, kept(p, done)), ..g3 }, done.len() + p.clones.len())
}

/// Renaming uses keeps the number of nodes.
pub proof fn lemma_rename_uses_len(g: Graph, from: Seq<char>, to: Seq<char>)
    ensures
        rename_uses(g, from, to).node.len() == g.node.len(),
        rename_uses(g, from, to).initializer == g.initializer,
{
    lemma_with_subgraphs(
        g,
        crate::scope::rename_subgraphs(g, from, to),
        crate::scope::rename_subgraphs(g, from, to),
    );
}

proof fn lemma_updated_len(g: Graph, list: Seq<Const>, k: nat)
    requires
        k <= list.len(),
        forall|i: int| 0 <= i < list.len() ==> placed(g, #[trigger] list[i].location),
    ensures
        updated(g, list, k).node.len() == g.node.len(),
        updated(g, list, k).initializer.len() == g.initializer.len(),
    decreases k,
{
    if k > 0 {
        lemma_updated_len(g, list, (k - 1) as nat);
        assert(placed(g, list[k - 1].location));
    }
}

proof fn lemma_rewritten(g: Graph, list: Seq<Renaming>, k: nat)
    ensures
        rewritten(g, list, k).0.node.len() == g.node.len(),
        rewritten(g, list, k).1.finite(),
        rewritten(g, list, k).1.len() <= k,
    decreases k,
{
    if k > 0 {
        lemma_rewritten(g, list, (k - 1) as nat);
        let (h, done) = rewritten(g, list, (k - 1) as nat);
        lemma_rename_uses_len(h, list[k - 1].from, resolved(list, list[k - 1].to));
    }
}

/// A table of renamings, read as a partial function.
pub open spec fn renamed_to(table: Map<Seq<char>, String>, name: Seq<char>) -> Option<Seq<char>> {
    if table.contains_key(name) {
        Some(table[name]@)
    } else {
        None
    }
}

/// What the last rewrite of each name reads instead of it.
pub fn rewrite_table(list: &Vec<Rewrite>) -> (r: StringHashMap<String>)
    ensures
        forall|name: Seq<char>| #[trigger] renamed_to(r@, name) == rewritten_to(views(list@), name),
{
    let mut table: StringHashMap<String> = StringHashMap::new();
    let mut i: usize = 0;
    while i < list.len()
        invariant
            i <= list.len(),
            forall|name: Seq<char>| #[trigger]
                renamed_to(table@, name) == rewritten_to(views(list@).take(i as int), name),
        decreases list.len() - i,
    {
        let ghost before = table@;
        table.insert(list[i].from.clone(), list[i].to.clone());
        proof {
            let all = views(list@);
            assert(all.take(i + 1).drop_last() =~= all.take(i as int));
            assert(all.take(i + 1).last() == all[i as int]);
            assert forall|name: Seq<char>| #[trigger]
                renamed_to(table@, name) == rewritten_to(all.take(i + 1), name) by {
                assert(renamed_to(before, name) == rewritten_to(all.take(i as int), name));
            }
        }
        i = i + 1;
    }
    proof {
        assert(views(list@).take(i as int) =~= views(list@));
    }
    table
}

fn resolve_rewrite_target(
    name: &String,
    table: &StringHashMap<String>,
    count: usize,
    Ghost(list): Ghost<Seq<Renaming>>,
) -> (r: String)
    requires
        count == list.len(),
        forall|n: Seq<char>| #[trigger] renamed_to(table@, n) == rewritten_to(list, n),
    ensures
        r@ == resolved(list, name@),
{
    let mut current: String = name.clone();
    let mut steps: usize = 0;
    loop
        invariant
            steps <= count,
            count == list.len(),
            forall|n: Seq<char>| #[trigger] renamed_to(table@, n) == rewritten_to(list, n),
            chain_end(list, name@, list.len() + 1) == chain_end(
                list,
                current@,
                (list.len() + 1 - steps) as nat,
            ),
        decreases count - steps,
    {
        proof {
            assert(renamed_to(table@, current@) == rewritten_to(list, current@));
        }
        match table.get(current.as_str()) {
            Some(next) => {
                if steps == count {
                    proof {
                        assert(chain_end(list, next@, 0) is None);
                    }
                    return name.clone();
                }
                current = next.clone();
            },
            None => {
                return current;
            },
        }
        steps = steps + 1;
    }
}

fn apply_rewrites_recursive(graph: &mut GraphProto, list: &Vec<Rewrite>) -> (done: StringHashSet)
    ensures
        (final(graph)@, done@) == rewritten(old(graph)@, views(list@), list@.len()),
{
    let table = rewrite_table(list);
    let mut done = StringHashSet::new();
    let mut i: usize = 0;
    while i < list.len()
        invariant
            i <= list.len(),
            forall|name: Seq<char>| #[trigger]
                renamed_to(table@, name) == rewritten_to(views(list@), name),
            (graph@, done@) == rewritten(old(graph)@, views(list@), i as nat),
        decreases list.len() - i,
    {
        let to = resolve_rewrite_target(&list[i].to, &table, list.len(), Ghost(views(list@)));
        if rewrite_is_safe(graph, list[i].from.as_str(), to.as_str()) {
            replace_inputs_recursive(graph, list[i].from.as_str(), to.as_str());
            done.insert(list[i].from.clone());
        }
        i = i + 1;
    }
    done
}

impl Plan {
    /// The plan that changes nothing.
    pub fn new(count: usize) -> (r: Plan)
        ensures
            r@ == no_changes(count as nat),
    {
        let mut dropped: Vec<bool> = Vec::new();
        let mut i: usize = 0;
        while i < count
            invariant
                i <= count,
                dropped@ =~= Seq::new(i as nat, |k: int| false),
            decreases count - i,
        {
            dropped.push(false);
            i = i + 1;
        }
        let r = Plan { updates: Vec::new(), clones: Vec::new(), rewrites: Vec::new(), dropped };
        proof {
            assert(r@.updates =~= Seq::empty());
            assert(r@.clones =~= Seq::empty());
            assert(r@.rewrites =~= Seq::empty());
        }
        r
    }

    /// Adds a decision on node `i`, whose output is `from`.
    pub fn record(&mut self, i: usize, from: &String, decision: Decision)
        requires
            i < old(self).dropped.len(),
        ensures
            final(self)@ == old(self)@.with(i as int, from@, decision@),
    {
        match decision {
            Decision::Keep => {},
            Decision::Fold(value, to) => {
                self.updates.push(value);
                self.rewrites.push(Rewrite { index: i, from: from.clone(), to });
                proof {
                    assert(self@.updates =~= old(self)@.updates.push(value@));
                    assert(self@.rewrites =~= old(self)@.rewrites.push(
                        Renaming { index: i as int, from: from@, to: to@ },
                    ));
                }
            },
            Decision::Clone(tensor) => {
                self.clones.push(tensor);
                self.dropped[i] = true;
                proof {
                    assert(self@.clones =~= old(self)@.clones.push(tensor@));
                }
            },
            Decision::Rewire(to) => {
                self.rewrites.push(Rewrite { index: i, from: from.clone(), to });
                proof {
                    assert(self@.rewrites =~= old(self)@.rewrites.push(
                        Renaming { index: i as int, from: from@, to: to@ },
                    ));
                }
            },
        }
    }

    /// Carries the plan out and counts its changes.
    pub fn apply(self, graph: &mut GraphProto) -> (changes: usize)
        requires
            self@.fits(old(graph)@),
        ensures
            (final(graph)@, changes as nat) == carried_out(old(graph)@, self@),
    {
        let ghost p = self@;
        let ghost g0 = old(graph)@;
        let Plan { updates, clones, rewrites, dropped } = self;
        let cloned = clones.len();
        let mut updates = updates;
        let mut clones = clones;
        put_constants(graph, updates);
        let ghost g1 = graph@;
        graph.initializer.append(&mut clones);
        let ghost g2 = graph@;
        proof {
            assert(g2.initializer =~= g1.initializer + p.clones);
            lemma_updated_len(g0, p.updates, p.updates.len());
            lemma_rewritten(g2, p.rewrites, p.rewrites.len());
        }
        let done = apply_rewrites_recursive(graph, &rewrites);
        let mut keep: Vec<bool> = Vec::new();
        let mut i: usize = 0;
        while i < dropped.len()
            invariant
                i <= dropped.len(),
                p.dropped == dropped@,
                p.rewrites == views(rewrites@),
                keep@ =~= kept(p, done@).take(i as int),
            decreases dropped.len() - i,
        {
            let mut stays = !dropped[i];
            let mut j: usize = 0;
            while j < rewrites.len() && stays
                invariant
                    i < dropped.len(),
                    j <= rewrites.len(),
                    p.dropped == dropped@,
                    p.rewrites == views(rewrites@),
                    stays ==> !dropped@[i as int] && forall|k: int|
                        0 <= k < j ==> !((#[trigger] p.rewrites[k]).index == i && done@.contains(
                            p.rewrites[k].from,
                        )),
                    !stays ==> !kept(p, done@)[i as int],
                decreases rewrites.len() - j,
            {
                if rewrites[j].index == i && done.contains(rewrites[j].from.as_str()) {
                    proof {
                        assert(p.rewrites[j as int].index == i);
                        assert(rewired(p.rewrites, done@, i as int));
                    }
                    stays = false;
                }
                j = j + 1;
            }
            keep.push(stays);
            i = i + 1;
        }
        proof {
            assert(keep@ =~= kept(p, done@));
        }
        retain_graph_nodes(graph, &keep);
        done.len() + cloned
    }
}

fn put_constants(graph: &mut GraphProto, updates: Vec<ConstValue>)
    requires
        forall|i: int|
            0 <= i < updates.len() ==> placed(old(graph)@, #[trigger] views(updates@)[i].location),
    ensures
        final(graph)@ == updated(old(graph)@, views(updates@), updates@.len()),
{
    let ghost all = views(updates@);
    let ghost listed = updates@;
    let mut rest = updates;
    let ghost mut done: int = 0;
    while rest.len() > 0
        invariant
            0 <= done,
            done + rest.len() == listed.len(),
            all == views(listed),
            rest@ =~= listed.skip(done),
            forall|i: int|
                0 <= i < listed.len() ==> placed(old(graph)@, #[trigger] all[i].location),
            graph@ == updated(old(graph)@, all, done as nat),
        decreases rest.len(),
    {
        proof {
            lemma_updated_len(old(graph)@, all, done as nat);
            assert(rest@[0] == listed[done]);
            assert(placed(old(graph)@, all[done].location));
        }
        let value = rest.remove(0);
        set_const_value(graph, value);
        proof {
            done = done + 1;
        }
    }
}

} // verus!
