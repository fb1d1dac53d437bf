//! What the optimizer did.

use crate::onnx::views;
use crate::text::same;
use vstd::prelude::*;

verus! {

/// How many changes a pass made.
#[derive(Debug, PartialEq, Eq)]
pub struct PassChange {
    pub pass: &'static str,
    pub changes: usize,
}

/// The content of a [`PassChange`].
#[verifier::ext_equal]
pub struct Change {
    pub pass: Seq<char>,
    pub changes: usize,
}

impl View for PassChange {
    type V = Change;

    open spec fn view(&self) -> Change {
        Change { pass: self.pass@, changes: self.changes }
    }
}

/// What the optimizer did to a graph and its subgraphs. Sums wrap around at the size of `usize`,
/// which no graph in memory reaches.
#[derive(Debug, PartialEq, Eq)]
pub struct OptimizationReport {
    pub iterations: usize,
    pub nodes_before: usize,
    pub nodes_after: usize,
    pub initializers_before: usize,
    pub initializers_after: usize,
    pub pass_changes: Vec<PassChange>,
}

/// The content of an [`OptimizationReport`].
#[verifier::ext_equal]
pub struct Report {
    pub iterations: usize,
    pub nodes_before: usize,
    pub nodes_after: usize,
    pub initializers_before: usize,
    pub initializers_after: usize,
    pub pass_changes: Seq<Change>,
}

impl View for OptimizationReport {
    type V = Report;

    open spec fn view(&self) -> Report {
        Report {
            iterations: self.iterations,
            nodes_before: self.nodes_before,
            nodes_after: self.nodes_after,
            initializers_before: self.initializers_before,
            initializers_after: self.initializers_after,
            pass_changes: views(self.pass_changes@),
        }
    }
}

/// A sum that wraps around.
pub open spec fn plus(a: usize, b: usize) -> usize {
    vstd::wrapping::usize_specs::wrapping_add(a, b)
}

/// The position of the first entry for a pass, from position `i` on.
pub open spec fn entry_from(list: Seq<Change>, pass: Seq<char>, i: int) -> Option<nat>
    decreases list.len() - i,
{
    if i < 0 || i >= list.len() {
        None
    } else if list[i].pass == pass {
        Some(i as nat)
    } else {
        entry_from(list, pass, i + 1)
    }
}

/// The entries with a pass's changes added to its entry, or as a new entry. No changes, no entry.
pub open spec fn recorded(list: Seq<Change>, pass: Seq<char>, changes: usize) -> Seq<Change> {
    if changes == 0 {
        list
    } else {
        match entry_from(list, pass, 0) {
            Some(i) => list.update(
                i as int,
                Change { changes: plus(list[i as int].changes, changes), ..list[i as int] },
            ),
            None => list.push(Change { pass, changes }),
        }
    }
}

/// The entries with the first `k` of other entries recorded in turn.
pub open spec fn all_recorded(list: Seq<Change>, more: Seq<Change>, k: nat) -> Seq<Change>
    decreases k,
{
    if k == 0 {
        list
    } else {
        recorded(
            all_recorded(list, more, (k - 1) as nat),
            more[k - 1].pass,
            more[k - 1].changes,
        )
    }
}

impl Report {
    /// The report with a pass's changes.
    pub open spec fn with(self, pass: Seq<char>, changes: usize) -> Report {
        Report { pass_changes: recorded(self.pass_changes, pass, changes), ..self }
    }

    /// The report with a subgraph's report added: counts add up, and the greater number of
    /// iterations stays.
    pub open spec fn merged(self, child: Report) -> Report {
        Report {
            iterations: if self.iterations < child.iterations {
                child.iterations
            } else {
                self.iterations
            },
            nodes_before: plus(self.nodes_before, child.nodes_before),
            nodes_after: plus(self.nodes_after, child.nodes_after),
            initializers_before: plus(self.initializers_before, child.initializers_before),
            initializers_after: plus(self.initializers_after, child.initializers_after),
            pass_changes: all_recorded(
                self.pass_changes,
                child.pass_changes,
                child.pass_changes.len(),
            ),
        }
    }

    /// Whether some pass changed something.
    pub open spec fn some_change(self) -> bool {
        exists|i: int|
            0 <= i < self.pass_changes.len() && #[trigger] self.pass_changes[i].changes > 0
    }
}

/// The report on nothing.
pub open spec fn empty_report() -> Report {
    Report {
        iterations: 0,
        nodes_before: 0,
        nodes_after: 0,
        initializers_before: 0,
        initializers_after: 0,
        pass_changes: Seq::empty(),
    }
}

impl Default for OptimizationReport {
    fn default() -> (r: Self)
        ensures
            r@ == empty_report(),
    {
        let r = OptimizationReport {
            iterations: 0,
            nodes_before: 0,
            nodes_after: 0,
            initializers_before: 0,
            initializers_after: 0,
            pass_changes: Vec::new(),
        };
        proof {
            assert(r@.pass_changes =~= Seq::empty());
        }
        r
    }
}

impl OptimizationReport {
    /// Adds a pass's changes.
    pub fn record(&mut self, pass: &'static str, changes: usize)
        ensures
            final(self)@ == old(self)@.with(pass@, changes),
    {
        if changes == 0 {
            return ;
        }
        let mut i: usize = 0;
        while i < self.pass_changes.len()
            invariant
                i <= self.pass_changes.len(),
                *self == *old(self),
                changes != 0,
                entry_from(views(self.pass_changes@), pass@, 0) == entry_from(
                    views(self.pass_changes@),
                    pass@,
                    i as int,
                ),
            decreases self.pass_changes.len() - i,
        {
            if same(self.pass_changes[i].pass, pass) {
                let sum = self.pass_changes[i].changes.wrapping_add(changes);
                self.pass_changes[i].changes = sum;
                proof {
                    assert(self@.pass_changes =~= old(self)@.pass_changes.update(
                        i as int,
                        Change { changes: sum, ..old(self)@.pass_changes[i as int] },
                    ));
                }
                return ;
            }
            i = i + 1;
        }
        self.pass_changes.push(PassChange { pass, changes });
        proof {
            assert(self@.pass_changes =~= old(self)@.pass_changes.push(
                Change { pass: pass@, changes },
            ));
        }
    }

    /// Adds a subgraph's report.
    pub fn merge(&mut self, child: OptimizationReport)
        ensures
            final(self)@ == old(self)@.merged(child@),
    {
        if self.iterations < child.iterations {
            self.iterations = child.iterations;
        }
        self.nodes_before = self.nodes_before.wrapping_add(child.nodes_before);
        self.nodes_after = self.nodes_after.wrapping_add(child.nodes_after);
        self.initializers_before = self.initializers_before.wrapping_add(child.initializers_before);
        self.initializers_after = self.initializers_after.wrapping_add(child.initializers_after);
        let ghost start = self@;
        let mut i: usize = 0;
        while i < child.pass_changes.len()
            invariant
                i <= child.pass_changes.len(),
                self@ == (Report {
                    pass_changes: all_recorded(
                        start.pass_changes,
                        child@.pass_changes,
                        i as nat,
                    ),
                    ..start
                }),
            decreases child.pass_changes.len() - i,
        {
            self.record(child.pass_changes[i].pass, child.pass_changes[i].changes);
            i = i + 1;
        }
    }

    /// Whether some pass changed something.
    pub fn changed(&self) -> (r: bool)
        ensures
            r == self@.some_change(),
    {
        let mut i: usize = 0;
        while i < self.pass_changes.len()
            invariant
                i <= self.pass_changes.len(),
                forall|k: int| 0 <= k < i ==> (#[trigger] self@.pass_changes[k]).changes == 0,
            decreases self.pass_changes.len() - i,
        {
            if self.pass_changes[i].changes > 0 {
                proof {
                    assert(self@.pass_changes[i as int].changes > 0);
                }
                return true;
            }
            i = i + 1;
        }
        false
    }
}

} // verus!
