use vstd::prelude::*;

use crate::format::{render, render_spec, Format, Record};
use crate::level::{admits, passes, LevelDef};

verus! {

/// One branch of the fan-out: a sink's severity filter and its formatter.
#[derive(Clone, Copy, Debug, PartialEq, Eq, Structural)]
pub struct Branch {
    pub level: LevelDef,
    pub format: Format,
}

/// What branch `b` hands its sink for record `r`: the rendered record if the
/// filter passes it, nothing otherwise.
pub open spec fn branch_output(b: Branch, r: Record) -> Option<Seq<char>> {
    if admits(r.level, b.level) {
        Some(render_spec(b.format, r))
    } else {
        None
    }
}

/// The text an optional rendered record holds.
pub open spec fn text_of(o: Option<String>) -> Option<Seq<char>> {
    match o {
        Some(s) => Some(s@),
        None => None,
    }
}

/// Every sink's branch, in the order of the configured targets.
#[derive(Clone, Debug)]
pub struct FanoutLayer {
    pub branches: Vec<Branch>,
}

impl FanoutLayer {
    pub fn new(branches: Vec<Branch>) -> (l: FanoutLayer)
        ensures
            l.branches@ == branches@,
    {
        FanoutLayer { branches }
    }

    /// Evaluates every branch on its own: entry `i` of the result is what sink
    /// `i` must enqueue, and depends on branch `i` alone. Rendering happens
    /// only for branches whose filter passes the record.
    pub fn dispatch(&self, r: &Record) -> (out: Vec<Option<String>>)
        requires
            r.wf(),
        ensures
            out@.len() == self.branches@.len(),
            forall|i: int|
                0 <= i < out@.len() ==> #[trigger] text_of(out@[i]) == branch_output(
                    self.branches@[i],
                    *r,
                ),
    {
        let mut out: Vec<Option<String>> = Vec::new();
        let n = self.branches.len();
        let mut i: usize = 0;
        while i < n
            invariant
                n == self.branches@.len(),
                i <= n,
                r.wf(),
                out@.len() == i,
                forall|j: int|
                    0 <= j < i ==> #[trigger] text_of(out@[j]) == branch_output(
                        self.branches@[j],
                        *r,
                    ),
            decreases n - i,
        {
            let b = self.branches[i];
            if passes(r.level, b.level) {
                out.push(Some(render(b.format, r)));
            } else {
                out.push(None);
            }
            i = i + 1;
        }
        out
    }
}

/// Fan-out independence: a sink receives a record iff the record's severity
/// is at least the sink's level, and then receives it rendered in the sink's
/// shape. Two layers that share sink `i`'s branch hand sink `i` the same
/// thing, whatever their other branches are.
pub proof fn lemma_fanout_independent(a: FanoutLayer, b: FanoutLayer, i: int, r: Record)
    requires
        0 <= i < a.branches@.len(),
        0 <= i < b.branches@.len(),
        a.branches@[i] == b.branches@[i],
    ensures
        branch_output(a.branches@[i], r) == branch_output(b.branches@[i], r),
        branch_output(a.branches@[i], r) is Some <==> r.level.rank() >= a.branches@[i].level.rank(),
        branch_output(a.branches@[i], r) matches Some(t) ==> t == render_spec(
            a.branches@[i].format,
            r,
        ),
{
}

} // verus!
