//! Finding the conditional that an emptiness check governs, and which of its branches
//! runs when the checked sequence is non-empty.
use vstd::prelude::*;

use crate::tree::{ExprKind, Tree};

verus! {

/// A conditional governed by an emptiness check.
#[derive(Clone, Copy, Debug, PartialEq, Eq, Structural)]
pub struct Guard {
    /// The index of the conditional.
    pub if_node: usize,
    /// Whether the condition, as the conditional sees it, means "is empty":
    /// `if x.is_empty()` means it, `if !x.is_empty()` does not.
    pub if_is_empty: bool,
}

/// Whether a check under `nots` negations still means "is empty".
pub open spec fn sense_is_empty(nots: nat) -> bool {
    nots % 2 == 0
}

/// Ascends from node `n`, which already sits under `nots` negations: through further
/// negations of the node below, up to the conditional whose condition is the node below.
/// Any other ancestor (a call, a block, anything else) or the root ends the search.
/// Yields the conditional and the total number of negations passed.
pub open spec fn ascend(t: Tree, n: int, nots: nat) -> Option<(usize, nat)>
    decreases t.len() - n,
{
    if 0 <= n < t.len() && t.parent(n) is Some && n < t.parent(n)->0 < t.len() {
        let p = t.parent(n)->0;
        match t.kind(p as int) {
            ExprKind::If(c, _, _) => if c == n {
                Some((p, nots))
            } else {
                None
            },
            ExprKind::Not(e) => if e == n {
                ascend(t, p as int, nots + 1)
            } else {
                None
            },
            _ => None,
        }
    } else {
        None
    }
}

/// The guard of the emptiness-check call at `call`, if any conditional governs it.
pub open spec fn guard_of(t: Tree, call: int) -> Option<Guard> {
    match ascend(t, call, 0) {
        Some((p, nots)) => Some(Guard { if_node: p, if_is_empty: sense_is_empty(nots) }),
        None => None,
    }
}

/// The node reached from `n` by going up through `k` negations, each the parent of
/// the node below and negating exactly it.
pub open spec fn lift(t: Tree, n: int, k: nat) -> Option<usize>
    decreases k,
{
    if !(0 <= n < t.len()) {
        None
    } else if k == 0 {
        Some(n as usize)
    } else if t.parent(n) is Some && t.parent(n)->0 < t.len() && t.kind(
        t.parent(n)->0 as int,
    ) == ExprKind::Not(n as usize) {
        lift(t, t.parent(n)->0 as int, (k - 1) as nat)
    } else {
        None
    }
}

/// The branch to scan for a guard: the else-branch when the condition means "is empty",
/// else the then-branch. Both branches must exist, and the chosen one must be a block.
pub open spec fn branch_of(t: Tree, g: Guard) -> Option<usize> {
    match t.kind(g.if_node as int) {
        ExprKind::If(_, th, Some(el)) => {
            let b = if g.if_is_empty {
                el
            } else {
                th
            };
            if t.kind(b as int) is Block {
                Some(b)
            } else {
                None
            }
        },
        _ => None,
    }
}

proof fn lemma_lift_ascend(t: Tree, n: int, k: nat, nots: nat, top: usize, if_node: usize)
    requires
        t.wf(),
        lift(t, n, k) == Some(top),
        t.parent(top as int) == Some(if_node),
        t.kind(if_node as int) matches ExprKind::If(c, _, _) && c == top,
    ensures
        ascend(t, n, nots) == Some((if_node, nots + k)),
    decreases k,
{
    assert(t.parents@[n] is Some ==> n < t.parents@[n]->0 < t.len());
    if k > 0 {
        lemma_lift_ascend(t, t.parent(n)->0 as int, (k - 1) as nat, nots + 1, top, if_node);
    }
}

/// An emptiness check wrapped in exactly `k` negations, the outermost of which is the
/// condition of a conditional, is governed by that conditional, and means "is empty"
/// exactly when `k` is even.
pub proof fn lemma_negation_parity(t: Tree, call: int, k: nat, top: usize, if_node: usize)
    requires
        t.wf(),
        lift(t, call, k) == Some(top),
        t.parent(top as int) == Some(if_node),
        t.kind(if_node as int) matches ExprKind::If(c, _, _) && c == top,
    ensures
        guard_of(t, call) == Some(Guard { if_node, if_is_empty: k % 2 == 0 }),
{
    lemma_lift_ascend(t, call, k, 0, top, if_node);
}

impl Guard {
    /// The guard of the conditional at `higher_if`, reached through `not_op_count`
    /// negations.
    pub fn new_with_not_op_count(higher_if: usize, not_op_count: usize) -> (r: Guard)
        ensures
            r.if_node == higher_if,
            r.if_is_empty == sense_is_empty(not_op_count as nat),
    {
        Guard { if_node: higher_if, if_is_empty: not_op_count % 2 == 0 }
    }

    /// The block that runs when the checked sequence is non-empty, if the conditional
    /// has both branches and that one is a block.
    pub fn block_to_visit(&self, t: &Tree) -> (r: Option<usize>)
        requires
            t.wf(),
            self.if_node < t.len(),
        ensures
            r == branch_of(*t, *self),
            r is Some ==> r->0 < self.if_node,
    {
        match &t.nodes[self.if_node].kind {
            ExprKind::If(_, th, Some(el)) => {
                assert(t.children(self.if_node as int)[1] == *th);
                assert(t.children(self.if_node as int)[2] == *el);
                let b = if self.if_is_empty {
                    *el
                } else {
                    *th
                };
                match &t.nodes[b].kind {
                    ExprKind::Block(_) => Some(b),
                    _ => None,
                }
            },
            _ => None,
        }
    }
}

/// Finds the conditional governing the emptiness-check call at `call`, counting the
/// negations between them.
pub fn get_higher_if(t: &Tree, call: usize) -> (r: Option<Guard>)
    requires
        t.wf(),
        call < t.len(),
    ensures
        r == guard_of(*t, call as int),
        r is Some ==> r->0.if_node < t.len(),
{
    let mut cur = call;
    let mut not_op_count: usize = 0;
    loop
        invariant
            t.wf(),
            call <= cur < t.len(),
            not_op_count <= cur - call,
            ascend(*t, call as int, 0) == ascend(*t, cur as int, not_op_count as nat),
        decreases t.len() - cur,
    {
        let p = match t.parents[cur] {
            Some(p) => p,
            None => {
                return None;
            },
        };
        match &t.nodes[p].kind {
            ExprKind::If(c, _, _) => {
                if *c == cur {
                    return Some(Guard::new_with_not_op_count(p, not_op_count));
                }
                return None;
            },
            ExprKind::Not(e) => {
                if *e != cur {
                    return None;
                }
                not_op_count = not_op_count + 1;
                cur = p;
            },
            _ => {
                return None;
            },
        }
    }
}

} // verus!
