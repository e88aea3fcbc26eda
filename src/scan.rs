//! Scanning a branch for index accesses on the checked sequence.
use vstd::prelude::*;

use crate::tree::{ExprKind, Tree};

verus! {

broadcast use vstd::seq_lib::group_filter_ensures;

/// The local declaration that expression `e` names, if it is a path to a local.
pub open spec fn local_of(t: Tree, e: int) -> Option<u64> {
    if 0 <= e < t.len() {
        match t.kind(e) {
            ExprKind::Local(d) => Some(d),
            _ => None,
        }
    } else {
        None
    }
}

/// Whether node `n` indexes into the local declaration `d`.
pub open spec fn indexes_local(t: Tree, d: u64, n: int) -> bool {
    0 <= n < t.len() && match t.kind(n) {
        ExprKind::Index(b, _) => local_of(t, b as int) == Some(d),
        _ => false,
    }
}

/// What the index of an index access folds to.
pub open spec fn index_value(t: Tree, n: int) -> Option<u128> {
    match t.kind(n) {
        ExprKind::Index(_, i) => if 0 <= i < t.len() {
            t.nodes@[i as int].folded
        } else {
            None
        },
        _ => None,
    }
}

pub open spec fn indexes_pred(t: Tree, d: u64) -> spec_fn(usize) -> bool {
    |n: usize| indexes_local(t, d, n as int)
}

/// The nodes of the subtree at `i`, in pre-order: each node before its children, and
/// the children in source order.
pub open spec fn preorder(t: Tree, i: int) -> Seq<usize>
    decreases i, t.children(i).len() + 1,
{
    if 0 <= i < t.len() {
        seq![i as usize] + preorder_kids(t, i, t.children(i).len() as int)
    } else {
        Seq::empty()
    }
}

/// The pre-orders of the first `j` children of node `i`, one after another.
pub open spec fn preorder_kids(t: Tree, i: int, j: int) -> Seq<usize>
    decreases i, j,
{
    if 0 <= i < t.len() && 0 < j <= t.children(i).len() {
        let c = t.children(i)[j - 1] as int;
        preorder_kids(t, i, j - 1) + if 0 <= c < i {
            preorder(t, c)
        } else {
            Seq::empty()
        }
    } else {
        Seq::empty()
    }
}

/// The index accesses into `d` in the subtree at `i`, in pre-order.
pub open spec fn accesses(t: Tree, d: u64, i: int) -> Seq<usize> {
    preorder(t, i).filter(indexes_pred(t, d))
}

/// Whether every access in `s` has an index that folds to zero.
pub open spec fn zero_only(t: Tree, s: Seq<usize>) -> bool {
    forall|k: int| 0 <= k < s.len() ==> index_value(t, #[trigger] s[k] as int) == Some(0u128)
}

/// What scanning the block `b` for accesses into the receiver `recv` yields: whether
/// rewriting is safe, and if so the accesses to rewrite. It is safe when the receiver
/// names a local, and the block holds at least one access into it, all at index zero.
pub open spec fn scan_of(t: Tree, b: int, recv: int) -> (bool, Seq<usize>) {
    match local_of(t, recv) {
        Some(d) => if zero_only(t, accesses(t, d, b)) && accesses(t, d, b).len() > 0 {
            (true, accesses(t, d, b))
        } else {
            (false, Seq::empty())
        },
        None => (false, Seq::empty()),
    }
}

/// The outcome of scanning a branch.
#[derive(Clone, Debug)]
pub struct ScanResult {
    /// Whether the branch may be rewritten.
    pub safe: bool,
    /// The accesses at index zero to rewrite, in pre-order; empty when not safe.
    pub zero_accesses: Vec<usize>,
}

/// The local declaration that expression `e` names, if it is a path to a local.
pub fn path_to_local(t: &Tree, e: usize) -> (r: Option<u64>)
    requires
        e < t.len(),
    ensures
        r == local_of(*t, e as int),
{
    match &t.nodes[e].kind {
        ExprKind::Local(d) => Some(*d),
        _ => None,
    }
}

proof fn lemma_kids_split(t: Tree, i: int, j: int, m: int) -> (rest: Seq<usize>)
    requires
        0 <= i < t.len(),
        0 <= j <= m <= t.children(i).len(),
    ensures
        preorder_kids(t, i, m) == preorder_kids(t, i, j) + rest,
    decreases m - j,
{
    if m == j {
        assert(preorder_kids(t, i, m) == preorder_kids(t, i, j) + Seq::<usize>::empty());
        Seq::empty()
    } else {
        let r = lemma_kids_split(t, i, j, m - 1);
        let c = t.children(i)[m - 1] as int;
        let x = if 0 <= c < i {
            preorder(t, c)
        } else {
            Seq::empty()
        };
        assert(preorder_kids(t, i, m) == preorder_kids(t, i, j) + (r + x));
        r + x
    }
}

proof fn lemma_zero_only_add(t: Tree, a: Seq<usize>, b: Seq<usize>)
    ensures
        zero_only(t, a + b) == (zero_only(t, a) && zero_only(t, b)),
{
    if zero_only(t, a + b) {
        assert forall|k: int| 0 <= k < b.len() implies index_value(
            t,
            #[trigger] b[k] as int,
        ) == Some(0u128) by {
            assert((a + b)[a.len() + k] == b[k]);
        }
        assert forall|k: int| 0 <= k < a.len() implies index_value(
            t,
            #[trigger] a[k] as int,
        ) == Some(0u128) by {
            assert((a + b)[k] == a[k]);
        }
    }
}

/// Visits the subtree at `i` in pre-order, appending each access into `d` to `found`.
/// Returns `false` as soon as an access whose index does not fold to zero is seen.
fn visit(t: &Tree, i: usize, d: u64, found: &mut Vec<usize>) -> (go_on: bool)
    requires
        t.wf(),
        i < t.len(),
    ensures
        go_on ==> zero_only(*t, accesses(*t, d, i as int)),
        go_on ==> final(found)@ == old(found)@ + accesses(*t, d, i as int),
        !go_on ==> !zero_only(*t, accesses(*t, d, i as int)),
    decreases i,
{
    let ghost pred = indexes_pred(*t, d);
    let ghost kids = t.children(i as int);
    let ghost own: Seq<usize> = if indexes_local(*t, d, i as int) {
        seq![i]
    } else {
        Seq::empty()
    };
    let ghost all_kids = preorder_kids(*t, i as int, kids.len() as int);
    assert(preorder(*t, i as int) == seq![i] + all_kids);
    proof {
        Seq::filter_distributes_over_add(seq![i], all_kids, pred);
        reveal_with_fuel(Seq::filter, 2);
        assert(seq![i].drop_last() == Seq::<usize>::empty());
        assert(seq![i].filter(pred) == own);
    }
    assert(accesses(*t, d, i as int) == own + all_kids.filter(pred));
    if let ExprKind::Index(b, ix) = &t.nodes[i].kind {
        assert(kids[0] == *b && kids[1] == *ix);
        if let ExprKind::Local(bd) = &t.nodes[*b].kind {
            if *bd == d {
                let bad = match t.nodes[*ix].folded {
                    Some(v) => v != 0,
                    None => true,
                };
                if bad {
                    assert(accesses(*t, d, i as int)[0] == i);
                    return false;
                }
                found.push(i);
            }
        }
    }
    assert(zero_only(*t, own));
    let cs = t.nodes[i].kind.children();
    let ghost base = found@;
    let mut j: usize = 0;
    assert(preorder_kids(*t, i as int, 0).filter(pred) == Seq::<usize>::empty());
    assert(base == base + preorder_kids(*t, i as int, 0).filter(pred));
    while j < cs.len()
        invariant
            t.wf(),
            i < t.len(),
            cs@ == kids,
            kids == t.children(i as int),
            all_kids == preorder_kids(*t, i as int, kids.len() as int),
            pred == indexes_pred(*t, d),
            accesses(*t, d, i as int) == own + all_kids.filter(pred),
            0 <= j <= cs@.len(),
            base == old(found)@ + own,
            zero_only(*t, own),
            found@ == base + preorder_kids(*t, i as int, j as int).filter(pred),
            zero_only(*t, preorder_kids(*t, i as int, j as int).filter(pred)),
        decreases cs.len() - j,
    {
        let c = cs[j];
        assert(kids[j as int] < i);
        let ghost done = preorder_kids(*t, i as int, j as int).filter(pred);
        proof {
            Seq::filter_distributes_over_add(
                preorder_kids(*t, i as int, j as int),
                preorder(*t, c as int),
                pred,
            );
        }
        assert(preorder_kids(*t, i as int, j + 1) == preorder_kids(*t, i as int, j as int)
            + preorder(*t, c as int));
        assert(preorder_kids(*t, i as int, j + 1).filter(pred) == done + accesses(
            *t,
            d,
            c as int,
        ));
        if !visit(t, c, d, found) {
            proof {
                let rest = lemma_kids_split(*t, i as int, j + 1, kids.len() as int);
                Seq::filter_distributes_over_add(
                    preorder_kids(*t, i as int, j + 1),
                    rest,
                    pred,
                );
                assert(accesses(*t, d, i as int) == own + (done + accesses(*t, d, c as int))
                    + rest.filter(pred));
                lemma_zero_only_add(*t, own + (done + accesses(*t, d, c as int)), rest.filter(pred));
                lemma_zero_only_add(*t, own, done + accesses(*t, d, c as int));
                lemma_zero_only_add(*t, done, accesses(*t, d, c as int));
            }
            return false;
        }
        proof {
            lemma_zero_only_add(*t, done, accesses(*t, d, c as int));
        }
        assert(found@ == base + preorder_kids(*t, i as int, j + 1).filter(pred));
        j = j + 1;
    }
    proof {
        lemma_zero_only_add(*t, own, all_kids.filter(pred));
    }
    assert(found@ == old(found)@ + accesses(*t, d, i as int));
    true
}

/// Scans the branch `block` for index accesses into the local that `receiver` names.
pub fn scan_branch(t: &Tree, block: usize, receiver: usize) -> (r: ScanResult)
    requires
        t.wf(),
        block < t.len(),
        receiver < t.len(),
    ensures
        (r.safe, r.zero_accesses@) == scan_of(*t, block as int, receiver as int),
{
    let d = match path_to_local(t, receiver) {
        Some(d) => d,
        None => {
            return ScanResult { safe: false, zero_accesses: Vec::new() };
        },
    };
    let mut found: Vec<usize> = Vec::new();
    if visit(t, block, d, &mut found) && found.len() > 0 {
        assert(found@ == accesses(*t, d, block as int));
        ScanResult { safe: true, zero_accesses: found }
    } else {
        ScanResult { safe: false, zero_accesses: Vec::new() }
    }
}

/// In a branch that scanning found safe, every index access into the receiver's local,
/// nested closures included, has an index that folds to zero.
pub proof fn lemma_safe_scan_sound(t: Tree, block: int, receiver: int, n: int)
    requires
        t.wf(),
        0 <= n < t.len(),
        scan_of(t, block, receiver).0,
        preorder(t, block).contains(n as usize),
        t.kind(n) matches ExprKind::Index(base, _) && local_of(t, base as int) == local_of(
            t,
            receiver,
        ),
    ensures
        index_value(t, n) == Some(0u128),
{
    let d = local_of(t, receiver)->0;
    let pred = indexes_pred(t, d);
    let m = choose|m: int| 0 <= m < preorder(t, block).len() && preorder(t, block)[m] == n as usize;
    assert(pred(preorder(t, block)[m]));
    assert(accesses(t, d, block).contains(n as usize));
    let k = choose|k: int| 0 <= k < accesses(t, d, block).len() && accesses(t, d, block)[k] == n as usize;
    assert(index_value(t, accesses(t, d, block)[k] as int) == Some(0u128));
}

} // verus!
