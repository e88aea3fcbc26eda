//! The expression tree that the lint reads, with its ancestor index and the facts the
//! surrounding compiler supplies: which local declaration an identifier names, and what
//! constant value an expression folds to.
use vstd::prelude::*;

verus! {

/// A half-open range `[lo, hi)` of character offsets into the source text.
#[derive(Clone, Copy, Debug, PartialEq, Eq, Structural)]
pub struct Span {
    pub lo: usize,
    pub hi: usize,
}

/// The kinds of expression the lint distinguishes. Children are node indices.
#[derive(Clone, Debug)]
pub enum ExprKind {
    /// A path naming the local declaration with the given identity.
    Local(u64),
    /// A leaf of any other kind: a literal, or a path that names no local.
    Leaf,
    /// Logical negation `!e`.
    Not(usize),
    /// A function call: callee and arguments.
    Call(usize, Vec<usize>),
    /// A method call: receiver and arguments.
    MethodCall(usize, Vec<usize>),
    /// An index access `base[index]`.
    Index(usize, usize),
    /// A conditional: condition, then-branch and optional else-branch.
    If(usize, usize, Option<usize>),
    /// A block of statements and expressions, in order.
    Block(Vec<usize>),
    /// A closure with its body.
    Closure(usize),
    /// Any other expression, with its sub-expressions.
    Other(Vec<usize>),
}

/// One expression node: its kind, where it stands in the source, and the unsigned
/// constant it folds to, if the constant folder found one.
#[derive(Clone, Debug)]
pub struct Expr {
    pub kind: ExprKind,
    pub span: Span,
    pub folded: Option<u128>,
}

/// The sub-expressions of an expression of kind `k`, in source order.
pub open spec fn children_of(k: ExprKind) -> Seq<usize> {
    match k {
        ExprKind::Local(_) => Seq::empty(),
        ExprKind::Leaf => Seq::empty(),
        ExprKind::Not(e) => seq![e],
        ExprKind::Call(f, args) => seq![f] + args@,
        ExprKind::MethodCall(r, args) => seq![r] + args@,
        ExprKind::Index(b, i) => seq![b, i],
        ExprKind::If(c, t, None) => seq![c, t],
        ExprKind::If(c, t, Some(e)) => seq![c, t, e],
        ExprKind::Block(stmts) => stmts@,
        ExprKind::Closure(body) => seq![body],
        ExprKind::Other(subs) => subs@,
    }
}

impl ExprKind {
    /// The sub-expressions, as a vector.
    pub fn children(&self) -> (r: Vec<usize>)
        ensures
            r@ == children_of(*self),
    {
        match self {
            ExprKind::Local(_) => Vec::new(),
            ExprKind::Leaf => Vec::new(),
            ExprKind::Not(e) => {
                let mut r = Vec::new();
                r.push(*e);
                r
            },
            ExprKind::Call(f, args) => {
                let mut r = Vec::new();
                r.push(*f);
                let mut more = args.clone();
                r.append(&mut more);
                r
            },
            ExprKind::MethodCall(recv, args) => {
                let mut r = Vec::new();
                r.push(*recv);
                let mut more = args.clone();
                r.append(&mut more);
                r
            },
            ExprKind::Index(b, i) => {
                let mut r = Vec::new();
                r.push(*b);
                r.push(*i);
                r
            },
            ExprKind::If(c, t, e) => {
                let mut r = Vec::new();
                r.push(*c);
                r.push(*t);
                match e {
                    Some(e) => r.push(*e),
                    None => {},
                }
                r
            },
            ExprKind::Block(stmts) => stmts.clone(),
            ExprKind::Closure(body) => {
                let mut r = Vec::new();
                r.push(*body);
                r
            },
            ExprKind::Other(subs) => subs.clone(),
        }
    }
}

/// An expression tree stored in an arena, with an ancestor index beside it.
///
/// Nodes are added children first, so every child has a smaller index than its parent.
#[derive(Clone, Debug)]
pub struct Tree {
    pub nodes: Vec<Expr>,
    pub parents: Vec<Option<usize>>,
}

impl Tree {
    pub open spec fn len(&self) -> nat {
        self.nodes@.len()
    }

    pub open spec fn kind(&self, i: int) -> ExprKind {
        self.nodes@[i].kind
    }

    pub open spec fn children(&self, i: int) -> Seq<usize> {
        children_of(self.nodes@[i].kind)
    }

    pub open spec fn parent(&self, i: int) -> Option<usize> {
        self.parents@[i]
    }

    /// Every child stands before its parent and is indexed back to it, and every
    /// recorded parent stands after its child.
    pub open spec fn wf(&self) -> bool {
        &&& self.parents@.len() == self.nodes@.len()
        &&& self.nodes@.len() <= usize::MAX
        &&& forall|i: int, j: int|
            0 <= i < self.len() && 0 <= j < self.children(i).len() ==> {
                &&& #[trigger] self.children(i)[j] < i
                &&& self.parents@[self.children(i)[j] as int] == Some(i as usize)
            }
        &&& forall|i: int|
            0 <= i < self.len() && #[trigger] self.parents@[i] is Some ==> i < self.parents@[i]->0
                < self.len()
    }

    /// An empty tree.
    pub fn new() -> (r: Tree)
        ensures
            r.wf(),
            r.len() == 0,
    {
        Tree { nodes: Vec::new(), parents: Vec::new() }
    }

    /// The number of nodes.
    pub fn size(&self) -> (r: usize)
        ensures
            r == self.len(),
    {
        self.nodes.len()
    }

    /// Adds a node above the given children and returns its index. Fails, leaving the
    /// tree as it was, when a child does not exist yet or already has a parent.
    pub fn push(&mut self, kind: ExprKind, span: Span, folded: Option<u128>) -> (r: Option<usize>)
        requires
            old(self).wf(),
        ensures
            final(self).wf(),
            r is Some <==> forall|j: int|
                0 <= j < children_of(kind).len() ==> {
                    &&& #[trigger] children_of(kind)[j] < old(self).len()
                    &&& old(self).parents@[children_of(kind)[j] as int] is None
                },
            r is Some ==> {
                &&& r->0 == old(self).len()
                &&& final(self).nodes@ == old(self).nodes@.push(
                    Expr { kind, span, folded },
                )
            },
            r is None ==> *final(self) == *old(self),
    {
        let cs = kind.children();
        let n = self.nodes.len();
        let mut j: usize = 0;
        while j < cs.len()
            invariant
                cs@ == children_of(kind),
                n == self.nodes@.len(),
                self.wf(),
                0 <= j <= cs@.len(),
                forall|k: int|
                    0 <= k < j ==> {
                        &&& #[trigger] cs@[k] < n
                        &&& self.parents@[cs@[k] as int] is None
                    },
            decreases cs.len() - j,
        {
            if cs[j] >= n || self.parents[cs[j]].is_some() {
                return None;
            }
            j = j + 1;
        }
        let ghost before = *self;
        self.nodes.push(Expr { kind, span, folded });
        self.parents.push(None);
        let mut k: usize = 0;
        while k < cs.len()
            invariant
                cs@ == children_of(kind),
                n == before.len(),
                self.nodes@ == before.nodes@.push(Expr { kind, span, folded }),
                self.parents@.len() == n + 1,
                self.parents@[n as int] is None,
                before.wf(),
                0 <= k <= cs@.len(),
                forall|i: int| 0 <= i < cs@.len() ==> #[trigger] cs@[i] < n,
                forall|i: int|
                    0 <= i < cs@.len() ==> before.parents@[#[trigger] cs@[i] as int] is None,
                forall|i: int| 0 <= i < k ==> self.parents@[#[trigger] cs@[i] as int] == Some(n),
                forall|x: int|
                    0 <= x < n ==> #[trigger] self.parents@[x] == before.parents@[x] || (
                    self.parents@[x] == Some(n) && before.parents@[x] is None),
            decreases cs.len() - k,
        {
            let c = cs[k];
            self.parents.set(c, Some(n));
            k = k + 1;
        }
        let _ = self.nodes.len();
        assert(self.children(n as int) == cs@);
        assert forall|i: int, j: int|
            0 <= i < self.len() && 0 <= j < self.children(i).len() implies {
                &&& #[trigger] self.children(i)[j] < i
                &&& self.parents@[self.children(i)[j] as int] == Some(i as usize)
            } by {
            if i < n {
                assert(self.children(i) == before.children(i));
                assert(before.children(i)[j] < i);
            }
        }
        Some(n)
    }
}

} // verus!
