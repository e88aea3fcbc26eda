//! Building the replacement text for a conditional that can bind the first element.
use vstd::prelude::*;

use crate::guard::Guard;
use crate::tree::{ExprKind, Span, Tree};

verus! {

/// Whether `sp` lies within a source text of `len` characters.
pub open spec fn span_ok(sp: Span, len: nat) -> bool {
    sp.lo <= sp.hi <= len
}

/// The source text that `sp` covers.
pub open spec fn text_of(src: Seq<char>, sp: Span) -> Seq<char> {
    src.subrange(sp.lo as int, sp.hi as int)
}

/// Whether `spans` follow one another, without overlap, within `[lo, hi]`.
pub open spec fn fits(spans: Seq<Span>, lo: int, hi: int) -> bool
    decreases spans.len(),
{
    if spans.len() == 0 {
        lo <= hi
    } else {
        lo <= spans[0].lo <= spans[0].hi && fits(spans.drop_first(), spans[0].hi as int, hi)
    }
}

/// The name the first element is bound to.
pub open spec fn bound_name() -> Seq<char> {
    seq!['x']
}

/// The text of `src` from `lo` to `hi`, with each of `spans` replaced by the bound name.
pub open spec fn spliced(src: Seq<char>, lo: int, hi: int, spans: Seq<Span>) -> Seq<char>
    decreases spans.len(),
{
    if spans.len() == 0 {
        src.subrange(lo, hi)
    } else {
        src.subrange(lo, spans[0].lo as int) + bound_name() + spliced(
            src,
            spans[0].hi as int,
            hi,
            spans.drop_first(),
        )
    }
}

/// The new condition: bind the first element of the receiver when there is one.
pub open spec fn binding_text(recv: Seq<char>) -> Seq<char> {
    seq!['l', 'e', 't', ' ', 'S', 'o', 'm', 'e', '(', 'x', ')', ' ', '=', ' '] + recv + seq![
        '.',
        'f',
        'i',
        'r',
        's',
        't',
        '(',
        ')',
    ]
}

/// The spans of the nodes `ns`.
pub open spec fn spans_of(t: Tree, ns: Seq<usize>) -> Seq<Span> {
    ns.map_values(|n: usize| t.nodes@[n as int].span)
}

/// Replacement text for a conditional: each piece with the source range it replaces.
#[derive(Clone, Debug)]
pub struct Suggestion {
    pub cond_span: Span,
    pub cond_text: Vec<char>,
    pub then_span: Span,
    pub then_text: Vec<char>,
    pub else_span: Span,
    pub else_text: Vec<char>,
}

proof fn lemma_fits_bounded(spans: Seq<Span>, lo: int, hi: int)
    ensures
        fits(spans, lo, hi) ==> lo <= hi,
    decreases spans.len(),
{
    if spans.len() > 0 {
        lemma_fits_bounded(spans.drop_first(), spans[0].hi as int, hi);
    }
}

/// Appends `src[lo..hi]` to `out`.
fn push_range(out: &mut Vec<char>, src: &Vec<char>, lo: usize, hi: usize)
    requires
        lo <= hi <= src@.len(),
    ensures
        final(out)@ == old(out)@ + src@.subrange(lo as int, hi as int),
{
    let mut k: usize = lo;
    while k < hi
        invariant
            lo <= k <= hi <= src@.len(),
            out@ == old(out)@ + src@.subrange(lo as int, k as int),
        decreases hi - k,
    {
        out.push(src[k]);
        assert(src@.subrange(lo as int, k + 1) == src@.subrange(lo as int, k as int).push(
            src@[k as int],
        ));
        k = k + 1;
    }
}

/// The source text that `sp` covers, if it lies within `src`.
pub fn snippet(src: &Vec<char>, sp: Span) -> (r: Option<Vec<char>>)
    ensures
        r is Some <==> span_ok(sp, src@.len()),
        r is Some ==> r->0@ == text_of(src@, sp),
{
    if sp.lo <= sp.hi && sp.hi <= src.len() {
        let mut out = Vec::new();
        push_range(&mut out, src, sp.lo, sp.hi);
        assert(out@ == text_of(src@, sp));
        Some(out)
    } else {
        None
    }
}

/// The text of `src` inside `region`, with each of `spans` replaced by the bound name;
/// `None` unless the spans follow one another within the region, inside `src`.
pub fn splice(src: &Vec<char>, region: Span, spans: &Vec<Span>) -> (r: Option<Vec<char>>)
    ensures
        r is Some <==> (region.hi <= src@.len() && fits(
            spans@,
            region.lo as int,
            region.hi as int,
        )),
        r is Some ==> r->0@ == spliced(src@, region.lo as int, region.hi as int, spans@),
{
    if region.hi > src.len() {
        return None;
    }
    if region.lo > region.hi {
        proof {
            lemma_fits_bounded(spans@, region.lo as int, region.hi as int);
        }
        return None;
    }
    let hi = region.hi;
    let mut out: Vec<char> = Vec::new();
    let mut pos: usize = region.lo;
    let mut k: usize = 0;
    assert(spans@.skip(0) == spans@);
    assert(out@ + spliced(src@, pos as int, hi as int, spans@) == spliced(src@, pos as int, hi as int, spans@));
    while k < spans.len()
        invariant
            hi == region.hi <= src@.len(),
            0 <= k <= spans@.len(),
            pos <= src@.len(),
            fits(spans@, region.lo as int, hi as int) == fits(spans@.skip(k as int), pos as int, hi as int),
            fits(spans@.skip(k as int), pos as int, hi as int) ==> spliced(
                src@,
                region.lo as int,
                hi as int,
                spans@,
            ) == out@ + spliced(src@, pos as int, hi as int, spans@.skip(k as int)),
        decreases spans.len() - k,
    {
        let sp = spans[k];
        let ghost rest = spans@.skip(k as int);
        assert(rest[0] == sp);
        assert(rest.drop_first() == spans@.skip(k + 1));
        if !(pos <= sp.lo && sp.lo <= sp.hi && sp.hi <= hi) {
            proof {
                lemma_fits_bounded(rest.drop_first(), sp.hi as int, hi as int);
            }
            return None;
        }
        let ghost old_out = out@;
        let ghost old_pos = pos;
        push_range(&mut out, src, pos, sp.lo);
        out.push('x');
        pos = sp.hi;
        assert(spliced(src@, old_pos as int, hi as int, rest) == src@.subrange(
            old_pos as int,
            sp.lo as int,
        ) + bound_name() + spliced(src@, sp.hi as int, hi as int, rest.drop_first()));
        assert(out@ == old_out + src@.subrange(old_pos as int, sp.lo as int) + bound_name());
        k = k + 1;
    }
    assert(spans@.skip(k as int) == Seq::<Span>::empty());
    if pos > hi {
        return None;
    }
    push_range(&mut out, src, pos, hi);
    Some(out)
}

/// Whether a suggestion can be built for the conditional of `g`: it has both branches,
/// the receiver and all three parts lie within `src`, and the accesses `acc` follow one
/// another within the branch that runs on a non-empty sequence.
pub open spec fn suggestable(t: Tree, g: Guard, receiver: int, acc: Seq<usize>, src: Seq<char>) -> bool {
    match t.kind(g.if_node as int) {
        ExprKind::If(c, th, Some(el)) => {
            let live = if g.if_is_empty {
                el
            } else {
                th
            };
            let sp = t.nodes@[live as int].span;
            &&& span_ok(t.nodes@[receiver].span, src.len())
            &&& span_ok(t.nodes@[c as int].span, src.len())
            &&& span_ok(t.nodes@[th as int].span, src.len())
            &&& span_ok(t.nodes@[el as int].span, src.len())
            &&& fits(spans_of(t, acc), sp.lo as int, sp.hi as int)
        },
        _ => false,
    }
}

/// Whether `s` is the suggestion for the conditional of `g`: the condition becomes a
/// binding of the receiver's first element; the branch that runs on a non-empty
/// sequence becomes the new then-branch, with each access of `acc` replaced by the bound
/// name; the other branch becomes the new else-branch. So the branches trade places
/// exactly when the condition meant "is empty".
pub open spec fn is_suggestion(
    s: Suggestion,
    t: Tree,
    g: Guard,
    receiver: int,
    acc: Seq<usize>,
    src: Seq<char>,
) -> bool {
    match t.kind(g.if_node as int) {
        ExprKind::If(c, th, Some(el)) => {
            let th_sp = t.nodes@[th as int].span;
            let el_sp = t.nodes@[el as int].span;
            let spans = spans_of(t, acc);
            &&& s.cond_span == t.nodes@[c as int].span
            &&& s.cond_text@ == binding_text(text_of(src, t.nodes@[receiver].span))
            &&& s.then_span == th_sp
            &&& s.else_span == el_sp
            &&& g.if_is_empty ==> s.then_text@ == spliced(src, el_sp.lo as int, el_sp.hi as int, spans)
            &&& g.if_is_empty ==> s.else_text@ == text_of(src, th_sp)
            &&& !g.if_is_empty ==> s.then_text@ == spliced(src, th_sp.lo as int, th_sp.hi as int, spans)
            &&& !g.if_is_empty ==> s.else_text@ == text_of(src, el_sp)
        },
        _ => false,
    }
}

/// Builds the suggestion for the conditional of `g`, replacing the accesses
/// `zero_accesses` by the bound name; `None` where the parts cannot be had from `src`.
pub fn make_suggestion(
    t: &Tree,
    g: &Guard,
    receiver: usize,
    zero_accesses: &Vec<usize>,
    src: &Vec<char>,
) -> (r: Option<Suggestion>)
    requires
        t.wf(),
        g.if_node < t.len(),
        receiver < t.len(),
        forall|k: int| 0 <= k < zero_accesses@.len() ==> #[trigger] zero_accesses@[k] < t.len(),
    ensures
        r is Some <==> suggestable(*t, *g, receiver as int, zero_accesses@, src@),
        r is Some ==> is_suggestion(r->0, *t, *g, receiver as int, zero_accesses@, src@),
{
    let mut spans: Vec<Span> = Vec::new();
    let mut k: usize = 0;
    while k < zero_accesses.len()
        invariant
            0 <= k <= zero_accesses@.len(),
            forall|m: int| 0 <= m < zero_accesses@.len() ==> #[trigger] zero_accesses@[m] < t.len(),
            spans@ == spans_of(*t, zero_accesses@.take(k as int)),
        decreases zero_accesses.len() - k,
    {
        spans.push(t.nodes[zero_accesses[k]].span);
        assert(zero_accesses@.take(k + 1) == zero_accesses@.take(k as int).push(zero_accesses@[k as int]));
        assert(spans@ == spans_of(*t, zero_accesses@.take(k + 1)));
        k = k + 1;
    }
    assert(zero_accesses@.take(k as int) == zero_accesses@);
    let (c, th, el) = match &t.nodes[g.if_node].kind {
        ExprKind::If(c, th, Some(el)) => (*c, *th, *el),
        _ => {
            return None;
        },
    };
    assert(t.children(g.if_node as int)[0] == c);
    assert(t.children(g.if_node as int)[1] == th);
    assert(t.children(g.if_node as int)[2] == el);
    let caller = snippet(src, t.nodes[receiver].span)?;
    let cond_span = t.nodes[c].span;
    if !(cond_span.lo <= cond_span.hi && cond_span.hi <= src.len()) {
        return None;
    }
    let then_orig = snippet(src, t.nodes[th].span)?;
    let else_orig = snippet(src, t.nodes[el].span)?;
    let mut cond_text: Vec<char> = Vec::new();
    let ghost recv_text = caller@;
    let mut head = vec!['l', 'e', 't', ' ', 'S', 'o', 'm', 'e', '(', 'x', ')', ' ', '=', ' '];
    let mut caller = caller;
    let mut tail = vec!['.', 'f', 'i', 'r', 's', 't', '(', ')'];
    cond_text.append(&mut head);
    cond_text.append(&mut caller);
    cond_text.append(&mut tail);
    assert(cond_text@ == binding_text(recv_text));
    let (then_text, else_text) = if g.if_is_empty {
        (splice(src, t.nodes[el].span, &spans)?, then_orig)
    } else {
        (splice(src, t.nodes[th].span, &spans)?, else_orig)
    };
    Some(
        Suggestion {
            cond_span,
            cond_text,
            then_span: t.nodes[th].span,
            then_text,
            else_span: t.nodes[el].span,
            else_text,
        },
    )
}

} // verus!
