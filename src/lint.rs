//! The lint's entry point: from an emptiness-check call to a finding with its fix.
use vstd::prelude::*;
use vstd::string::StringSliceAdditionalSpecFns;

use crate::guard::{branch_of, get_higher_if, guard_of};
use crate::scan::{index_value, indexes_local, local_of, scan_branch, scan_of, ScanResult};
use crate::suggest::{is_suggestion, make_suggestion, suggestable, Suggestion};
use crate::tree::{ExprKind, Span, Tree};

verus! {

broadcast use vstd::seq_lib::group_filter_ensures;

/// The message reported with each finding.
pub const MESSAGE: &'static str = "this `if` condition could be replaced with an `if let` pattern with `.first()`";

/// A finding: the condition it is anchored at, and the fix.
#[derive(Clone, Debug)]
pub struct Finding {
    pub span: Span,
    pub suggestion: Suggestion,
}

/// The bytes of the method name `is_empty`.
pub open spec fn is_empty_name() -> Seq<u8> {
    seq![105u8, 115u8, 95u8, 101u8, 109u8, 112u8, 116u8, 121u8]
}

/// Whether the call at `call`, to the method whose name has bytes `name`, on the
/// receiver `receiver`, is reported: it is an emptiness check that governs a
/// conditional, the branch that runs on a non-empty sequence is safe to rewrite, and
/// the suggestion can be built.
pub open spec fn reported(t: Tree, call: int, name: Seq<u8>, receiver: int, src: Seq<char>) -> bool {
    &&& name == is_empty_name()
    &&& guard_of(t, call) matches Some(g)
    &&& branch_of(t, g) matches Some(b)
    &&& scan_of(t, b as int, receiver).0
    &&& suggestable(t, g, receiver, scan_of(t, b as int, receiver).1, src)
}

/// Whether `name` is `is_empty`.
pub fn is_emptiness_check(name: &str) -> (r: bool)
    ensures
        r == (name.spec_bytes() == is_empty_name()),
{
    let b = name.as_bytes();
    let r = b.len() == 8 && b[0] == 105u8 && b[1] == 115u8 && b[2] == 95u8 && b[3] == 101u8
        && b[4] == 109u8 && b[5] == 112u8 && b[6] == 116u8 && b[7] == 121u8;
    assert(r ==> b@ == is_empty_name());
    r
}

/// Checks the method call at `call`, named `method_name`, on `receiver`: reports the
/// governing conditional when its non-empty branch indexes the receiver at zero only.
pub fn check(t: &Tree, call: usize, method_name: &str, receiver: usize, src: &Vec<char>) -> (r:
    Option<Finding>)
    requires
        t.wf(),
        call < t.len(),
        receiver < t.len(),
    ensures
        r is Some <==> reported(*t, call as int, method_name.spec_bytes(), receiver as int, src@),
        r matches Some(f) ==> {
            let g = guard_of(*t, call as int)->0;
            let b = branch_of(*t, g)->0;
            &&& f.span == f.suggestion.cond_span
            &&& is_suggestion(
                f.suggestion,
                *t,
                g,
                receiver as int,
                scan_of(*t, b as int, receiver as int).1,
                src@,
            )
        },
{
    if !is_emptiness_check(method_name) {
        return None;
    }
    let parent_if = get_higher_if(t, call)?;
    let block = parent_if.block_to_visit(t)?;
    let scan: ScanResult = scan_branch(t, block, receiver);
    if !scan.safe {
        return None;
    }
    assert forall|k: int| 0 <= k < scan.zero_accesses@.len() implies #[trigger] scan.zero_accesses@[k] < t.len() by {
        let d = local_of(*t, receiver as int)->0;
        assert(indexes_local(*t, d, scan.zero_accesses@[k] as int));
    }
    let suggestion = make_suggestion(t, &parent_if, receiver, &scan.zero_accesses, src)?;
    Some(Finding { span: suggestion.cond_span, suggestion })
}

/// Where no index access into the receiver's local folds to zero (as after the
/// rewrite), nothing is reported, however often the check runs.
pub proof fn lemma_rewritten_not_reported(
    t: Tree,
    call: int,
    name: Seq<u8>,
    receiver: int,
    src: Seq<char>,
)
    requires
        t.wf(),
        forall|n: int|
            0 <= n < t.len() && (t.kind(n) matches ExprKind::Index(base, _) && local_of(
                t,
                base as int,
            ) is Some && local_of(t, base as int) == local_of(t, receiver)) ==> index_value(
                t,
                n,
            ) != Some(0u128),
    ensures
        !reported(t, call, name, receiver, src),
{
    if reported(t, call, name, receiver, src) {
        let g = guard_of(t, call)->0;
        let b = branch_of(t, g)->0;
        let d = local_of(t, receiver)->0;
        let acc = crate::scan::accesses(t, d, b as int);
        assert(indexes_local(t, d, acc[0] as int));
        assert(index_value(t, acc[0] as int) == Some(0u128));
    }
}

} // verus!
