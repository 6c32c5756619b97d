use vstd::prelude::*;
use crate::dispatch::{clause_text, clauses};
use crate::pipeline::{entry_names, prepared};
use crate::sanitizer::{
    commented, is_abi_marker, is_emitter_impl, is_metering_call, is_promoted, is_runtime_ref,
    retract, run, sanitized, skipping, step, SanitizerState,
};
use crate::selector::{first_problem_from, problem_at, selector_text, table, PrepareError};

verus! {

/// Rewriting is deterministic: two runs on the same text either both succeed
/// with the same program, or both fail on the same name with the same error.
pub proof fn lemma_prepare_deterministic(
    a: Seq<char>,
    b: Seq<char>,
    ra: Result<String, PrepareError>,
    rb: Result<String, PrepareError>,
)
    requires
        a == b,
        prepared(a, ra),
        prepared(b, rb),
    ensures
        ra is Ok <==> rb is Ok,
        ra matches Ok(x) ==> rb matches Ok(y) && x@ == y@,
        ra matches Err(x) ==> rb matches Err(y) && same_error(x, y),
{
}

/// Two errors of the same kind about the same name.
pub open spec fn same_error(x: PrepareError, y: PrepareError) -> bool {
    match (x, y) {
        (PrepareError::NonAsciiName(s), PrepareError::NonAsciiName(t)) => s@ == t@,
        (PrepareError::DuplicateEntryPoint(s), PrepareError::DuplicateEntryPoint(t)) => s@ == t@,
        _ => false,
    }
}

proof fn lemma_no_problem_from(names: Seq<Seq<char>>, k: int)
    requires
        0 <= k,
        first_problem_from(names, k) is None,
    ensures
        forall|i: int| k <= i < names.len() ==> !problem_at(names, i),
    decreases names.len() - k,
{
    if k < names.len() {
        lemma_no_problem_from(names, k + 1);
    }
}

/// Where the rewrite of `src` succeeds, its dispatcher has one clause for each
/// entry-point name, in the order of the names, each guarded by that name's
/// selector, and no name appears twice.
pub proof fn lemma_one_clause_per_name(src: Seq<char>)
    requires
        first_problem_from(entry_names(src), 0) is None,
    ensures
        clauses(table(entry_names(src))).len() == entry_names(src).len(),
        forall|i: int|
            0 <= i < entry_names(src).len() ==> #[trigger] clauses(table(entry_names(src)))[i]
                == clause_text(selector_text(entry_names(src)[i]), entry_names(src)[i]),
        forall|i: int, j: int|
            0 <= i < entry_names(src).len() && 0 <= j < entry_names(src).len()
                && entry_names(src)[i] == entry_names(src)[j] ==> i == j,
{
    let names = entry_names(src);
    lemma_no_problem_from(names, 0);
    assert forall|i: int, j: int|
        0 <= i < names.len() && 0 <= j < names.len() && names[i] == names[j] implies i == j by {
        if i < j {
            assert(problem_at(names, j));
        } else if j < i {
            assert(problem_at(names, i));
        }
    }
}

/// A line that declares a piece of the interface or of the events is written
/// out as a comment of itself, and never dropped, unless everything is being
/// dropped; outside a skip it leaves the state as it was.
pub proof fn lemma_abi_marker_commented(st: SanitizerState, out: Seq<Seq<char>>, l: Seq<char>)
    requires
        is_abi_marker(l),
        st != SanitizerState::SkipToEnd,
    ensures
        step(st, out, l).1 == out.push(commented(l)),
        !skipping(st) ==> step(st, out, l).0 == st,
{
}

/// The fee-metering call and the line after it both come out as comments, in
/// place of the line written just before the call, and the line after them is
/// again read in the normal state.
pub proof fn lemma_metering_pair(
    st: SanitizerState,
    out: Seq<Seq<char>>,
    call: Seq<char>,
    next: Seq<char>,
)
    requires
        !skipping(st),
        st != SanitizerState::SkipToEnd,
        !is_abi_marker(call),
        is_metering_call(call),
    ensures
        ({
            let (s1, o1) = step(st, out, call);
            let (s2, o2) = step(s1, o1, next);
            s2 == SanitizerState::Normal && o2 == retract(out).push(commented(call)).push(
                commented(next),
            )
        }),
{
}

proof fn lemma_run_concat(st: SanitizerState, out: Seq<Seq<char>>, a: Seq<Seq<char>>, b: Seq<Seq<char>>)
    ensures
        run(st, out, a + b) == run(run(st, out, a).0, run(st, out, a).1, b),
    decreases a.len(),
{
    if a.len() > 0 {
        let (s1, o1) = step(st, out, a[0]);
        assert((a + b).drop_first() =~= a.drop_first() + b);
        lemma_run_concat(s1, o1, a.drop_first(), b);
    } else {
        assert(a + b =~= b);
    }
}

proof fn lemma_run_dropping(out: Seq<Seq<char>>, b: Seq<Seq<char>>)
    ensures
        run(SanitizerState::SkipToEnd, out, b) == (SanitizerState::SkipToEnd, out),
    decreases b.len(),
{
    if b.len() > 0 {
        lemma_run_dropping(out, b.drop_first());
    }
}

/// Once the event emitter's implementation opens, read in a state that skips
/// nothing, no later line reaches the sanitized output.
pub proof fn lemma_nothing_after_emitter(a: Seq<Seq<char>>, e: Seq<char>, b: Seq<Seq<char>>)
    requires
        !skipping(run(SanitizerState::Normal, Seq::empty(), a).0),
        run(SanitizerState::Normal, Seq::empty(), a).0 != SanitizerState::SkipToEnd,
        is_emitter_impl(e),
        !is_abi_marker(e),
        !is_metering_call(e),
        !is_promoted(e),
        !is_runtime_ref(e),
    ensures
        sanitized(a.push(e) + b) == sanitized(a.push(e)),
{
    let (s0, o0) = run(SanitizerState::Normal, Seq::empty(), a);
    lemma_run_concat(SanitizerState::Normal, Seq::empty(), a, seq![e]);
    assert(a + seq![e] =~= a.push(e));
    assert(seq![e].drop_first() =~= Seq::<Seq<char>>::empty());
    let (s2, o2) = step(s0, o0, e);
    assert(run(s2, o2, seq![e].drop_first()) == (s2, o2));
    assert(run(s0, o0, seq![e]) == step(s0, o0, e));
    lemma_run_concat(SanitizerState::Normal, Seq::empty(), a.push(e), b);
    lemma_run_dropping(o0.push(commented(e)), b);
}

} // verus!
