//! Conformance checks over the step-list runtime.
use vstd::prelude::*;
use crate::legacy::{ExecutionOutcome, FlowRuntime};
use crate::text::same_text;

verus! {

/// Whether two outcomes read the same: same flow name, same trace lines in
/// the same order, same success flag.
pub open spec fn same_outcome(a: ExecutionOutcome, b: ExecutionOutcome) -> bool {
    &&& a.flow_name@ == b.flow_name@
    &&& a.succeeded == b.succeeded
    &&& a.trace@.len() == b.trace@.len()
    &&& forall|i: int| 0 <= i < a.trace@.len() ==> #[trigger] a.trace@[i]@ == b.trace@[i]@
}

fn outcomes_equal(a: &ExecutionOutcome, b: &ExecutionOutcome) -> (r: bool)
    ensures
        r == same_outcome(*a, *b),
{
    if !same_text(a.flow_name.as_str(), b.flow_name.as_str()) || a.succeeded != b.succeeded
        || a.trace.len() != b.trace.len() {
        return false;
    }
    let mut i: usize = 0;
    while i < a.trace.len()
        invariant
            i <= a.trace@.len(),
            a.trace@.len() == b.trace@.len(),
            forall|k: int| 0 <= k < i ==> #[trigger] a.trace@[k]@ == b.trace@[k]@,
        decreases a.trace@.len() - i,
    {
        if !same_text(a.trace[i].as_str(), b.trace[i].as_str()) {
            return false;
        }
        i = i + 1;
    }
    true
}

/// Simple idempotency check for a flow runtime: executing the same payload
/// twice gives the same outcome, which holds of every runtime and payload.
pub fn is_idempotent(runtime: &FlowRuntime, payload: &str) -> (r: bool)
    ensures
        r,
{
    let first = runtime.execute(payload);
    let second = runtime.execute(payload);
    outcomes_equal(&first, &second)
}

/// Whether no trace line occurs twice.
pub open spec fn unique_lines(trace: Seq<String>) -> bool {
    forall|i: int, j: int| 0 <= i < j < trace.len() ==> #[trigger] trace[i]@ != #[trigger] trace[j]@
}

/// Verify that all steps in the execution trace are unique.
#[verifier::loop_isolation(false)]
pub fn has_unique_trace(outcome: &ExecutionOutcome) -> (r: bool)
    ensures
        r == unique_lines(outcome.trace@),
{
    let trace = &outcome.trace;
    let mut j: usize = 0;
    while j < trace.len()
        invariant
            j <= trace@.len(),
            forall|a: int, b: int| 0 <= a < b < j ==> #[trigger] trace@[a]@ != #[trigger] trace@[b]@,
        decreases trace@.len() - j,
    {
        let mut i: usize = 0;
        while i < j
            invariant
                i <= j < trace@.len(),
                forall|a: int| 0 <= a < i ==> #[trigger] trace@[a]@ != trace@[j as int]@,
            decreases j - i,
        {
            if same_text(trace[i].as_str(), trace[j].as_str()) {
                assert(trace@[i as int]@ == trace@[j as int]@);
                assert(!unique_lines(outcome.trace@));
                return false;
            }
            i = i + 1;
        }
        j = j + 1;
    }
    true
}

}
