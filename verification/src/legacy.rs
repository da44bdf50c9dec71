//! The step-list runtime: validate a definition once, then execute it.
use vstd::prelude::*;
use crate::contract::{checked, FlowValidationError};
use crate::simple::{definition_check, first_duplicate, repeats_earlier_id, FlowDefinition, FlowStep};
use crate::text::{concat, decimal, owned, u64_text};

verus! {

/// Represents a runtime that can execute a validated flow definition.
#[derive(Debug, Clone)]
pub struct FlowRuntime {
    definition: FlowDefinition,
}

/// Result of executing a flow.
#[derive(Debug, Clone, PartialEq, Eq)]
pub struct ExecutionOutcome {
    pub flow_name: String,
    pub trace: Vec<String>,
    pub succeeded: bool,
}

/// The trace line a step leaves for a payload.
pub open spec fn trace_line(id: Seq<char>, payload: Seq<char>) -> Seq<char> {
    id + ": handled "@ + payload
}

/// The line a summary reads.
pub open spec fn summary_text(name: Seq<char>, steps: nat, succeeded: bool) -> Seq<char> {
    name + ": "@ + decimal(steps) + " steps (success="@ + (if succeeded {
        "true"@
    } else {
        "false"@
    }) + ")"@
}

impl FlowRuntime {
    pub closed spec fn spec_definition(&self) -> FlowDefinition {
        self.definition
    }

    /// Construct a runtime from a flow definition, validating it on the way in.
    pub fn from_definition(definition: FlowDefinition) -> (r: Result<Self, FlowValidationError>)
        ensures
            match r {
                Ok(rt) => definition_check(definition) is Ok && rt.spec_definition() == definition,
                Err(e) => definition_check(definition) == Err::<(), _>(e@),
            },
    {
        let v = definition.validate();
        match v {
            Ok(()) => Ok(FlowRuntime { definition }),
            Err(e) => Err(e),
        }
    }

    /// Execute the flow against some inbound payload: every step, in order,
    /// handles the payload and leaves one trace line.
    pub fn execute(&self, payload: &str) -> (o: ExecutionOutcome)
        ensures
            o.flow_name@ == self.spec_definition().name@,
            o.succeeded,
            o.trace@.len() == self.spec_definition().steps@.len(),
            forall|i: int|
                0 <= i < o.trace@.len() ==> #[trigger] o.trace@[i]@ == trace_line(
                    self.spec_definition().steps@[i].id@,
                    payload@,
                ),
    {
        let steps = &self.definition.steps;
        let mut trace: Vec<String> = Vec::new();
        let mut i: usize = 0;
        while i < steps.len()
            invariant
                i <= steps@.len(),
                trace@.len() == i,
                forall|k: int|
                    0 <= k < i ==> #[trigger] trace@[k]@ == trace_line(steps@[k].id@, payload@),
            decreases steps@.len() - i,
        {
            let head = concat(steps[i].id.as_str(), ": handled ");
            let line = concat(head.as_str(), payload);
            trace.push(line);
            i = i + 1;
        }
        ExecutionOutcome { flow_name: self.definition.name.clone(), trace, succeeded: true }
    }

    /// Access the definition used by this runtime.
    pub fn definition(&self) -> (d: &FlowDefinition)
        ensures
            *d == self.spec_definition(),
    {
        &self.definition
    }
}

impl ExecutionOutcome {
    /// "<flow>: <n> steps (success=<bool>)".
    pub fn summary(&self) -> (s: String)
        ensures
            s@ == summary_text(self.flow_name@, self.trace@.len(), self.succeeded),
    {
        let a = concat(self.flow_name.as_str(), ": ");
        let n = u64_text(self.trace.len() as u64);
        let b = concat(a.as_str(), n.as_str());
        let c = concat(b.as_str(), " steps (success=");
        let d = if self.succeeded {
            concat(c.as_str(), "true")
        } else {
            concat(c.as_str(), "false")
        };
        concat(d.as_str(), ")")
    }
}

/// The steps a list of `(id, description)` pairs describes.
pub open spec fn steps_from_pairs(pairs: Seq<(&str, &str)>, steps: Seq<FlowStep>) -> bool {
    &&& steps.len() == pairs.len()
    &&& forall|i: int|
        0 <= i < pairs.len() ==> #[trigger] steps[i].id@ == pairs[i].0@ && steps[i].description@
            == pairs[i].1@
}

/// Quickly construct a runtime from simple step descriptions.
pub fn runtime_from_steps(name: &str, version: u32, steps: &[(&str, &str)]) -> (r: Result<
    FlowRuntime,
    FlowValidationError,
>)
    ensures
        match r {
            Ok(rt) => {
                &&& rt.spec_definition().name@ == name@
                &&& rt.spec_definition().version == version
                &&& steps_from_pairs(steps@, rt.spec_definition().steps@)
                &&& definition_check(rt.spec_definition()) is Ok
            },
            Err(e) => exists|d: FlowDefinition|
                d.name@ == name@ && d.version == version && steps_from_pairs(steps@, d.steps@)
                    && definition_check(d) == Err::<(), _>(e@),
        },
{
    let mut list: Vec<FlowStep> = Vec::new();
    let mut i: usize = 0;
    while i < steps.len()
        invariant
            i <= steps@.len(),
            list@.len() == i,
            forall|k: int|
                0 <= k < i ==> #[trigger] list@[k].id@ == steps@[k].0@ && list@[k].description@
                    == steps@[k].1@,
        decreases steps@.len() - i,
    {
        let (id, description) = steps[i];
        list.push(FlowStep::new(id, description));
        i = i + 1;
    }
    let d = FlowDefinition::new(name, version, list);
    let r = FlowRuntime::from_definition(d);
    proof {
        if r is Err {
            assert(steps_from_pairs(steps@, d.steps@));
        }
    }
    r
}

/// Building a runtime from `(id, description)` pairs decides as validating a
/// definition built from the same name and pairs: any two definitions with the
/// same name and steps from the same pairs pass or fail alike, with the same
/// error, so `runtime_from_steps` and `FlowRuntime::from_definition` agree.
pub proof fn law_steps_agree(d1: FlowDefinition, d2: FlowDefinition, pairs: Seq<(&str, &str)>)
    requires
        d1.name@ == d2.name@,
        steps_from_pairs(pairs, d1.steps@),
        steps_from_pairs(pairs, d2.steps@),
    ensures
        definition_check(d1) == definition_check(d2),
{
    let s1 = d1.steps@;
    let s2 = d2.steps@;
    assert forall|i: int| 0 <= i < s1.len() implies s1[i].id@ == #[trigger] s2[i].id@ by {
        assert(s1[i].id@ == pairs[i].0@);
        assert(s2[i].id@ == pairs[i].0@);
    }
    let p = |i: int| repeats_earlier_id(s1, i);
    let q = |i: int| repeats_earlier_id(s2, i);
    assert forall|i: int| 0 <= i < s1.len() implies #[trigger] p(i) == q(i) by {
        if repeats_earlier_id(s1, i) {
            let j = choose|j: int| 0 <= j < i && #[trigger] s1[j].id@ == s1[i].id@;
            assert(s2[j].id@ == s2[i].id@);
        }
        if repeats_earlier_id(s2, i) {
            let j = choose|j: int| 0 <= j < i && #[trigger] s2[j].id@ == s2[i].id@;
            assert(s1[j].id@ == s1[i].id@);
        }
    }
    crate::search::lemma_first_index_ext(s1.len(), p, q);
    assert(first_duplicate(s1) == first_duplicate(s2));
    crate::search::lemma_first_index(s1.len(), p);
}

}
