//! The simple step-list description of a flow and its checks.
use vstd::prelude::*;
use crate::contract::{checked, FlowErrorV, FlowValidationError};
use crate::search::{first_index, lemma_first_index_at, lemma_first_index_none};
use crate::text::{blank, is_blank, owned, same_text};

verus! {

/// High level description of a flow that can be executed by the runtime.
#[derive(Debug, Clone, PartialEq, Eq)]
pub struct FlowDefinition {
    pub name: String,
    pub version: u32,
    pub steps: Vec<FlowStep>,
}

/// Individual step within a flow.
#[derive(Debug, Clone, PartialEq, Eq)]
pub struct FlowStep {
    pub id: String,
    pub description: String,
}

/// Whether the step at `i` repeats the id of an earlier step.
pub open spec fn repeats_earlier_id(steps: Seq<FlowStep>, i: int) -> bool {
    exists|j: int| 0 <= j < i && #[trigger] steps[j].id@ == steps[i].id@
}

/// The first step whose id was already used.
pub open spec fn first_duplicate(steps: Seq<FlowStep>) -> Option<int> {
    first_index(steps.len(), |i: int| repeats_earlier_id(steps, i))
}

/// What `FlowDefinition::validate` decides.
pub open spec fn definition_check(d: FlowDefinition) -> Result<(), FlowErrorV> {
    if blank(d.name@) {
        Err(FlowErrorV::EmptyName)
    } else {
        match first_duplicate(d.steps@) {
            Some(i) => Err(FlowErrorV::DuplicateStepId(d.steps@[i].id@)),
            None => Ok(()),
        }
    }
}

impl FlowDefinition {
    /// Construct a new flow definition.
    pub fn new(name: &str, version: u32, steps: Vec<FlowStep>) -> (d: Self)
        ensures
            d.name@ == name@,
            d.version == version,
            d.steps == steps,
    {
        FlowDefinition { name: owned(name), version, steps }
    }

    /// A flow needs a non-blank name and distinct step ids.
    #[verifier::loop_isolation(false)]
    pub fn validate(&self) -> (r: Result<(), FlowValidationError>)
        ensures
            checked(r) == definition_check(*self),
    {
        if is_blank(self.name.as_str()) {
            return Err(FlowValidationError::EmptyName);
        }
        let steps = &self.steps;
        let ghost dup = |k: int| repeats_earlier_id(steps@, k);
        let mut i: usize = 0;
        while i < steps.len()
            invariant
                i <= steps@.len(),
                dup == (|k: int| repeats_earlier_id(steps@, k)),
                forall|k: int| 0 <= k < i ==> !#[trigger] dup(k),
            decreases steps@.len() - i,
        {
            let mut j: usize = 0;
            while j < i
                invariant
                    j <= i < steps@.len(),
                    forall|m: int| 0 <= m < j ==> steps@[m].id@ != steps@[i as int].id@,
                decreases i - j,
            {
                if same_text(steps[j].id.as_str(), steps[i].id.as_str()) {
                    proof {
                        assert(steps@[j as int].id@ == steps@[i as int].id@);
                        assert(repeats_earlier_id(steps@, i as int));
                        assert(dup(i as int));
                        lemma_first_index_at(steps@.len(), dup, i as int);
                    }
                    return Err(FlowValidationError::DuplicateStepId(steps[i].id.clone()));
                }
                j = j + 1;
            }
            assert(!dup(i as int));
            i = i + 1;
        }
        proof {
            lemma_first_index_none(steps@.len(), dup);
        }
        Ok(())
    }
}

impl FlowStep {
    pub fn new(id: &str, description: &str) -> (s: Self)
        ensures
            s.id@ == id@,
            s.description@ == description@,
    {
        FlowStep { id: owned(id), description: owned(description) }
    }
}

}
