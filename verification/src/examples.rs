//! Sample flows on the step-list runtime: weather, orders and FAQ.
use vstd::prelude::*;
use crate::contract::FlowValidationError;
use crate::legacy::{runtime_from_steps, steps_from_pairs, FlowRuntime};
use crate::simple::{definition_check, first_duplicate, repeats_earlier_id, FlowDefinition, FlowStep};
use crate::text::{blank, is_ws};

verus! {

/// The steps of a definition as `(id, description)` pairs.
pub open spec fn step_pairs(steps: Seq<FlowStep>) -> Seq<(Seq<char>, Seq<char>)> {
    steps.map_values(|s: FlowStep| (s.id@, s.description@))
}

/// A runtime holding the definition with this name, version 1 and these steps.
pub open spec fn sample_runtime(rt: FlowRuntime, name: Seq<char>, steps: Seq<(Seq<char>, Seq<char>)>) -> bool {
    &&& rt.spec_definition().name@ == name
    &&& rt.spec_definition().version == 1
    &&& step_pairs(rt.spec_definition().steps@) == steps
}

/// A definition with a name that is not blank and distinct step ids is valid.
proof fn lemma_distinct_ids_valid(d: FlowDefinition)
    requires
        !blank(d.name@),
        forall|i: int, j: int| 0 <= i < j < d.steps@.len() ==> d.steps@[i].id@ != d.steps@[j].id@,
    ensures
        definition_check(d) is Ok,
{
    let s = d.steps@;
    let p = |i: int| repeats_earlier_id(s, i);
    assert forall|k: int| 0 <= k < s.len() implies !#[trigger] p(k) by {
        if repeats_earlier_id(s, k) {
            let j = choose|j: int| 0 <= j < k && #[trigger] s[j].id@ == s[k].id@;
            assert(s[j].id@ != s[k].id@);
        }
    }
    crate::search::lemma_first_index_none(s.len(), p);
    assert(first_duplicate(s) is None);
}

/// Builds a sample runtime from the pairs, which name distinct steps, under a
/// name that is not blank.
fn sample(name: &str, pairs: &[(&str, &str)]) -> (r: Result<FlowRuntime, FlowValidationError>)
    requires
        !blank(name@),
        forall|i: int, j: int| 0 <= i < j < pairs@.len() ==> pairs@[i].0@ != pairs@[j].0@,
    ensures
        r matches Ok(rt) && rt.spec_definition().name@ == name@ && rt.spec_definition().version == 1
            && step_pairs(rt.spec_definition().steps@) == pairs@.map_values(|p: (&str, &str)| (p.0@, p.1@)),
{
    let r = runtime_from_steps(name, 1, pairs);
    match &r {
        Ok(rt) => {
            proof {
                let steps = rt.spec_definition().steps@;
                assert(steps_from_pairs(pairs@, steps));
                assert(step_pairs(steps) =~= pairs@.map_values(|p: (&str, &str)| (p.0@, p.1@)));
            }
        },
        Err(e) => {
            proof {
                let d = choose|d: FlowDefinition|
                    d.name@ == name@ && d.version == 1 && steps_from_pairs(pairs@, d.steps@)
                        && definition_check(d) == Err::<(), _>(e@);
                assert forall|i: int, j: int| 0 <= i < j < d.steps@.len() implies d.steps@[i].id@ != d.steps@[j].id@ by {
                    assert(d.steps@[i].id@ == pairs@[i].0@);
                    assert(d.steps@[j].id@ == pairs@[j].0@);
                }
                lemma_distinct_ids_valid(d);
            }
        },
    }
    r
}

/// The weather flow: fetch telemetry, enrich it into a summary, render it.
pub fn weather_flow() -> (r: Result<FlowRuntime, FlowValidationError>)
    ensures
        r matches Ok(rt) && sample_runtime(
            rt,
            "weather"@,
            seq![
                ("fetch"@, "Pull weather telemetry"@),
                ("enrich"@, "Aggregate data into summary"@),
                ("render"@, "Render client payload"@),
            ],
        ),
{
    proof {
        reveal_strlit("weather");
        reveal_strlit("fetch");
        reveal_strlit("enrich");
        reveal_strlit("render");
        assert(!is_ws("weather"@[0]));
    }
    let mut pairs: Vec<(&str, &str)> = Vec::new();
    pairs.push(("fetch", "Pull weather telemetry"));
    pairs.push(("enrich", "Aggregate data into summary"));
    pairs.push(("render", "Render client payload"));
    assert(pairs@[0].0@[0] != pairs@[1].0@[0] && pairs@[0].0@[0] != pairs@[2].0@[0] && pairs@[1].0@[0] != pairs@[2].0@[0]);
    let r = sample("weather", pairs.as_slice());
    assert(pairs@.map_values(|p: (&str, &str)| (p.0@, p.1@)) =~= seq![
        ("fetch"@, "Pull weather telemetry"@),
        ("enrich"@, "Aggregate data into summary"@),
        ("render"@, "Render client payload"@),
    ]);
    r
}

/// The order flow: receive the request, reserve inventory, confirm.
pub fn order_flow() -> (r: Result<FlowRuntime, FlowValidationError>)
    ensures
        r matches Ok(rt) && sample_runtime(
            rt,
            "orders"@,
            seq![
                ("ingest"@, "Receive order request"@),
                ("reserve"@, "Reserve inventory"@),
                ("confirm"@, "Send confirmation"@),
            ],
        ),
{
    proof {
        reveal_strlit("orders");
        reveal_strlit("ingest");
        reveal_strlit("reserve");
        reveal_strlit("confirm");
        assert(!is_ws("orders"@[0]));
    }
    let mut pairs: Vec<(&str, &str)> = Vec::new();
    pairs.push(("ingest", "Receive order request"));
    pairs.push(("reserve", "Reserve inventory"));
    pairs.push(("confirm", "Send confirmation"));
    assert(pairs@[0].0@[0] != pairs@[1].0@[0] && pairs@[0].0@[0] != pairs@[2].0@[0] && pairs@[1].0@[0] != pairs@[2].0@[0]);
    let r = sample("orders", pairs.as_slice());
    assert(pairs@.map_values(|p: (&str, &str)| (p.0@, p.1@)) =~= seq![
        ("ingest"@, "Receive order request"@),
        ("reserve"@, "Reserve inventory"@),
        ("confirm"@, "Send confirmation"@),
    ]);
    r
}

/// The FAQ flow: look the text up, format it for the channel.
pub fn faq_flow() -> (r: Result<FlowRuntime, FlowValidationError>)
    ensures
        r matches Ok(rt) && sample_runtime(
            rt,
            "faq"@,
            seq![("lookup"@, "Retrieve FAQ text"@), ("format"@, "Format for channel"@)],
        ),
{
    proof {
        reveal_strlit("faq");
        reveal_strlit("lookup");
        reveal_strlit("format");
        assert(!is_ws("faq"@[0]));
    }
    let mut pairs: Vec<(&str, &str)> = Vec::new();
    pairs.push(("lookup", "Retrieve FAQ text"));
    pairs.push(("format", "Format for channel"));
    assert(pairs@[0].0@[0] != pairs@[1].0@[0]);
    let r = sample("faq", pairs.as_slice());
    assert(pairs@.map_values(|p: (&str, &str)| (p.0@, p.1@)) =~= seq![
        ("lookup"@, "Retrieve FAQ text"@),
        ("format"@, "Format for channel"@),
    ]);
    r
}

} // verus!
