//! Reading flow documents: the older form that lists nodes in an array is
//! upgraded to the keyed form, and what was loaded is validated.
use vstd::prelude::*;
use crate::contract::{flow_check, flow_keys_ordered, FlowErrorV, FlowSpec, FlowValidationError};
use crate::json::{
    entries_view, find_entry, items_view, lemma_entries_view, lemma_find_key, lemma_items_view, obj_get,
    obj_insert, Json, JsonV,
};
use crate::json_text::{json_text_parse, parse_json, parse_yaml, yaml_text_parse};
use crate::text::{concat, decimal, owned, u64_text};

verus! {

/// A loaded flow and whether its document listed its nodes in an array.
#[derive(Debug, Clone, PartialEq)]
pub struct LoadOutcome {
    pub spec: FlowSpec,
    pub deprecated_nodes_array: bool,
}

proof fn lemma_decimal_len(n: nat)
    ensures
        decimal(n).len() >= 1,
        n >= 1 ==> decimal(n).len() <= n,
        n < 10 ==> decimal(n).len() == 1,
        n >= 10 ==> decimal(n).len() == decimal(n / 10).len() + 1,
    decreases n,
{
    if n >= 10 {
        lemma_decimal_len(n / 10);
    }
}

/// The number of decimal digits of `count`.
pub fn digits(count: usize) -> (w: usize)
    ensures
        w == decimal(count as nat).len(),
{
    let mut n = count;
    let mut width: usize = 1;
    proof {
        lemma_decimal_len(n as nat);
        if n >= 10 {
            lemma_decimal_len((n / 10) as nat);
        }
    }
    while n >= 10
        invariant
            width + decimal(n as nat).len() - 1 == decimal(count as nat).len(),
            decimal(n as nat).len() >= 1,
            n < 10 ==> decimal(n as nat).len() == 1,
            n >= 10 ==> decimal(n as nat).len() >= 2,
            count >= 1 ==> decimal(count as nat).len() <= count,
            n >= 1 ==> count >= 1,
        decreases n,
    {
        proof {
            lemma_decimal_len(n as nat);
            lemma_decimal_len((n / 10) as nat);
            if n / 10 >= 10 {
                lemma_decimal_len((n / 100) as nat);
            }
        }
        width = width + 1;
        n = n / 10;
    }
    width
}

/// The width node keys are padded to: the digits of the node count from ten
/// nodes on, else none.
pub open spec fn pad_width(count: nat) -> nat {
    if count >= 10 {
        decimal(count).len()
    } else {
        1
    }
}

/// `s` with zeros in front up to width `w`.
pub open spec fn zero_padded(s: Seq<char>, w: nat) -> Seq<char> {
    if s.len() >= w {
        s
    } else {
        Seq::new((w - s.len()) as nat, |i: int| '0') + s
    }
}

/// The key of the `k`-th node (from 1): `n` and its number, zero-padded.
pub open spec fn node_key(k: nat, w: nat) -> Seq<char> {
    seq!['n'] + zero_padded(decimal(k), w)
}

/// Nodes listed in an array, keyed by position.
pub open spec fn keyed_nodes(items: Seq<JsonV>) -> Seq<(Seq<char>, JsonV)> {
    Seq::new(items.len(), |i: int| (node_key((i + 1) as nat, pad_width(items.len())), items[i]))
}

/// A flow document with nodes listed in an array turned into one with keyed
/// nodes, and whether it was.
pub open spec fn prepared(v: JsonV) -> (JsonV, bool) {
    match v {
        JsonV::Object(entries) => match obj_get(entries, "nodes"@) {
            Some(JsonV::Array(items)) => (
                JsonV::Object(obj_insert(entries, "nodes"@, JsonV::Object(keyed_nodes(items)))),
                true,
            ),
            _ => (v, false),
        },
        _ => (v, false),
    }
}

fn node_key_text(k: u64, w: usize) -> (s: String)
    ensures
        s@ == node_key(k as nat, w as nat),
{
    let num = u64_text(k);
    let mut cs: Vec<char> = Vec::new();
    cs.push('n');
    let n = crate::text::chars_of(num.as_str());
    if n.len() < w {
        let mut z: usize = 0;
        while z < w - n.len()
            invariant
                n@.len() < w,
                z <= w - n@.len(),
                cs@ == seq!['n'] + Seq::new(z as nat, |i: int| '0'),
            decreases w - n@.len() - z,
        {
            cs.push('0');
            z = z + 1;
            assert(cs@ =~= seq!['n'] + Seq::new(z as nat, |i: int| '0'));
        }
    }
    let ghost before = cs@;
    crate::text::push_range(&mut cs, &n, 0, n.len());
    proof {
        assert(n@.subrange(0, n@.len() as int) == n@);
        assert(cs@ =~= node_key(k as nat, w as nat));
    }
    crate::text::string_from_chars(cs.as_slice())
}

/// Upgrades a flow document whose nodes are listed in an array.
pub fn prepare_flow_value(value: Json) -> (r: (Json, bool))
    ensures
        (r.0@, r.1) == prepared(value@),
{
    proof {
        reveal_strlit("nodes");
    }
    let mut entries = match value {
        Json::Object(e) => e,
        other => {
            return (other, false);
        },
    };
    let ghost before = entries_view(entries@);
    let found = find_entry(&entries, "nodes");
    proof {
        lemma_entries_view(entries@);
        lemma_find_key(before, "nodes"@);
    }
    let i = match found {
        Some(i) => i,
        None => {
            return (Json::Object(entries), false);
        },
    };
    let mut slot = entries.remove(i);
    let mut taken = Json::Null;
    std::mem::swap(&mut taken, &mut slot.1);
    let items = match taken {
        Json::Array(items) => items,
        other => {
            slot.1 = other;
            entries.insert(i, slot);
            proof {
                lemma_entries_view(entries@);
                assert(entries_view(entries@) =~= before);
            }
            return (Json::Object(entries), false);
        },
    };
    let count = items.len();
    let pad: usize = if count >= 10 { digits(count) } else { 1 };
    let ghost iv = items_view(items@);
    proof {
        lemma_items_view(items@);
    }
    let mut keyed: Vec<(String, Json)> = Vec::new();
    let mut k: usize = 0;
    let mut rest = items;
    let ghost all = rest@;
    while k < count
        invariant
            k <= count,
            count == all.len(),
            pad as nat == pad_width(count as nat),
            iv == items_view(all),
            iv.len() == all.len(),
            forall|j: int| 0 <= j < all.len() ==> #[trigger] iv[j] == all[j]@,
            rest@ == all,
            keyed@.len() == k,
            forall|j: int| 0 <= j < k ==> #[trigger] entries_view(keyed@)[j] == keyed_nodes(iv)[j],
            entries_view(keyed@).len() == k,
        decreases count - k,
    {
        let key = node_key_text((k + 1) as u64, pad);
        let ghost kb = keyed@;
        let node = rest[k].clone();
        keyed.push((key, node));
        proof {
            crate::json::lemma_entries_view_push(kb, key, node);
        }
        k = k + 1;
    }
    proof {
        assert(entries_view(keyed@) =~= keyed_nodes(iv));
    }
    slot.1 = Json::Object(keyed);
    entries.insert(i, slot);
    proof {
        lemma_entries_view(entries@);
        assert(entries_view(entries@) =~= obj_insert(before, "nodes"@, JsonV::Object(keyed_nodes(iv))));
    }
    (Json::Object(entries), true)
}

/// The last step of loading a flow document, once its text was read and
/// upgraded and the flow taken from it: the flow is validated, and kept with
/// whether its document listed its nodes in an array.
pub fn finish_load(spec: FlowSpec, deprecated_nodes_array: bool) -> (r: Result<LoadOutcome, FlowValidationError>)
    requires
        flow_keys_ordered(spec),
    ensures
        match r {
            Ok(o) => flow_check(spec) is Ok && o.spec == spec && o.deprecated_nodes_array == deprecated_nodes_array,
            Err(e) => flow_check(spec) == Err::<(), FlowErrorV>(e@),
        },
{
    match spec.validate() {
        Ok(()) => Ok(LoadOutcome { spec, deprecated_nodes_array }),
        Err(e) => Err(e),
    }
}

impl LoadOutcome {
    /// The display form: `flow <id> (deprecated_nodes_array=<true|false>)`.
    pub fn display_text(&self) -> (s: String)
        ensures
            s@ == "flow "@ + self.spec.flow_id@ + " (deprecated_nodes_array="@
                + (if self.deprecated_nodes_array { "true"@ } else { "false"@ }) + ")"@,
    {
        let a = concat("flow ", self.spec.flow_id.as_str());
        let b = concat(a.as_str(), " (deprecated_nodes_array=");
        let c = if self.deprecated_nodes_array { concat(b.as_str(), "true") } else { concat(b.as_str(), "false") };
        concat(c.as_str(), ")")
    }
}

/// Reads a flow document from JSON text and upgrades it; nothing when the
/// text is not JSON.
pub fn prepare_flow_text(input: &str) -> (r: Option<(Json, bool)>)
    ensures
        match json_text_parse(input@) {
            Some(v) => r matches Some(p) && (p.0@, p.1) == prepared(v),
            None => r is None,
        },
{
    match parse_json(input) {
        Some(v) => Some(prepare_flow_value(v)),
        None => None,
    }
}

/// Reads a flow document from YAML text and upgrades it; nothing when the
/// text is not YAML that JSON can hold.
pub fn prepare_flow_yaml(input: &str) -> (r: Option<(Json, bool)>)
    ensures
        match yaml_text_parse(input@) {
            Some(v) => r matches Some(p) && (p.0@, p.1) == prepared(v),
            None => r is None,
        },
{
    match parse_yaml(input) {
        Some(v) => Some(prepare_flow_value(v)),
        None => None,
    }
}

}
