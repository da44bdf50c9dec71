//! The signature a flow publishes to the registry: id, version, intent, who
//! may call it, and what it takes and returns.
use vstd::prelude::*;
use crate::contract::{flow_keys_ordered, keys_ascending, FlowSpec, InSpec, NodeDef, OutSpec, ParamKind, ValidatorSpec};
use crate::json::{entries_view, insert_entry, json_view, obj_insert, Json, JsonV};
use crate::search::{first_index, lemma_first_index, lemma_first_index_at, lemma_first_index_none};
use crate::scope::opt_view;
use crate::text::{clone_texts, concat, decimal, owned, u64_text, views};
use crate::versions::{SemVer, SemVerV};

verus! {

/// Why a flow could not be published or looked up.
#[derive(Debug)]
pub enum AdapterError {
    MissingVersion { flow_id: String },
    MissingInNode { flow_id: String },
    MissingOutNode { flow_id: String },
    VersionReq { requirement: String, source: semver::Error },
    Registry(String),
}

/// How semver describes why it refused a text (`Display` of `semver::Error`).
/// What the description says is not stated here.
#[verifier::external_body]
fn semver_error_text(e: &semver::Error) -> String {
    e.to_string()
}

/// The description of an adapter failure, but for the tail semver gives to a
/// refused requirement.
pub open spec fn adapter_message_head(e: AdapterError) -> Seq<char> {
    match e {
        AdapterError::MissingVersion { flow_id } => "flow spec `"@ + flow_id@ + "` missing version"@,
        AdapterError::MissingInNode { flow_id } => "flow spec `"@ + flow_id@ + "` missing inbound node"@,
        AdapterError::MissingOutNode { flow_id } => "flow spec `"@ + flow_id@ + "` missing outbound node"@,
        AdapterError::VersionReq { requirement, source: _ } => "invalid version requirement `"@ + requirement@ + "`: "@,
        AdapterError::Registry(m) => "registry error: "@ + m@,
    }
}

impl AdapterError {
    pub fn registry(message: &str) -> (e: AdapterError)
        ensures
            e matches AdapterError::Registry(m) && m@ == message@,
    {
        AdapterError::Registry(owned(message))
    }

    /// The failure described in words; a refused requirement is followed by
    /// semver's own description.
    pub fn message(&self) -> (s: String)
        ensures
            self is VersionReq ==> s@.take(adapter_message_head(*self).len() as int) == adapter_message_head(*self),
            !(self is VersionReq) ==> s@ == adapter_message_head(*self),
    {
        proof {
            reveal_strlit("flow spec `");
            reveal_strlit("` missing version");
            reveal_strlit("` missing inbound node");
            reveal_strlit("` missing outbound node");
            reveal_strlit("invalid version requirement `");
            reveal_strlit("`: ");
            reveal_strlit("registry error: ");
        }
        match self {
            AdapterError::MissingVersion { flow_id } => {
                let a = concat("flow spec `", flow_id.as_str());
                concat(a.as_str(), "` missing version")
            },
            AdapterError::MissingInNode { flow_id } => {
                let a = concat("flow spec `", flow_id.as_str());
                concat(a.as_str(), "` missing inbound node")
            },
            AdapterError::MissingOutNode { flow_id } => {
                let a = concat("flow spec `", flow_id.as_str());
                concat(a.as_str(), "` missing outbound node")
            },
            AdapterError::VersionReq { requirement, source } => {
                let a = concat("invalid version requirement `", requirement.as_str());
                let b = concat(a.as_str(), "`: ");
                let tail = semver_error_text(source);
                let s = concat(b.as_str(), tail.as_str());
                assert(s@.take(b@.len() as int) =~= b@);
                s
            },
            AdapterError::Registry(m) => concat("registry error: ", m.as_str()),
        }
    }
}

/// A declared parameter or return with its texts as characters.
pub type ValidatorV = (ParamKind, bool, Option<Seq<char>>, Option<JsonV>);

pub open spec fn validator_view(v: ValidatorSpec) -> ValidatorV {
    (
        v.kind,
        v.required,
        opt_view(v.description),
        match v.default {
            Some(d) => Some(d@),
            None => None,
        },
    )
}

/// Declarations keyed by name, as characters.
pub open spec fn decls_view(d: Seq<(String, ValidatorSpec)>) -> Seq<(Seq<char>, ValidatorV)> {
    d.map_values(|e: (String, ValidatorSpec)| (e.0@, validator_view(e.1)))
}

/// A copy of one declaration.
pub fn clone_validator(v: &ValidatorSpec) -> (r: ValidatorSpec)
    ensures
        validator_view(r) == validator_view(*v),
{
    ValidatorSpec {
        kind: v.kind,
        required: v.required,
        description: crate::scope::clone_opt(&v.description),
        default: match &v.default {
            Some(d) => Some(d.clone()),
            None => None,
        },
    }
}

/// A copy of a list of declarations.
pub fn clone_decls(d: &Vec<(String, ValidatorSpec)>) -> (r: Vec<(String, ValidatorSpec)>)
    ensures
        decls_view(r@) == decls_view(d@),
{
    let mut r: Vec<(String, ValidatorSpec)> = Vec::new();
    let mut i: usize = 0;
    while i < d.len()
        invariant
            i <= d@.len(),
            r@.len() == i,
            forall|j: int| 0 <= j < i ==> #[trigger] r@[j].0@ == d@[j].0@ && validator_view(r@[j].1) == validator_view(d@[j].1),
        decreases d@.len() - i,
    {
        r.push((d[i].0.clone(), clone_validator(&d[i].1)));
        i = i + 1;
    }
    assert(decls_view(r@) =~= decls_view(d@));
    r
}

/// A kind as it is written in flow files.
pub open spec fn kind_word(kind: ParamKind) -> Seq<char> {
    match kind {
        ParamKind::String => "string"@,
        ParamKind::Integer => "integer"@,
        ParamKind::Number => "number"@,
        ParamKind::Boolean => "boolean"@,
        ParamKind::Object => "object"@,
        ParamKind::Array => "array"@,
    }
}

/// A declaration as JSON: `default` and `description` when set, then `kind`
/// and `required`.
pub open spec fn validator_json(v: ValidatorSpec) -> JsonV {
    let tail = seq![("kind"@, JsonV::Str(kind_word(v.kind))), ("required"@, JsonV::Bool(v.required))];
    let with_desc = match v.description {
        Some(d) => seq![("description"@, JsonV::Str(d@))] + tail,
        None => tail,
    };
    JsonV::Object(
        match v.default {
            Some(d) => seq![("default"@, d@)] + with_desc,
            None => with_desc,
        },
    )
}

/// Declarations as a JSON object keyed by name.
pub open spec fn decls_json(d: Seq<(String, ValidatorSpec)>) -> Seq<(Seq<char>, JsonV)>
    decreases d.len(),
{
    if d.len() == 0 {
        Seq::empty()
    } else {
        obj_insert(decls_json(d.drop_last()), d.last().0@, validator_json(d.last().1))
    }
}

fn kind_word_text(kind: ParamKind) -> (s: String)
    ensures
        s@ == kind_word(kind),
{
    match kind {
        ParamKind::String => owned("string"),
        ParamKind::Integer => owned("integer"),
        ParamKind::Number => owned("number"),
        ParamKind::Boolean => owned("boolean"),
        ParamKind::Object => owned("object"),
        ParamKind::Array => owned("array"),
    }
}

/// One declaration as JSON.
pub fn validator_value(v: &ValidatorSpec) -> (j: Json)
    ensures
        j@ == validator_json(*v),
{
    let mut entries: Vec<(String, Json)> = Vec::new();
    if let Some(d) = &v.default {
        entries.push((owned("default"), d.clone()));
    }
    if let Some(d) = &v.description {
        entries.push((owned("description"), Json::String(d.clone())));
    }
    entries.push((owned("kind"), Json::String(kind_word_text(v.kind))));
    entries.push((owned("required"), Json::Bool(v.required)));
    proof {
        reveal_strlit("default");
        reveal_strlit("description");
        reveal_strlit("kind");
        reveal_strlit("required");
        crate::json::lemma_entries_view(entries@);
        assert(entries_view(entries@) =~= crate::ctx::object_entries(validator_json(*v)));
    }
    Json::Object(entries)
}

/// Declarations as a JSON object keyed by name.
pub fn decls_value(d: &Vec<(String, ValidatorSpec)>) -> (j: Json)
    ensures
        j@ == JsonV::Object(decls_json(d@)),
{
    let mut entries: Vec<(String, Json)> = Vec::new();
    let mut i: usize = 0;
    while i < d.len()
        invariant
            i <= d@.len(),
            entries_view(entries@) == decls_json(d@.take(i as int)),
        decreases d@.len() - i,
    {
        proof {
            assert(d@.take(i + 1).drop_last() == d@.take(i as int));
            assert(d@.take(i + 1).last() == d@[i as int]);
        }
        insert_entry(&mut entries, d[i].0.clone(), validator_value(&d[i].1));
        i = i + 1;
    }
    assert(d@.take(d@.len() as int) == d@);
    Json::Object(entries)
}

/// What a flow publishes about itself.
#[derive(Debug, Clone, PartialEq)]
pub struct FlowSignature {
    pub flow_id: String,
    pub version: SemVer,
    pub intent: String,
    pub allow: Vec<String>,
    pub params: Vec<(String, ValidatorSpec)>,
    pub returns: Vec<(String, ValidatorSpec)>,
}

pub struct FlowSignatureV {
    pub flow_id: Seq<char>,
    pub version: SemVerV,
    pub intent: Seq<char>,
    pub allow: Seq<Seq<char>>,
    pub params: Seq<(Seq<char>, ValidatorV)>,
    pub returns: Seq<(Seq<char>, ValidatorV)>,
}

impl View for FlowSignature {
    type V = FlowSignatureV;

    open spec fn view(&self) -> FlowSignatureV {
        FlowSignatureV {
            flow_id: self.flow_id@,
            version: self.version@,
            intent: self.intent@,
            allow: views(self.allow@),
            params: decls_view(self.params@),
            returns: decls_view(self.returns@),
        }
    }
}

/// Where a signature is registered below its scope: `flows/<id>@<major>`.
pub open spec fn path_fragment(sig: FlowSignatureV) -> Seq<char> {
    "flows/"@ + sig.flow_id + "@"@ + decimal(sig.version.major as nat)
}

impl FlowSignature {
    pub fn major(&self) -> (m: u64)
        ensures
            m == self.version@.major,
    {
        self.version.major()
    }

    pub fn registration_path_fragment(&self) -> (s: String)
        ensures
            s@ == path_fragment(self@),
    {
        let a = concat("flows/", self.flow_id.as_str());
        let b = concat(a.as_str(), "@");
        let m = u64_text(self.version.major());
        proof {
            reveal_strlit("flows/");
            reveal_strlit("@");
        }
        concat(b.as_str(), m.as_str())
    }

    /// A copy of the signature.
    pub fn duplicate(&self) -> (s: FlowSignature)
        ensures
            s@ == self@,
    {
        FlowSignature {
            flow_id: self.flow_id.clone(),
            version: self.version.clone(),
            intent: self.intent.clone(),
            allow: clone_texts(&self.allow),
            params: clone_decls(&self.params),
            returns: clone_decls(&self.returns),
        }
    }
}

/// A registered signature with the schema of its returns and its path.
#[derive(Debug, Clone, PartialEq)]
pub struct FlowRecord {
    pub signature: FlowSignature,
    pub returns_schema: Json,
    pub path: String,
}

pub struct FlowRecordV {
    pub signature: FlowSignatureV,
    pub returns_schema: JsonV,
    pub path: Seq<char>,
}

impl View for FlowRecord {
    type V = FlowRecordV;

    open spec fn view(&self) -> FlowRecordV {
        FlowRecordV { signature: self.signature@, returns_schema: self.returns_schema@, path: self.path@ }
    }
}

impl FlowRecord {
    /// A copy of the record.
    pub fn duplicate(&self) -> (r: FlowRecord)
        ensures
            r@ == self@,
    {
        FlowRecord {
            signature: self.signature.duplicate(),
            returns_schema: self.returns_schema.clone(),
            path: self.path.clone(),
        }
    }
}

/// Whether the node at a position is an entry node.
pub open spec fn is_in_at(nodes: Seq<(String, NodeDef)>) -> spec_fn(int) -> bool {
    |i: int| nodes[i].1 is In
}

/// The first entry node of a flow, in node order.
pub open spec fn first_in(nodes: Seq<(String, NodeDef)>) -> Option<int> {
    first_index(nodes.len(), is_in_at(nodes))
}

/// The last response node of a flow, in node order.
pub open spec fn last_out(nodes: Seq<(String, NodeDef)>) -> Option<int>
    decreases nodes.len(),
{
    if nodes.len() == 0 {
        None
    } else if nodes.last().1 is Out {
        Some(nodes.len() - 1)
    } else {
        last_out(nodes.drop_last())
    }
}

/// The entry node of a flow, if it has one.
pub fn find_in_spec(spec: &FlowSpec) -> (r: Option<&InSpec>)
    requires
        keys_ascending(spec.nodes@),
    ensures
        match first_in(spec.nodes@) {
            Some(i) => r == Some(&spec.nodes@[i].1->In_spec),
            None => r is None,
        },
{
    let nodes = &spec.nodes;
    let mut i: usize = 0;
    while i < nodes.len()
        invariant
            i <= nodes@.len(),
            nodes@ == spec.nodes@,
            forall|j: int| 0 <= j < i ==> !(#[trigger] is_in_at(nodes@)(j)),
        decreases nodes@.len() - i,
    {
        match &nodes[i].1 {
            NodeDef::In { spec: s } => {
                proof {
                    lemma_first_index_at(nodes@.len(), is_in_at(nodes@), i as int);
                    assert(first_in(spec.nodes@) == Some(i as int));
                    assert(*s == spec.nodes@[i as int].1->In_spec);
                }
                return Some(s);
            },
            _ => {},
        }
        i = i + 1;
    }
    proof {
        lemma_first_index_none(nodes@.len(), is_in_at(nodes@));
    }
    None
}

/// The last response node of a flow, if it has one.
pub fn find_out_spec(spec: &FlowSpec) -> (r: Option<&OutSpec>)
    requires
        keys_ascending(spec.nodes@),
    ensures
        match last_out(spec.nodes@) {
            Some(i) => r == Some(&spec.nodes@[i].1->Out_spec),
            None => r is None,
        },
{
    let nodes = &spec.nodes;
    let mut i: usize = nodes.len();
    assert(nodes@.take(nodes@.len() as int) == nodes@);
    while i > 0
        invariant
            i <= nodes@.len(),
            nodes@ == spec.nodes@,
            last_out(nodes@) == last_out(nodes@.take(i as int)),
        decreases i,
    {
        proof {
            assert(nodes@.take(i as int).last() == nodes@[i - 1]);
            assert(nodes@.take(i as int).drop_last() == nodes@.take(i - 1));
        }
        match &nodes[i - 1].1 {
            NodeDef::Out { spec: s } => {
                assert(last_out(spec.nodes@) == Some(i - 1));
                assert(*s == spec.nodes@[i - 1].1->Out_spec);
                return Some(s);
            },
            _ => {},
        }
        i = i - 1;
    }
    None
}

/// What publishing a flow yields: its signature from its version, first entry
/// node and last response node, with the JSON schema of its returns; or the
/// first of these that is missing.
pub open spec fn signature_ok(spec: FlowSpec, sig: FlowSignature, schema: JsonV) -> bool {
    let ins = spec.nodes@[first_in(spec.nodes@)->0].1->In_spec;
    let outs = spec.nodes@[last_out(spec.nodes@)->0].1->Out_spec;
    &&& sig.flow_id@ == spec.flow_id@
    &&& sig.version@ == (SemVerV { major: spec.version->0 as u64, minor: 0, patch: 0, pre: Seq::empty(), build: Seq::empty() })
    &&& sig.intent@ == ins.intent@
    &&& views(sig.allow@) == views(ins.allow@)
    &&& decls_view(sig.params@) == decls_view(ins.params@)
    &&& decls_view(sig.returns@) == decls_view(outs.returns@)
    &&& schema == JsonV::Object(decls_json(outs.returns@))
}

/// Whether a flow has what publishing needs: a version, an entry node and a
/// response node.
pub open spec fn publishable(spec: FlowSpec) -> bool {
    spec.version is Some && first_in(spec.nodes@) is Some && last_out(spec.nodes@) is Some
}

/// The signature a publishable flow publishes.
pub open spec fn published_signature(spec: FlowSpec) -> FlowSignatureV {
    let ins = spec.nodes@[first_in(spec.nodes@)->0].1->In_spec;
    let outs = spec.nodes@[last_out(spec.nodes@)->0].1->Out_spec;
    FlowSignatureV {
        flow_id: spec.flow_id@,
        version: SemVerV { major: spec.version->0 as u64, minor: 0, patch: 0, pre: Seq::empty(), build: Seq::empty() },
        intent: ins.intent@,
        allow: views(ins.allow@),
        params: decls_view(ins.params@),
        returns: decls_view(outs.returns@),
    }
}

/// The schema of what a publishable flow returns.
pub open spec fn published_schema(spec: FlowSpec) -> JsonV {
    JsonV::Object(decls_json(spec.nodes@[last_out(spec.nodes@)->0].1->Out_spec.returns@))
}

/// Derives the signature a flow publishes.
pub fn signature_from_spec(spec: &FlowSpec) -> (r: Result<(FlowSignature, Json), AdapterError>)
    requires
        flow_keys_ordered(*spec),
    ensures
        spec.version is None ==> (r matches Err(AdapterError::MissingVersion { flow_id }) && flow_id@ == spec.flow_id@),
        spec.version is Some && first_in(spec.nodes@) is None ==> (r matches Err(AdapterError::MissingInNode { flow_id }) && flow_id@ == spec.flow_id@),
        spec.version is Some && first_in(spec.nodes@) is Some && last_out(spec.nodes@) is None ==> (r matches Err(
            AdapterError::MissingOutNode { flow_id },
        ) && flow_id@ == spec.flow_id@),
        spec.version is Some && first_in(spec.nodes@) is Some && last_out(spec.nodes@) is Some ==> (r matches Ok(
            (sig, schema),
        ) && signature_ok(*spec, sig, schema@)),
{
    let version = match spec.version {
        Some(v) => v,
        None => {
            return Err(AdapterError::MissingVersion { flow_id: spec.flow_id.clone() });
        },
    };
    let version = SemVer::new(version as u64, 0, 0);
    let in_spec = match find_in_spec(spec) {
        Some(s) => s,
        None => {
            return Err(AdapterError::MissingInNode { flow_id: spec.flow_id.clone() });
        },
    };
    let out_spec = match find_out_spec(spec) {
        Some(s) => s,
        None => {
            return Err(AdapterError::MissingOutNode { flow_id: spec.flow_id.clone() });
        },
    };
    let signature = FlowSignature {
        flow_id: spec.flow_id.clone(),
        version,
        intent: in_spec.intent.clone(),
        allow: clone_texts(&in_spec.allow),
        params: clone_decls(&in_spec.params),
        returns: clone_decls(&out_spec.returns),
    };
    let returns_schema = decls_value(&out_spec.returns);
    Ok((signature, returns_schema))
}

}
