//! The flow contract: in / call / out nodes, their settings, and the
//! structural rules a flow must satisfy before it is published or run.
use vstd::prelude::*;
use crate::json::Json;
use crate::text::{blank, concat, is_blank, owned};
use crate::search::{first_index, lemma_first_index_at, lemma_first_index_none};

verus! {

/// The type a declared parameter or return value must have.
#[derive(Clone, Copy, PartialEq, Eq, Structural, Debug)]
pub enum ParamKind {
    String,
    Integer,
    Number,
    Boolean,
    Object,
    Array,
}

/// Type metadata for one parameter or return value.
#[derive(Debug, Clone, PartialEq)]
pub struct ValidatorSpec {
    pub kind: ParamKind,
    pub required: bool,
    pub description: Option<String>,
    pub default: Option<Json>,
}

/// The entry node: intent, typed parameters and who may call.
#[derive(Debug, Clone, PartialEq)]
pub struct InSpec {
    pub intent: String,
    /// Parameters keyed by name, in key order.
    pub params: Vec<(String, ValidatorSpec)>,
    pub router: Option<String>,
    pub visibility: Vec<String>,
    pub allow: Vec<String>,
}

/// The response node: the returns the flow hands back.
#[derive(Debug, Clone, PartialEq)]
pub struct OutSpec {
    /// Returns keyed by name, in key order.
    pub returns: Vec<(String, ValidatorSpec)>,
    pub docs: Option<String>,
}

/// How often a call is attempted and how long to wait in between.
#[derive(Clone, Copy, PartialEq, Eq, Structural, Debug)]
pub struct RetrySpec {
    pub attempts: u32,
    pub delay_ms: Option<u64>,
    pub max_delay_ms: Option<u64>,
}

#[derive(Clone, Copy, PartialEq, Eq, Structural, Debug)]
pub enum CallMode {
    Sync,
    Async,
    FireAndForget,
}

/// Where a failed call is rerouted, with an optional request mapper template.
#[derive(Debug, Clone, PartialEq)]
pub struct OnErrorSpec {
    pub route: String,
    pub mapper: Option<String>,
}

/// How fan-out results are joined.
#[derive(Debug, Clone, PartialEq)]
pub struct JoinSpec {
    pub with: Vec<String>,
    pub strategy: Option<JoinStrategy>,
}

#[derive(Clone, Copy, PartialEq, Eq, Structural, Debug)]
pub enum JoinStrategy {
    All,
    Any,
}

/// A tenancy scope: a tenant, optionally narrowed to a team and a user.
#[derive(Debug, Clone, PartialEq)]
pub struct Scope {
    pub tenant: String,
    pub team: Option<String>,
    pub user: Option<String>,
}

/// A call node: target, mode, retries, mappings, fallback, join and scope.
#[derive(Debug, Clone, PartialEq)]
pub struct CallSpec {
    pub target: String,
    pub mode: CallMode,
    pub timeout_ms: Option<u64>,
    pub retry: Option<RetrySpec>,
    /// Request paths and the templates that fill them, in key order.
    pub params_map: Vec<(String, String)>,
    /// State paths and the templates that fill them from the result, in key order.
    pub result_map: Vec<(String, String)>,
    pub on_error: Option<OnErrorSpec>,
    pub join: Option<JoinSpec>,
    pub scope: Option<Scope>,
}

#[derive(Debug, Clone, PartialEq)]
pub enum NodeDef {
    In { spec: InSpec },
    Call { spec: CallSpec },
    Out { spec: OutSpec },
}

#[derive(Clone, Copy, PartialEq, Eq, Structural, Debug)]
pub enum NodeKind {
    In,
    Call,
    Out,
}

/// A named error a flow may raise.
#[derive(Debug, Clone, PartialEq)]
pub struct ErrorSpec {
    pub code: String,
    pub message: Option<String>,
    pub retryable: Option<bool>,
    pub detail: Option<Json>,
}

/// A flow: its id, optional version, its nodes in key order and its errors.
#[derive(Debug, Clone, PartialEq)]
pub struct FlowSpec {
    pub flow_id: String,
    pub version: Option<u32>,
    pub nodes: Vec<(String, NodeDef)>,
    pub errors: Vec<(String, ErrorSpec)>,
}

/// Why a flow or one of its nodes is not well formed.
#[derive(Debug, Clone, PartialEq)]
pub enum FlowValidationError {
    EmptyName,
    DuplicateStepId(String),
    MissingNodes,
    EmptyNodeName,
    FirstNodeMustBeIn { node: String },
    LastNodeMustBeOut { node: String },
    MissingIntent { node: String },
    InvalidAllowList { node: String },
    InvalidParamName { node: String, param: String },
    MissingCallTarget { node: String },
    InvalidRetryAttempts { node: String },
    InvalidOnErrorRoute { node: String },
    EmptyJoinMembers { node: String },
    InvalidMappingEntry { node: String, key: String },
    MissingScopeTenant { node: String },
    MissingErrorCode { name: String },
}

/// A validation error with its texts as character sequences.
pub enum FlowErrorV {
    EmptyName,
    DuplicateStepId(Seq<char>),
    MissingNodes,
    EmptyNodeName,
    FirstNodeMustBeIn(Seq<char>),
    LastNodeMustBeOut(Seq<char>),
    MissingIntent(Seq<char>),
    InvalidAllowList(Seq<char>),
    InvalidParamName(Seq<char>, Seq<char>),
    MissingCallTarget(Seq<char>),
    InvalidRetryAttempts(Seq<char>),
    InvalidOnErrorRoute(Seq<char>),
    EmptyJoinMembers(Seq<char>),
    InvalidMappingEntry(Seq<char>, Seq<char>),
    MissingScopeTenant(Seq<char>),
    MissingErrorCode(Seq<char>),
}

impl View for FlowValidationError {
    type V = FlowErrorV;

    open spec fn view(&self) -> FlowErrorV {
        match *self {
            FlowValidationError::EmptyName => FlowErrorV::EmptyName,
            FlowValidationError::DuplicateStepId(s) => FlowErrorV::DuplicateStepId(s@),
            FlowValidationError::MissingNodes => FlowErrorV::MissingNodes,
            FlowValidationError::EmptyNodeName => FlowErrorV::EmptyNodeName,
            FlowValidationError::FirstNodeMustBeIn { node } => FlowErrorV::FirstNodeMustBeIn(node@),
            FlowValidationError::LastNodeMustBeOut { node } => FlowErrorV::LastNodeMustBeOut(node@),
            FlowValidationError::MissingIntent { node } => FlowErrorV::MissingIntent(node@),
            FlowValidationError::InvalidAllowList { node } => FlowErrorV::InvalidAllowList(node@),
            FlowValidationError::InvalidParamName { node, param } => FlowErrorV::InvalidParamName(
                node@,
                param@,
            ),
            FlowValidationError::MissingCallTarget { node } => FlowErrorV::MissingCallTarget(node@),
            FlowValidationError::InvalidRetryAttempts { node } => FlowErrorV::InvalidRetryAttempts(
                node@,
            ),
            FlowValidationError::InvalidOnErrorRoute { node } => FlowErrorV::InvalidOnErrorRoute(
                node@,
            ),
            FlowValidationError::EmptyJoinMembers { node } => FlowErrorV::EmptyJoinMembers(node@),
            FlowValidationError::InvalidMappingEntry { node, key } => FlowErrorV::InvalidMappingEntry(
                node@,
                key@,
            ),
            FlowValidationError::MissingScopeTenant { node } => FlowErrorV::MissingScopeTenant(
                node@,
            ),
            FlowValidationError::MissingErrorCode { name } => FlowErrorV::MissingErrorCode(name@),
        }
    }
}

/// The outcome of a validation, with the error taken by its view.
pub open spec fn checked(r: Result<(), FlowValidationError>) -> Result<(), FlowErrorV> {
    match r {
        Ok(()) => Ok(()),
        Err(e) => Err(e@),
    }
}

// ---------------------------------------------------------------------------
// What each validation decides.

pub open spec fn validator_check(name: Seq<char>, node: Seq<char>) -> Result<(), FlowErrorV> {
    if blank(name) {
        Err(FlowErrorV::InvalidParamName(node, name))
    } else {
        Ok(())
    }
}

/// The first declared name that is blank, if any.
pub open spec fn first_blank_key<V>(entries: Seq<(String, V)>) -> Option<int>
    decreases entries.len(),
{
    if entries.len() == 0 {
        None
    } else {
        match first_blank_key(entries.drop_last()) {
            Some(i) => Some(i),
            None => if blank(entries.last().0@) {
                Some(entries.len() - 1)
            } else {
                None
            },
        }
    }
}

pub open spec fn params_check(params: Seq<(String, ValidatorSpec)>, node: Seq<char>) -> Result<
    (),
    FlowErrorV,
> {
    match first_blank_key(params) {
        Some(i) => Err(FlowErrorV::InvalidParamName(node, params[i].0@)),
        None => Ok(()),
    }
}

pub open spec fn any_blank(v: Seq<String>) -> bool {
    exists|i: int| 0 <= i < v.len() && blank(#[trigger] v[i]@)
}

pub open spec fn in_check(spec: InSpec, node: Seq<char>) -> Result<(), FlowErrorV> {
    if blank(spec.intent@) {
        Err(FlowErrorV::MissingIntent(node))
    } else if params_check(spec.params@, node) is Err {
        params_check(spec.params@, node)
    } else if any_blank(spec.allow@) {
        Err(FlowErrorV::InvalidAllowList(node))
    } else {
        Ok(())
    }
}

pub open spec fn out_check(spec: OutSpec, node: Seq<char>) -> Result<(), FlowErrorV> {
    params_check(spec.returns@, node)
}

pub open spec fn retry_check(spec: RetrySpec, node: Seq<char>) -> Result<(), FlowErrorV> {
    if spec.attempts == 0 {
        Err(FlowErrorV::InvalidRetryAttempts(node))
    } else {
        Ok(())
    }
}

pub open spec fn on_error_check(spec: OnErrorSpec, node: Seq<char>) -> Result<(), FlowErrorV> {
    if blank(spec.route@) {
        Err(FlowErrorV::InvalidOnErrorRoute(node))
    } else {
        Ok(())
    }
}

pub open spec fn join_check(spec: JoinSpec, node: Seq<char>) -> Result<(), FlowErrorV> {
    if spec.with@.len() == 0 || any_blank(spec.with@) {
        Err(FlowErrorV::EmptyJoinMembers(node))
    } else {
        Ok(())
    }
}

pub open spec fn scope_check(spec: Scope, node: Seq<char>) -> Result<(), FlowErrorV> {
    if blank(spec.tenant@) {
        Err(FlowErrorV::MissingScopeTenant(node))
    } else {
        Ok(())
    }
}

/// A mapping entry names a path and a template, neither blank.
pub open spec fn mapping_ok(e: (String, String)) -> bool {
    !blank(e.0@) && !blank(e.1@)
}

/// The first mapping entry whose path or template is blank, if any.
pub open spec fn first_bad_mapping(entries: Seq<(String, String)>) -> Option<int>
    decreases entries.len(),
{
    if entries.len() == 0 {
        None
    } else {
        match first_bad_mapping(entries.drop_last()) {
            Some(i) => Some(i),
            None => if !mapping_ok(entries.last()) {
                Some(entries.len() - 1)
            } else {
                None
            },
        }
    }
}

pub open spec fn mapping_check(entries: Seq<(String, String)>, node: Seq<char>) -> Result<
    (),
    FlowErrorV,
> {
    match first_bad_mapping(entries) {
        Some(i) => Err(FlowErrorV::InvalidMappingEntry(node, entries[i].0@)),
        None => Ok(()),
    }
}

pub open spec fn call_check(spec: CallSpec, node: Seq<char>) -> Result<(), FlowErrorV> {
    if blank(spec.target@) {
        Err(FlowErrorV::MissingCallTarget(node))
    } else if spec.retry is Some && retry_check(spec.retry->0, node) is Err {
        retry_check(spec.retry->0, node)
    } else if mapping_check(spec.params_map@, node) is Err {
        mapping_check(spec.params_map@, node)
    } else if mapping_check(spec.result_map@, node) is Err {
        mapping_check(spec.result_map@, node)
    } else if spec.on_error is Some && on_error_check(spec.on_error->0, node) is Err {
        on_error_check(spec.on_error->0, node)
    } else if spec.join is Some && join_check(spec.join->0, node) is Err {
        join_check(spec.join->0, node)
    } else if spec.scope is Some && scope_check(spec.scope->0, node) is Err {
        scope_check(spec.scope->0, node)
    } else {
        Ok(())
    }
}

pub open spec fn node_check(def: NodeDef, node: Seq<char>) -> Result<(), FlowErrorV> {
    match def {
        NodeDef::In { spec } => in_check(spec, node),
        NodeDef::Call { spec } => call_check(spec, node),
        NodeDef::Out { spec } => out_check(spec, node),
    }
}

pub open spec fn error_spec_check(spec: ErrorSpec, name: Seq<char>) -> Result<(), FlowErrorV> {
    if blank(spec.code@) {
        Err(FlowErrorV::MissingErrorCode(name))
    } else {
        Ok(())
    }
}

// ---------------------------------------------------------------------------
// The checks.

/// Whether `v` holds a blank entry.
fn has_blank(v: &Vec<String>) -> (r: bool)
    ensures
        r == any_blank(v@),
{
    let mut i: usize = 0;
    while i < v.len()
        invariant
            i <= v@.len(),
            forall|j: int| 0 <= j < i ==> !blank(#[trigger] v@[j]@),
        decreases v@.len() - i,
    {
        if is_blank(v[i].as_str()) {
            return true;
        }
        i = i + 1;
    }
    false
}

proof fn lemma_first_blank_key_none<V>(entries: Seq<(String, V)>)
    requires
        forall|j: int| 0 <= j < entries.len() ==> !blank(#[trigger] entries[j].0@),
    ensures
        first_blank_key(entries) is None,
    decreases entries.len(),
{
    if entries.len() > 0 {
        lemma_first_blank_key_none(entries.drop_last());
    }
}

proof fn lemma_first_blank_key_at<V>(entries: Seq<(String, V)>, i: int)
    requires
        0 <= i < entries.len(),
        blank(entries[i].0@),
        forall|j: int| 0 <= j < i ==> !blank(#[trigger] entries[j].0@),
    ensures
        first_blank_key(entries) == Some(i),
    decreases entries.len(),
{
    if i < entries.len() - 1 {
        lemma_first_blank_key_at(entries.drop_last(), i);
    } else {
        lemma_first_blank_key_none(entries.drop_last());
    }
}

fn check_params(params: &Vec<(String, ValidatorSpec)>, node: &str) -> (r: Result<
    (),
    FlowValidationError,
>)
    ensures
        checked(r) == params_check(params@, node@),
{
    let mut i: usize = 0;
    while i < params.len()
        invariant
            i <= params@.len(),
            forall|j: int| 0 <= j < i ==> !blank(#[trigger] params@[j].0@),
        decreases params@.len() - i,
    {
        let r = params[i].1.validate(node, params[i].0.as_str());
        if r.is_err() {
            proof {
                lemma_first_blank_key_at(params@, i as int);
            }
            return r;
        }
        i = i + 1;
    }
    proof {
        lemma_first_blank_key_none(params@);
    }
    Ok(())
}

proof fn lemma_first_bad_mapping_none(entries: Seq<(String, String)>)
    requires
        forall|j: int|
            0 <= j < entries.len() ==> mapping_ok(#[trigger] entries[j]),
    ensures
        first_bad_mapping(entries) is None,
    decreases entries.len(),
{
    if entries.len() > 0 {
        lemma_first_bad_mapping_none(entries.drop_last());
    }
}

proof fn lemma_first_bad_mapping_at(entries: Seq<(String, String)>, i: int)
    requires
        0 <= i < entries.len(),
        !mapping_ok(entries[i]),
        forall|j: int| 0 <= j < i ==> mapping_ok(#[trigger] entries[j]),
    ensures
        first_bad_mapping(entries) == Some(i),
    decreases entries.len(),
{
    if i < entries.len() - 1 {
        lemma_first_bad_mapping_at(entries.drop_last(), i);
    } else {
        lemma_first_bad_mapping_none(entries.drop_last());
    }
}

fn check_mapping(entries: &Vec<(String, String)>, node: &str) -> (r: Result<
    (),
    FlowValidationError,
>)
    ensures
        checked(r) == mapping_check(entries@, node@),
{
    let mut i: usize = 0;
    while i < entries.len()
        invariant
            i <= entries@.len(),
            forall|j: int| 0 <= j < i ==> mapping_ok(#[trigger] entries@[j]),
        decreases entries@.len() - i,
    {
        let bad_key = is_blank(entries[i].0.as_str());
        let bad_value = is_blank(entries[i].1.as_str());
        if bad_key || bad_value {
            proof {
                lemma_first_bad_mapping_at(entries@, i as int);
            }
            return Err(
                FlowValidationError::InvalidMappingEntry {
                    node: owned(node),
                    key: entries[i].0.clone(),
                },
            );
        }
        assert(mapping_ok(entries@[i as int]));
        i = i + 1;
    }
    proof {
        lemma_first_bad_mapping_none(entries@);
    }
    Ok(())
}

impl ValidatorSpec {
    /// A parameter's name must not be blank.
    pub fn validate(&self, node: &str, name: &str) -> (r: Result<(), FlowValidationError>)
        ensures
            checked(r) == validator_check(name@, node@),
    {
        if is_blank(name) {
            return Err(
                FlowValidationError::InvalidParamName { node: owned(node), param: owned(name) },
            );
        }
        Ok(())
    }
}

impl InSpec {
    /// An entry node needs an intent, well-named parameters and no blank allow entry.
    pub fn validate(&self, node: &str) -> (r: Result<(), FlowValidationError>)
        requires
            keys_ascending(self.params@),
        ensures
            checked(r) == in_check(*self, node@),
    {
        if is_blank(self.intent.as_str()) {
            return Err(FlowValidationError::MissingIntent { node: owned(node) });
        }
        let p = check_params(&self.params, node);
        if p.is_err() {
            return p;
        }
        if has_blank(&self.allow) {
            return Err(FlowValidationError::InvalidAllowList { node: owned(node) });
        }
        Ok(())
    }
}

impl OutSpec {
    /// A response node's returns must be well named.
    pub fn validate(&self, node: &str) -> (r: Result<(), FlowValidationError>)
        requires
            keys_ascending(self.returns@),
        ensures
            checked(r) == out_check(*self, node@),
    {
        check_params(&self.returns, node)
    }
}

impl RetrySpec {
    /// A retry policy must allow at least one attempt.
    pub fn validate(&self, node: &str) -> (r: Result<(), FlowValidationError>)
        ensures
            checked(r) == retry_check(*self, node@),
    {
        if self.attempts == 0 {
            return Err(FlowValidationError::InvalidRetryAttempts { node: owned(node) });
        }
        Ok(())
    }
}

impl OnErrorSpec {
    /// A fallback must name its route.
    pub fn validate(&self, node: &str) -> (r: Result<(), FlowValidationError>)
        ensures
            checked(r) == on_error_check(*self, node@),
    {
        if is_blank(self.route.as_str()) {
            return Err(FlowValidationError::InvalidOnErrorRoute { node: owned(node) });
        }
        Ok(())
    }
}

impl JoinSpec {
    /// A join must list at least one member, none of them blank.
    pub fn validate(&self, node: &str) -> (r: Result<(), FlowValidationError>)
        ensures
            checked(r) == join_check(*self, node@),
    {
        if self.with.len() == 0 {
            return Err(FlowValidationError::EmptyJoinMembers { node: owned(node) });
        }
        if has_blank(&self.with) {
            return Err(FlowValidationError::EmptyJoinMembers { node: owned(node) });
        }
        Ok(())
    }
}

impl Scope {
    /// A scope must name its tenant.
    pub fn validate(&self, node: &str) -> (r: Result<(), FlowValidationError>)
        ensures
            checked(r) == scope_check(*self, node@),
    {
        if is_blank(self.tenant.as_str()) {
            return Err(FlowValidationError::MissingScopeTenant { node: owned(node) });
        }
        Ok(())
    }
}

impl CallSpec {
    /// A call node needs a target, a positive retry count, complete mappings, a
    /// named fallback route, a non-empty join and a scope with a tenant.
    pub fn validate(&self, node: &str) -> (r: Result<(), FlowValidationError>)
        requires
            keys_ascending(self.params_map@),
            keys_ascending(self.result_map@),
        ensures
            checked(r) == call_check(*self, node@),
    {
        if is_blank(self.target.as_str()) {
            return Err(FlowValidationError::MissingCallTarget { node: owned(node) });
        }
        if let Some(retry) = &self.retry {
            let r = retry.validate(node);
            if r.is_err() {
                return r;
            }
        }
        let p = check_mapping(&self.params_map, node);
        if p.is_err() {
            return p;
        }
        let m = check_mapping(&self.result_map, node);
        if m.is_err() {
            return m;
        }
        if let Some(on_error) = &self.on_error {
            let r = on_error.validate(node);
            if r.is_err() {
                return r;
            }
        }
        if let Some(join) = &self.join {
            let r = join.validate(node);
            if r.is_err() {
                return r;
            }
        }
        if let Some(scope) = &self.scope {
            let r = scope.validate(node);
            if r.is_err() {
                return r;
            }
        }
        Ok(())
    }
}

impl NodeDef {
    pub open spec fn spec_kind(&self) -> NodeKind {
        match *self {
            NodeDef::In { .. } => NodeKind::In,
            NodeDef::Call { .. } => NodeKind::Call,
            NodeDef::Out { .. } => NodeKind::Out,
        }
    }

    pub fn kind(&self) -> (k: NodeKind)
        ensures
            k == self.spec_kind(),
    {
        match self {
            NodeDef::In { .. } => NodeKind::In,
            NodeDef::Call { .. } => NodeKind::Call,
            NodeDef::Out { .. } => NodeKind::Out,
        }
    }

    /// Validates the node under its own rules.
    pub fn validate(&self, node: &str) -> (r: Result<(), FlowValidationError>)
        requires
            node_keys_ordered(*self),
        ensures
            checked(r) == node_check(*self, node@),
    {
        match self {
            NodeDef::In { spec } => spec.validate(node),
            NodeDef::Call { spec } => spec.validate(node),
            NodeDef::Out { spec } => spec.validate(node),
        }
    }
}

impl ErrorSpec {
    /// An error spec must carry a code.
    pub fn validate(&self, name: &str) -> (r: Result<(), FlowValidationError>)
        ensures
            checked(r) == error_spec_check(*self, name@),
    {
        if is_blank(self.code.as_str()) {
            return Err(FlowValidationError::MissingErrorCode { name: owned(name) });
        }
        Ok(())
    }
}

}

verus! {

/// The first node whose own rules reject it.
pub open spec fn first_bad_node(nodes: Seq<(String, NodeDef)>) -> Option<int> {
    first_index(nodes.len(), |i: int| node_check(nodes[i].1, nodes[i].0@) is Err)
}

/// The first error entry with a blank name or a blank code.
pub open spec fn first_bad_error(errors: Seq<(String, ErrorSpec)>) -> Option<int> {
    first_index(errors.len(), |i: int| blank(errors[i].0@) || blank(errors[i].1.code@))
}

/// What `FlowSpec::validate` decides, rule by rule in the order it checks them.
pub open spec fn flow_check(flow: FlowSpec) -> Result<(), FlowErrorV> {
    let nodes = flow.nodes@;
    if nodes.len() == 0 {
        Err(FlowErrorV::MissingNodes)
    } else if first_blank_key(nodes) is Some {
        Err(FlowErrorV::EmptyNodeName)
    } else if !(nodes[0].1 is In) {
        Err(FlowErrorV::FirstNodeMustBeIn(nodes[0].0@))
    } else if !(nodes.last().1 is Out) {
        Err(FlowErrorV::LastNodeMustBeOut(nodes.last().0@))
    } else if first_bad_node(nodes) is Some {
        let i = first_bad_node(nodes)->0;
        node_check(nodes[i].1, nodes[i].0@)
    } else if first_bad_error(flow.errors@) is Some {
        Err(FlowErrorV::MissingErrorCode(flow.errors@[first_bad_error(flow.errors@)->0].0@))
    } else {
        Ok(())
    }
}

impl FlowSpec {
    /// A flow needs nodes with non-blank names, an entry node first (the node
    /// with the smallest name) and a response node last (the one with the
    /// largest), every node valid under its own rules, and every declared error
    /// named and coded; its maps are in key order, as the maps of a flow read
    /// from a document are, so nodes and errors are checked in key order.
    #[verifier::loop_isolation(false)]
    pub fn validate(&self) -> (r: Result<(), FlowValidationError>)
        requires
            flow_keys_ordered(*self),
        ensures
            checked(r) == flow_check(*self),
    {
        let nodes = &self.nodes;
        if nodes.len() == 0 {
            return Err(FlowValidationError::MissingNodes);
        }
        let mut i: usize = 0;
        while i < nodes.len()
            invariant
                i <= nodes@.len(),
                forall|j: int| 0 <= j < i ==> !blank(#[trigger] nodes@[j].0@),
            decreases nodes@.len() - i,
        {
            if is_blank(nodes[i].0.as_str()) {
                proof {
                    lemma_first_blank_key_at(nodes@, i as int);
                }
                return Err(FlowValidationError::EmptyNodeName);
            }
            i = i + 1;
        }
        proof {
            lemma_first_blank_key_none(nodes@);
        }
        match &nodes[0].1 {
            NodeDef::In { .. } => {},
            _ => {
                return Err(FlowValidationError::FirstNodeMustBeIn { node: nodes[0].0.clone() });
            },
        }
        let last = nodes.len() - 1;
        match &nodes[last].1 {
            NodeDef::Out { .. } => {},
            _ => {
                return Err(FlowValidationError::LastNodeMustBeOut { node: nodes[last].0.clone() });
            },
        }
        let ghost bad_node = |k: int| node_check(nodes@[k].1, nodes@[k].0@) is Err;
        let mut i: usize = 0;
        while i < nodes.len()
            invariant
                i <= nodes@.len(),
                bad_node == (|k: int| node_check(nodes@[k].1, nodes@[k].0@) is Err),
                forall|j: int| 0 <= j < i ==> !#[trigger] bad_node(j),
            decreases nodes@.len() - i,
        {
            let r = nodes[i].1.validate(nodes[i].0.as_str());
            if r.is_err() {
                proof {
                    lemma_first_index_at(nodes@.len(), bad_node, i as int);
                }
                return r;
            }
            i = i + 1;
        }
        proof {
            lemma_first_index_none(nodes@.len(), bad_node);
        }
        let errors = &self.errors;
        let ghost bad_error = |k: int| blank(errors@[k].0@) || blank(errors@[k].1.code@);
        let mut i: usize = 0;
        while i < errors.len()
            invariant
                i <= errors@.len(),
                bad_error == (|k: int| blank(errors@[k].0@) || blank(errors@[k].1.code@)),
                forall|j: int| 0 <= j < i ==> !#[trigger] bad_error(j),
            decreases errors@.len() - i,
        {
            if is_blank(errors[i].0.as_str()) {
                proof {
                    lemma_first_index_at(errors@.len(), bad_error, i as int);
                }
                return Err(FlowValidationError::MissingErrorCode { name: errors[i].0.clone() });
            }
            let r = errors[i].1.validate(errors[i].0.as_str());
            if r.is_err() {
                proof {
                    lemma_first_index_at(errors@.len(), bad_error, i as int);
                }
                return r;
            }
            i = i + 1;
        }
        proof {
            lemma_first_index_none(errors@.len(), bad_error);
        }
        Ok(())
    }
}

/// Whether text `a` comes before text `b` in the order of `String`: the first
/// differing character decides by code point (the order of UTF-8 bytes), and
/// a proper prefix comes first.
pub open spec fn text_less(a: Seq<char>, b: Seq<char>) -> bool
    decreases a.len(),
{
    if a.len() == 0 {
        b.len() > 0
    } else if b.len() == 0 {
        false
    } else if a[0] != b[0] {
        (a[0] as u32) < (b[0] as u32)
    } else {
        text_less(a.drop_first(), b.drop_first())
    }
}

/// Whether a map's entries are in strictly ascending key order, as the entries
/// of the ordered map they stand for are: no key twice, the smallest first.
pub open spec fn keys_ascending<T>(entries: Seq<(String, T)>) -> bool {
    forall|i: int, j: int| 0 <= i < j < entries.len() ==> text_less(#[trigger] entries[i].0@, #[trigger] entries[j].0@)
}

/// Whether the maps of a node are in key order.
pub open spec fn node_keys_ordered(n: NodeDef) -> bool {
    match n {
        NodeDef::In { spec } => keys_ascending(spec.params@),
        NodeDef::Call { spec } => keys_ascending(spec.params_map@) && keys_ascending(spec.result_map@),
        NodeDef::Out { spec } => keys_ascending(spec.returns@),
    }
}

/// Whether every map of a flow is in key order: its nodes, its errors and the
/// maps inside each node. In such a flow the first node is the one with the
/// smallest name and the last the one with the largest, and a walk in list
/// order is a walk in key order.
pub open spec fn flow_keys_ordered(f: FlowSpec) -> bool {
    &&& keys_ascending(f.nodes@)
    &&& keys_ascending(f.errors@)
    &&& forall|i: int| 0 <= i < f.nodes@.len() ==> node_keys_ordered(#[trigger] f.nodes@[i].1)
}

/// In a flow whose maps are in key order, validation looks at the node with
/// the smallest name for the entry node and at the one with the largest name
/// for the response node: a valid flow has nodes, its smallest-named node is
/// an entry node and its largest-named node is a response node.
pub proof fn law_validate_by_key_order(f: FlowSpec)
    requires
        flow_keys_ordered(f),
        flow_check(f) is Ok,
    ensures
        f.nodes@.len() > 0,
        forall|i: int| 0 < i < f.nodes@.len() ==> text_less(f.nodes@[0].0@, #[trigger] f.nodes@[i].0@),
        forall|i: int| 0 <= i < f.nodes@.len() - 1 ==> text_less(#[trigger] f.nodes@[i].0@, f.nodes@.last().0@),
        f.nodes@[0].1 is In,
        f.nodes@.last().1 is Out,
{
}

/// Whether `a` comes before `b` in the order of `String`.
pub fn text_before(a: &str, b: &str) -> (r: bool)
    ensures
        r == text_less(a@, b@),
{
    let x = crate::text::chars_of(a);
    let y = crate::text::chars_of(b);
    let mut i: usize = 0;
    assert(a@.skip(0) =~= a@);
    assert(b@.skip(0) =~= b@);
    while i < x.len() && i < y.len()
        invariant
            x@ == a@,
            y@ == b@,
            i <= x@.len(),
            i <= y@.len(),
            text_less(a@, b@) == text_less(a@.skip(i as int), b@.skip(i as int)),
        decreases x@.len() - i,
    {
        if x[i] != y[i] {
            return (x[i] as u32) < (y[i] as u32);
        }
        proof {
            assert(a@.skip(i as int).drop_first() =~= a@.skip(i + 1));
            assert(b@.skip(i as int).drop_first() =~= b@.skip(i + 1));
        }
        i = i + 1;
    }
    y.len() > i
}

/// Whether a map's entries are in strictly ascending key order.
pub fn keys_in_order<T>(entries: &Vec<(String, T)>) -> (r: bool)
    ensures
        r == keys_ascending(entries@),
{
    let mut i: usize = 0;
    while i < entries.len()
        invariant
            i <= entries@.len(),
            forall|a: int, b: int| 0 <= a < b < entries@.len() && a < i ==> text_less(#[trigger] entries@[a].0@, #[trigger] entries@[b].0@),
        decreases entries@.len() - i,
    {
        let mut j: usize = i + 1;
        while j < entries.len()
            invariant
                i < entries@.len(),
                i + 1 <= j <= entries@.len(),
                forall|a: int, b: int| 0 <= a < b < entries@.len() && a < i ==> text_less(#[trigger] entries@[a].0@, #[trigger] entries@[b].0@),
                forall|b: int| i < b < j ==> text_less(entries@[i as int].0@, #[trigger] entries@[b].0@),
            decreases entries@.len() - j,
        {
            if !text_before(entries[i].0.as_str(), entries[j].0.as_str()) {
                return false;
            }
            j = j + 1;
        }
        i = i + 1;
    }
    true
}

impl NodeDef {
    /// Whether the maps of the node are in key order.
    pub fn keys_in_order(&self) -> (r: bool)
        ensures
            r == node_keys_ordered(*self),
    {
        match self {
            NodeDef::In { spec } => keys_in_order(&spec.params),
            NodeDef::Call { spec } => keys_in_order(&spec.params_map) && keys_in_order(&spec.result_map),
            NodeDef::Out { spec } => keys_in_order(&spec.returns),
        }
    }
}

impl FlowSpec {
    /// Whether every map of the flow is in key order, as the maps of a flow
    /// read from a document are.
    pub fn keys_in_order(&self) -> (r: bool)
        ensures
            r == flow_keys_ordered(*self),
    {
        if !keys_in_order(&self.nodes) || !keys_in_order(&self.errors) {
            return false;
        }
        let mut i: usize = 0;
        while i < self.nodes.len()
            invariant
                i <= self.nodes@.len(),
                forall|k: int| 0 <= k < i ==> node_keys_ordered(#[trigger] self.nodes@[k].1),
            decreases self.nodes@.len() - i,
        {
            if !self.nodes[i].1.keys_in_order() {
                return false;
            }
            i = i + 1;
        }
        true
    }
}

/// The words a validation failure is shown in.
pub open spec fn flow_error_text(e: FlowErrorV) -> Seq<char> {
    match e {
        FlowErrorV::EmptyName => "flow name must not be empty"@,
        FlowErrorV::DuplicateStepId(s) => "duplicate step id `"@ + s + "` detected"@,
        FlowErrorV::MissingNodes => "flow must contain at least one node"@,
        FlowErrorV::EmptyNodeName => "node name must not be empty"@,
        FlowErrorV::FirstNodeMustBeIn(n) => "first node `"@ + n + "` must be f2f.in"@,
        FlowErrorV::LastNodeMustBeOut(n) => "last node `"@ + n + "` must be f2f.out"@,
        FlowErrorV::MissingIntent(n) => "in node `"@ + n + "` must declare an intent"@,
        FlowErrorV::InvalidAllowList(n) => "allow list for node `"@ + n + "` contains empty entries"@,
        FlowErrorV::InvalidParamName(n, p) => "parameter `"@ + p + "` in node `"@ + n + "` is invalid"@,
        FlowErrorV::MissingCallTarget(n) => "call node `"@ + n + "` must declare a target"@,
        FlowErrorV::InvalidRetryAttempts(n) => "call node `"@ + n + "` retry attempts must be greater than zero"@,
        FlowErrorV::InvalidOnErrorRoute(n) => "call node `"@ + n + "` has on_error route that may not be empty"@,
        FlowErrorV::EmptyJoinMembers(n) => "call node `"@ + n + "` join clause must specify at least one node"@,
        FlowErrorV::InvalidMappingEntry(n, k) => "call node `"@ + n + "` mapping entry `"@ + k + "` is invalid"@,
        FlowErrorV::MissingScopeTenant(n) => "scope for node `"@ + n + "` must include a tenant"@,
        FlowErrorV::MissingErrorCode(n) => "error spec `"@ + n + "` must include a code"@,
    }
}

/// `head`, then `x`, then `tail`.
fn framed(head: &str, x: &str, tail: &str) -> (s: String)
    ensures
        s@ == head@ + x@ + tail@,
{
    let a = concat(head, x);
    concat(a.as_str(), tail)
}

impl FlowValidationError {
    /// The failure described in words.
    pub fn message(&self) -> (s: String)
        ensures
            s@ == flow_error_text(self@),
    {
        match self {
            FlowValidationError::EmptyName => owned("flow name must not be empty"),
            FlowValidationError::DuplicateStepId(s) => framed("duplicate step id `", s.as_str(), "` detected"),
            FlowValidationError::MissingNodes => owned("flow must contain at least one node"),
            FlowValidationError::EmptyNodeName => owned("node name must not be empty"),
            FlowValidationError::FirstNodeMustBeIn { node } => framed("first node `", node.as_str(), "` must be f2f.in"),
            FlowValidationError::LastNodeMustBeOut { node } => framed("last node `", node.as_str(), "` must be f2f.out"),
            FlowValidationError::MissingIntent { node } => framed("in node `", node.as_str(), "` must declare an intent"),
            FlowValidationError::InvalidAllowList { node } => framed(
                "allow list for node `",
                node.as_str(),
                "` contains empty entries",
            ),
            FlowValidationError::InvalidParamName { node, param } => {
                let a = framed("parameter `", param.as_str(), "` in node `");
                framed(a.as_str(), node.as_str(), "` is invalid")
            },
            FlowValidationError::MissingCallTarget { node } => framed("call node `", node.as_str(), "` must declare a target"),
            FlowValidationError::InvalidRetryAttempts { node } => framed(
                "call node `",
                node.as_str(),
                "` retry attempts must be greater than zero",
            ),
            FlowValidationError::InvalidOnErrorRoute { node } => framed(
                "call node `",
                node.as_str(),
                "` has on_error route that may not be empty",
            ),
            FlowValidationError::EmptyJoinMembers { node } => framed(
                "call node `",
                node.as_str(),
                "` join clause must specify at least one node",
            ),
            FlowValidationError::InvalidMappingEntry { node, key } => {
                let a = framed("call node `", node.as_str(), "` mapping entry `");
                framed(a.as_str(), key.as_str(), "` is invalid")
            },
            FlowValidationError::MissingScopeTenant { node } => framed(
                "scope for node `",
                node.as_str(),
                "` must include a tenant",
            ),
            FlowValidationError::MissingErrorCode { name } => framed("error spec `", name.as_str(), "` must include a code"),
        }
    }
}

}
