//! Executing the nodes of a flow: validating what comes in, calling out with
//! retries, fallback and idempotent replay, and assembling what goes out.
use vstd::prelude::*;
use crate::contract::{keys_ascending, CallMode, CallSpec, InSpec, JoinStrategy, OnErrorSpec, OutSpec, ParamKind, Scope, ValidatorSpec};
use crate::ctx::{
    object_entries, path_segments, path_settable, set_in, set_value_path, settable, snapshot_of,
    state_or_params, Ctx, StatePathError,
};
use crate::error::{ExecError, ExecErrorV, IdempotencyStoreError, ResolverErrorV};
use crate::json::{
    entries_view, get_entry, insert_entry, items_view, lemma_entries_view, lemma_items_view,
    obj_get, obj_insert, Json, JsonV,
};
use crate::pattern::glob_match;
use crate::resolver::{kind_name, kind_text, retryable_kind, CallRequest, ResolverError, ResolverResponse};
use crate::scope::opt_view;
use crate::templating::{render_result, TemplateEngine};
use crate::text::{concat, owned, same_text, views};

verus! {

/// The result of a call node.
#[derive(Debug, Clone)]
pub struct CallOutcome {
    pub value: Json,
    pub attempts: u32,
    pub mode: CallMode,
    pub fanout: Option<Vec<Json>>,
    pub fallback_used: bool,
    pub idempotent_replay: bool,
}

impl CallOutcome {
    pub fn new(value: Json, attempts: u32, mode: CallMode) -> (o: CallOutcome)
        ensures
            o.value == value,
            o.attempts == attempts,
            o.mode == mode,
            o.fanout is None,
            !o.fallback_used,
            !o.idempotent_replay,
    {
        CallOutcome { value, attempts, mode, fanout: None, fallback_used: false, idempotent_replay: false }
    }
}

// ---------------------------------------------------------------------------
// Values against their declared kinds.

/// Whether a value has the kind a parameter declares.
pub open spec fn kind_matches(kind: ParamKind, v: JsonV) -> bool {
    match kind {
        ParamKind::String => v is Str,
        ParamKind::Integer => v is Number && crate::json::is_i64_number(v->Number_0),
        ParamKind::Number => v is Number,
        ParamKind::Boolean => v is Bool,
        ParamKind::Object => v is Object,
        ParamKind::Array => v is Array,
    }
}

/// The name of a kind, as it is shown.
pub open spec fn kind_debug(kind: ParamKind) -> Seq<char> {
    match kind {
        ParamKind::String => "String"@,
        ParamKind::Integer => "Integer"@,
        ParamKind::Number => "Number"@,
        ParamKind::Boolean => "Boolean"@,
        ParamKind::Object => "Object"@,
        ParamKind::Array => "Array"@,
    }
}

/// The failure for a value `name` of the wrong kind.
pub open spec fn kind_error(name: Seq<char>, kind: ParamKind) -> ExecErrorV {
    ExecErrorV::Validation("value `"@ + name + "` expected "@ + kind_debug(kind))
}

pub fn matches_kind(kind: &ParamKind, value: &Json) -> (b: bool)
    ensures
        b == kind_matches(*kind, value@),
{
    match kind {
        ParamKind::String => value.is_string(),
        ParamKind::Integer => value.is_i64(),
        ParamKind::Number => value.is_number(),
        ParamKind::Boolean => value.is_boolean(),
        ParamKind::Object => value.is_object(),
        ParamKind::Array => value.is_array(),
    }
}

fn kind_label(kind: ParamKind) -> (s: &'static str)
    ensures
        s@ == kind_debug(kind),
{
    proof {
        reveal_strlit("String");
        reveal_strlit("Integer");
        reveal_strlit("Number");
        reveal_strlit("Boolean");
        reveal_strlit("Object");
        reveal_strlit("Array");
    }
    match kind {
        ParamKind::String => "String",
        ParamKind::Integer => "Integer",
        ParamKind::Number => "Number",
        ParamKind::Boolean => "Boolean",
        ParamKind::Object => "Object",
        ParamKind::Array => "Array",
    }
}

/// Checks a value against the kind its validator declares.
pub fn validate_value(name: &str, value: &Json, validator: &ValidatorSpec) -> (r: Result<(), ExecError>)
    ensures
        match r {
            Ok(()) => kind_matches(validator.kind, value@),
            Err(e) => !kind_matches(validator.kind, value@) && e@ == kind_error(name@, validator.kind),
        },
{
    if !matches_kind(&validator.kind, value) {
        let head = concat("value `", name);
        let mid = concat(head.as_str(), "` expected ");
        let msg = concat(mid.as_str(), kind_label(validator.kind));
        return Err(ExecError::Validation(msg));
    }
    Ok(())
}

// ---------------------------------------------------------------------------
// Scope, timing and retry delays.

/// The mismatch between the scope a call requires and the caller's, if any:
/// first the tenant, then the team, then the user, each when required.
pub open spec fn scope_mismatch(expected: Scope, actual: Scope) -> Option<(Seq<char>, Seq<char>)> {
    if expected.tenant@ != actual.tenant@ {
        Some((expected.tenant@, actual.tenant@))
    } else if expected.team is Some && opt_view(actual.team) != Some(expected.team->0@) {
        Some((expected.team->0@, unwrap_text(actual.team)))
    } else if expected.user is Some && opt_view(actual.user) != Some(expected.user->0@) {
        Some((expected.user->0@, unwrap_text(actual.user)))
    } else {
        None
    }
}

/// An optional text, empty when absent.
pub open spec fn unwrap_text(t: Option<String>) -> Seq<char> {
    match t {
        Some(s) => s@,
        None => Seq::empty(),
    }
}

fn opt_same(a: &Option<String>, b: &String) -> (r: bool)
    ensures
        r == (opt_view(*a) == Some(b@)),
{
    match a {
        Some(x) => same_text(x.as_str(), b.as_str()),
        None => false,
    }
}

fn text_or_empty(t: &Option<String>) -> (s: String)
    ensures
        s@ == unwrap_text(*t),
{
    match t {
        Some(x) => x.clone(),
        None => String::new(),
    }
}

/// A call that names a scope may only run for a caller of that tenant, team and user.
pub fn ensure_scope_compatible(expected: &Scope, actual: &Scope) -> (r: Result<(), ExecError>)
    ensures
        match scope_mismatch(*expected, *actual) {
            None => r is Ok,
            Some((e, a)) => r is Err && r->Err_0@ == ExecErrorV::ScopeMismatch(e, a),
        },
{
    if !same_text(expected.tenant.as_str(), actual.tenant.as_str()) {
        return Err(
            ExecError::ScopeMismatch { expected: expected.tenant.clone(), actual: actual.tenant.clone() },
        );
    }
    if let Some(team) = &expected.team {
        if !opt_same(&actual.team, team) {
            return Err(ExecError::ScopeMismatch { expected: team.clone(), actual: text_or_empty(&actual.team) });
        }
    }
    if let Some(user) = &expected.user {
        if !opt_same(&actual.user, user) {
            return Err(ExecError::ScopeMismatch { expected: user.clone(), actual: text_or_empty(&actual.user) });
        }
    }
    Ok(())
}

/// Where a context's deadline stands at the moment the clock was read.
#[derive(Debug, Clone, Copy, PartialEq, Eq, Structural)]
pub enum DeadlineStatus {
    /// The context has no deadline.
    Unbounded,
    /// The deadline is this many nanoseconds away (possibly none).
    Remaining(u128),
    /// The deadline has passed.
    Passed,
}

/// Nanoseconds in a millisecond.
pub const NANOS_PER_MILLI: u128 = 1_000_000;

/// The time an attempt may take: the shorter of what is left before the
/// deadline and the node's own timeout, in nanoseconds.
pub open spec fn timeout_of(deadline: DeadlineStatus, timeout_ms: Option<u64>) -> Option<u128> {
    match (deadline, timeout_ms) {
        (DeadlineStatus::Remaining(a), Some(ms)) => Some(
            if a <= ms * NANOS_PER_MILLI { a } else { (ms * NANOS_PER_MILLI) as u128 },
        ),
        (DeadlineStatus::Remaining(a), None) => Some(a),
        (_, Some(ms)) => Some((ms * NANOS_PER_MILLI) as u128),
        (_, None) => None,
    }
}

/// The timeout of the next attempt; a passed deadline fails the node.
pub fn compute_timeout(deadline: DeadlineStatus, timeout_ms: Option<u64>, node_name: &str) -> (r: Result<Option<u128>, ExecError>)
    ensures
        deadline == DeadlineStatus::Passed ==> r is Err && r->Err_0@ == ExecErrorV::DeadlineExceeded(node_name@),
        deadline != DeadlineStatus::Passed ==> r == Ok::<Option<u128>, ExecError>(timeout_of(deadline, timeout_ms)),
{
    let node_timeout: Option<u128> = match timeout_ms {
        Some(ms) => Some(ms as u128 * NANOS_PER_MILLI),
        None => None,
    };
    match deadline {
        DeadlineStatus::Passed => Err(ExecError::DeadlineExceeded { node: owned(node_name) }),
        DeadlineStatus::Remaining(a) => match node_timeout {
            Some(b) => Ok(Some(if a <= b { a } else { b })),
            None => Ok(Some(a)),
        },
        DeadlineStatus::Unbounded => Ok(node_timeout),
    }
}

/// The delay before the next retry: 100 ms after none, else double (capped
/// at `u64::MAX`), never more than `max` when one is set.
pub open spec fn next_delay(current: u64, max_opt: Option<u64>) -> u64 {
    let next: u64 = if current == 0 {
        100
    } else if current * 2 > u64::MAX {
        u64::MAX
    } else {
        (current * 2) as u64
    };
    match max_opt {
        Some(max) => if next <= max { next } else { max },
        None => next,
    }
}

/// Retry delays grow: a delay within the cap never shrinks and never passes
/// the cap, and without a cap it never shrinks; the first retry after none
/// waits 100 ms unless the cap is lower.
pub proof fn law_backoff_grows(current: u64, max_opt: Option<u64>)
    ensures
        match max_opt {
            Some(max) => next_delay(current, max_opt) <= max && (current <= max ==> current <= next_delay(current, max_opt)),
            None => current <= next_delay(current, max_opt),
        },
        current == 0 ==> next_delay(current, max_opt) == match max_opt {
            Some(max) => if 100 <= max { 100 } else { max },
            None => 100,
        },
{
}

pub fn compute_next_delay(current: u64, max_opt: Option<u64>) -> (d: u64)
    ensures
        d == next_delay(current, max_opt),
{
    let next: u64 = if current == 0 {
        100
    } else if current > u64::MAX / 2 {
        u64::MAX
    } else {
        current * 2
    };
    match max_opt {
        Some(max) => if next <= max { next } else { max },
        None => next,
    }
}

// ---------------------------------------------------------------------------
// Fan-out joins.

/// The strategy a call joins its fan-out with: `all` unless stated.
pub open spec fn join_strategy_of(spec: CallSpec) -> JoinStrategy {
    match spec.join {
        Some(j) => match j.strategy {
            Some(s) => s,
            None => JoinStrategy::All,
        },
        None => JoinStrategy::All,
    }
}

/// The first answer that is not `null`, if any.
pub open spec fn first_non_null(values: Seq<JsonV>) -> Option<JsonV>
    decreases values.len(),
{
    if values.len() == 0 {
        None
    } else if !(values[0] is Null) {
        Some(values[0])
    } else {
        first_non_null(values.drop_first())
    }
}

/// The joined answer: every answer in an array for `all`, the first answer
/// that is not `null` (else `null`) for `any`.
pub open spec fn joined(strategy: JoinStrategy, values: Seq<JsonV>) -> JsonV {
    match strategy {
        JoinStrategy::All => JsonV::Array(values),
        JoinStrategy::Any => match first_non_null(values) {
            Some(v) => v,
            None => JsonV::Null,
        },
    }
}

/// Joining with `any` gives the answer of lowest position that is not
/// `null`: when `values[i]` is not `null` and every earlier answer is, the
/// joined answer is `values[i]`.
pub proof fn law_join_any_first(values: Seq<JsonV>, i: int)
    requires
        0 <= i < values.len(),
        !(values[i] is Null),
        forall|j: int| 0 <= j < i ==> values[j] is Null,
    ensures
        joined(JoinStrategy::Any, values) == values[i],
    decreases i,
{
    lemma_first_non_null_at(values, i);
}

proof fn lemma_first_non_null_at(values: Seq<JsonV>, i: int)
    requires
        0 <= i < values.len(),
        !(values[i] is Null),
        forall|j: int| 0 <= j < i ==> values[j] is Null,
    ensures
        first_non_null(values) == Some(values[i]),
    decreases i,
{
    if i > 0 {
        let rest = values.drop_first();
        assert(values[0] is Null);
        assert forall|j: int| 0 <= j < i - 1 implies rest[j] is Null by {
            assert(rest[j] == values[j + 1]);
        }
        assert(rest[i - 1] == values[i]);
        lemma_first_non_null_at(rest, i - 1);
    }
}

proof fn lemma_first_non_null_none(values: Seq<JsonV>)
    requires
        forall|j: int| 0 <= j < values.len() ==> values[j] is Null,
    ensures
        first_non_null(values) is None,
    decreases values.len(),
{
    if values.len() > 0 {
        let rest = values.drop_first();
        assert forall|j: int| 0 <= j < rest.len() implies rest[j] is Null by {
            assert(rest[j] == values[j + 1]);
        }
        lemma_first_non_null_none(rest);
    }
}

/// Joining with `any` answers `null` exactly when every answer is `null`;
/// joining with `all` keeps every answer, in order.
pub proof fn law_join_shapes(values: Seq<JsonV>)
    ensures
        (forall|j: int| 0 <= j < values.len() ==> values[j] is Null) ==> joined(JoinStrategy::Any, values) == JsonV::Null,
        joined(JoinStrategy::All, values) is Array,
        joined(JoinStrategy::All, values)->Array_0.len() == values.len(),
        forall|j: int| 0 <= j < values.len() ==> #[trigger] joined(JoinStrategy::All, values)->Array_0[j] == values[j],
{
    if forall|j: int| 0 <= j < values.len() ==> values[j] is Null {
        lemma_first_non_null_none(values);
    }
}

/// A call's join strategy is the one it names, `all` when it names none.
pub proof fn law_join_strategy(spec: CallSpec)
    ensures
        spec.join is Some && spec.join->0.strategy == Some(JoinStrategy::Any) ==> join_strategy_of(spec) == JoinStrategy::Any,
        (spec.join is None || spec.join->0.strategy is None) ==> join_strategy_of(spec) == JoinStrategy::All,
{
}

pub fn aggregate_fanout(spec: &CallSpec, values: &[Json]) -> (r: Result<Json, ExecError>)
    ensures
        r is Ok,
        r->Ok_0@ == joined(join_strategy_of(*spec), items_view(values@)),
{
    let strategy = match &spec.join {
        Some(j) => match j.strategy {
            Some(s) => s,
            None => JoinStrategy::All,
        },
        None => JoinStrategy::All,
    };
    proof {
        lemma_items_view(values@);
    }
    match strategy {
        JoinStrategy::All => {
            let mut out: Vec<Json> = Vec::new();
            let mut i: usize = 0;
            while i < values.len()
                invariant
                    i <= values@.len(),
                    items_view(out@) == items_view(values@.take(i as int)),
                decreases values@.len() - i,
            {
                let x = values[i].clone();
                proof {
                    crate::json::lemma_items_view_push(out@, x);
                    assert(values@.take(i + 1) == values@.take(i as int).push(values@[i as int]));
                    crate::json::lemma_items_view_push(values@.take(i as int), values@[i as int]);
                }
                out.push(x);
                i = i + 1;
            }
            assert(values@.take(values@.len() as int) == values@);
            Ok(Json::Array(out))
        },
        JoinStrategy::Any => {
            assert(items_view(values@).skip(0) == items_view(values@));
            let mut i: usize = 0;
            while i < values.len()
                invariant
                    i <= values@.len(),
                    items_view(values@).len() == values@.len(),
                    forall|j: int| 0 <= j < values@.len() ==> #[trigger] items_view(values@)[j] == crate::json::json_view(values@[j]),
                    first_non_null(items_view(values@)) == first_non_null(items_view(values@).skip(i as int)),
                    join_strategy_of(*spec) == JoinStrategy::Any,
                decreases values@.len() - i,
            {
                let ghost rest = items_view(values@).skip(i as int);
                if !values[i].is_null() {
                    proof {
                        assert(rest[0] == crate::json::json_view(values@[i as int]));
                        assert(rest.len() > 0);
                    }
                    return Ok(values[i].clone());
                }
                proof {
                    assert(rest.drop_first() == items_view(values@).skip(i + 1));
                }
                i = i + 1;
            }
            Ok(Json::Null)
        },
    }
}


// ---------------------------------------------------------------------------
// The entry node.

/// Whether a pattern of an allow list admits the context's caller.
pub open spec fn pattern_permits(ctx: Ctx, pattern: Seq<char>) -> bool {
    pattern == "*"@ || exists|j: int|
        0 <= j < ctx.permissions@.len() && #[trigger] glob_match(pattern, ctx.permissions@[j]@)
}

/// Whether an allow list admits the context's caller: an empty list admits
/// everyone, else one of its patterns must.
pub open spec fn allowed(ctx: Ctx, allow: Seq<String>) -> bool {
    allow.len() == 0 || exists|i: int| 0 <= i < allow.len() && #[trigger] pattern_permits(ctx, allow[i]@)
}

pub open spec fn missing_param_error(name: Seq<char>) -> ExecErrorV {
    ExecErrorV::Validation("missing required param `"@ + name + "`"@)
}

pub open spec fn missing_return_error(name: Seq<char>) -> ExecErrorV {
    ExecErrorV::Validation("missing required return `"@ + name + "`"@)
}

/// The validated parameters after the declared ones, in order: a supplied
/// value must have its kind, a missing one must not be required and falls
/// back to its default when it has one.
pub open spec fn validate_params(params: Seq<(String, ValidatorSpec)>, input: Seq<(Seq<char>, JsonV)>) -> Result<
    Seq<(Seq<char>, JsonV)>,
    ExecErrorV,
>
    decreases params.len(),
{
    if params.len() == 0 {
        Ok(Seq::empty())
    } else {
        match validate_params(params.drop_last(), input) {
            Err(e) => Err(e),
            Ok(acc) => {
                let name = params.last().0@;
                let v = params.last().1;
                match obj_get(input, name) {
                    Some(x) => if kind_matches(v.kind, x) {
                        Ok(obj_insert(acc, name, x))
                    } else {
                        Err(kind_error(name, v.kind))
                    },
                    None => if v.required {
                        Err(missing_param_error(name))
                    } else {
                        match v.default {
                            Some(d) => Ok(obj_insert(acc, name, d@)),
                            None => Ok(acc),
                        }
                    },
                }
            },
        }
    }
}

/// `acc` with every input entry whose key it lacks added, in input order.
pub open spec fn keep_unset(acc: Seq<(Seq<char>, JsonV)>, input: Seq<(Seq<char>, JsonV)>) -> Seq<
    (Seq<char>, JsonV),
>
    decreases input.len(),
{
    if input.len() == 0 {
        acc
    } else {
        let prev = keep_unset(acc, input.drop_last());
        if obj_get(prev, input.last().0) is None {
            obj_insert(prev, input.last().0, input.last().1)
        } else {
            prev
        }
    }
}

/// What the entry node makes of the inbound parameters: the validated
/// parameters followed by the undeclared ones, or why it refuses them.
pub open spec fn in_result(ctx: Ctx, spec: InSpec) -> Result<JsonV, ExecErrorV> {
    if !allowed(ctx, spec.allow@) {
        Err(ExecErrorV::PermissionDenied(views(spec.allow@)))
    } else {
        match ctx.params@ {
            JsonV::Object(input) => match validate_params(spec.params@, input) {
                Ok(acc) => Ok(JsonV::Object(keep_unset(acc, input))),
                Err(e) => Err(e),
            },
            _ => Err(ExecErrorV::Validation("inbound payload must be an object"@)),
        }
    }
}

proof fn lemma_validate_params_err(params: Seq<(String, ValidatorSpec)>, n: int, input: Seq<(Seq<char>, JsonV)>)
    requires
        0 <= n <= params.len(),
        validate_params(params.take(n), input) is Err,
    ensures
        validate_params(params, input) == validate_params(params.take(n), input),
    decreases params.len() - n,
{
    if n < params.len() {
        assert(params.take(n + 1).drop_last() == params.take(n));
        lemma_validate_params_err(params, n + 1, input);
    } else {
        assert(params.take(n) == params);
    }
}

proof fn lemma_collect_returns_err(ctx: Ctx, decls: Seq<(String, ValidatorSpec)>, n: int)
    requires
        0 <= n <= decls.len(),
        collect_returns(ctx, decls.take(n)) is Err,
    ensures
        collect_returns(ctx, decls) == collect_returns(ctx, decls.take(n)),
    decreases decls.len() - n,
{
    if n < decls.len() {
        assert(decls.take(n + 1).drop_last() == decls.take(n));
        lemma_collect_returns_err(ctx, decls, n + 1);
    } else {
        assert(decls.take(n) == decls);
    }
}

fn message3(a: &str, b: &str, c: &str) -> (s: String)
    ensures
        s@ == a@ + b@ + c@,
{
    let ab = concat(a, b);
    concat(ab.as_str(), c)
}

/// Admits the caller, validates the inbound parameters against the entry
/// node and replaces them by the validated ones.
pub fn exec_in(flow_id: &str, node_name: &str, ctx: &mut Ctx, spec: &InSpec) -> (r: Result<(), ExecError>)
    requires
        keys_ascending(spec.params@),
    ensures
        match in_result(*old(ctx), *spec) {
            Ok(p) => r is Ok && final(ctx).params@ == p,
            Err(e) => r is Err && r->Err_0@ == e && final(ctx).params == old(ctx).params,
        },
        final(ctx).state == old(ctx).state,
        final(ctx).meta == old(ctx).meta,
        final(ctx).deadline == old(ctx).deadline,
        final(ctx).idempotency_key == old(ctx).idempotency_key,
        final(ctx).permissions == old(ctx).permissions,
{
    if spec.allow.len() > 0 {
        let mut i: usize = 0;
        let mut permitted = false;
        while i < spec.allow.len() && !permitted
            invariant
                i <= spec.allow@.len(),
                permitted ==> allowed(*ctx, spec.allow@),
                !permitted ==> forall|j: int| 0 <= j < i ==> !pattern_permits(*ctx, #[trigger] spec.allow@[j]@),
            decreases spec.allow@.len() - i,
        {
            if ctx.has_permission_pattern(spec.allow[i].as_str()) {
                assert(pattern_permits(*ctx, spec.allow@[i as int]@));
                permitted = true;
            }
            i = i + 1;
        }
        if !permitted {
            return Err(ExecError::PermissionDenied { required: crate::text::clone_texts(&spec.allow) });
        }
    }
    assert(allowed(*ctx, spec.allow@));
    let input: &Vec<(String, Json)> = match &ctx.params {
        Json::Object(e) => e,
        _ => {
            proof {
                reveal_strlit("inbound payload must be an object");
            }
            return Err(ExecError::Validation(owned("inbound payload must be an object")));
        },
    };
    let ghost inp = entries_view(input@);
    let mut validated: Vec<(String, Json)> = Vec::new();
    let mut i: usize = 0;
    while i < spec.params.len()
        invariant
            i <= spec.params@.len(),
            ctx.params@ == JsonV::Object(inp),
            inp == entries_view(input@),
            *ctx == *old(ctx),
            allowed(*ctx, spec.allow@),
            validate_params(spec.params@.take(i as int), inp) == Ok::<Seq<(Seq<char>, JsonV)>, ExecErrorV>(
                entries_view(validated@),
            ),
        decreases spec.params@.len() - i,
    {
        let name = &spec.params[i].0;
        let validator = &spec.params[i].1;
        proof {
            assert(spec.params@.take(i + 1).drop_last() == spec.params@.take(i as int));
            assert(spec.params@.take(i + 1).last() == spec.params@[i as int]);
        }
        match get_entry(input, name.as_str()) {
            Some(value) => {
                let checked = validate_value(name.as_str(), value, validator);
                if checked.is_err() {
                    proof {
                        lemma_validate_params_err(spec.params@, i + 1, inp);
                    }
                    return checked;
                }
                insert_entry(&mut validated, name.clone(), value.clone());
            },
            None => {
                if validator.required {
                    proof {
                        reveal_strlit("missing required param `");
                        reveal_strlit("`");
                        lemma_validate_params_err(spec.params@, i + 1, inp);
                    }
                    return Err(ExecError::Validation(message3("missing required param `", name.as_str(), "`")));
                }
                match &validator.default {
                    Some(d) => {
                        insert_entry(&mut validated, name.clone(), d.clone());
                    },
                    None => {},
                }
            },
        }
        i = i + 1;
    }
    assert(spec.params@.take(spec.params@.len() as int) == spec.params@);
    let ghost acc = entries_view(validated@);
    proof {
        lemma_entries_view(input@);
    }
    let mut j: usize = 0;
    while j < input.len()
        invariant
            j <= input@.len(),
            inp == entries_view(input@),
            inp.len() == input@.len(),
            forall|k: int| 0 <= k < input@.len() ==> #[trigger] inp[k] == (input@[k].0@, crate::json::json_view(input@[k].1)),
            entries_view(validated@) == keep_unset(acc, inp.take(j as int)),
        decreases input@.len() - j,
    {
        proof {
            assert(inp.take(j + 1).drop_last() == inp.take(j as int));
            assert(inp.take(j + 1).last() == inp[j as int]);
        }
        if get_entry(&validated, input[j].0.as_str()).is_none() {
            insert_entry(&mut validated, input[j].0.clone(), input[j].1.clone());
        }
        j = j + 1;
    }
    assert(inp.take(input@.len() as int) == inp);
    ctx.params = Json::Object(validated);
    Ok(())
}

// ---------------------------------------------------------------------------
// The response node.

/// The returns after the declared ones, in order: each is looked up in the
/// state, then in the params; a found value must have its kind, a missing one
/// must not be required and falls back to its default when it has one.
pub open spec fn collect_returns(ctx: Ctx, decls: Seq<(String, ValidatorSpec)>) -> Result<
    Seq<(Seq<char>, JsonV)>,
    ExecErrorV,
>
    decreases decls.len(),
{
    if decls.len() == 0 {
        Ok(Seq::empty())
    } else {
        match collect_returns(ctx, decls.drop_last()) {
            Err(e) => Err(e),
            Ok(acc) => {
                let key = decls.last().0@;
                let v = decls.last().1;
                match state_or_params(ctx, key) {
                    Some(x) => if kind_matches(v.kind, x) {
                        Ok(obj_insert(acc, key, x))
                    } else {
                        Err(kind_error(key, v.kind))
                    },
                    None => if v.required {
                        Err(missing_return_error(key))
                    } else {
                        match v.default {
                            Some(d) => Ok(obj_insert(acc, key, d@)),
                            None => Ok(acc),
                        }
                    },
                }
            },
        }
    }
}

/// Assembles the object a flow hands back from its state and params.
pub fn exec_out(flow_id: &str, node_name: &str, ctx: &Ctx, spec: &OutSpec) -> (r: Result<Json, ExecError>)
    requires
        keys_ascending(spec.returns@),
    ensures
        match collect_returns(*ctx, spec.returns@) {
            Ok(p) => r is Ok && r->Ok_0@ == JsonV::Object(p),
            Err(e) => r is Err && r->Err_0@ == e,
        },
{
    let mut payload: Vec<(String, Json)> = Vec::new();
    let mut i: usize = 0;
    while i < spec.returns.len()
        invariant
            i <= spec.returns@.len(),
            collect_returns(*ctx, spec.returns@.take(i as int)) == Ok::<Seq<(Seq<char>, JsonV)>, ExecErrorV>(
                entries_view(payload@),
            ),
        decreases spec.returns@.len() - i,
    {
        let key = &spec.returns[i].0;
        let validator = &spec.returns[i].1;
        proof {
            assert(spec.returns@.take(i + 1).drop_last() == spec.returns@.take(i as int));
            assert(spec.returns@.take(i + 1).last() == spec.returns@[i as int]);
        }
        match ctx.get_from_state_or_params(key.as_str()) {
            Some(value) => {
                let checked = validate_value(key.as_str(), value, validator);
                if checked.is_err() {
                    proof {
                        lemma_collect_returns_err(*ctx, spec.returns@, i + 1);
                    }
                    return Err(checked.unwrap_err());
                }
                insert_entry(&mut payload, key.clone(), value.clone());
            },
            None => {
                if validator.required {
                    proof {
                        reveal_strlit("missing required return `");
                        reveal_strlit("`");
                        lemma_collect_returns_err(*ctx, spec.returns@, i + 1);
                    }
                    return Err(ExecError::Validation(message3("missing required return `", key.as_str(), "`")));
                }
                match &validator.default {
                    Some(d) => {
                        insert_entry(&mut payload, key.clone(), d.clone());
                    },
                    None => {},
                }
            },
        }
        i = i + 1;
    }
    assert(spec.returns@.take(spec.returns@.len() as int) == spec.returns@);
    Ok(Json::Object(payload))
}


// ---------------------------------------------------------------------------
// Mapping values into requests and results into the state.

/// How a run of mappings ended: with the value built, with a failure (and the
/// value as far as it got), or stopped at a target path that runs through a
/// value that is not an object, where no mapping can go on.
pub enum Mapped {
    Done(JsonV),
    Failed(JsonV, ExecErrorV),
    Stuck,
}

/// Writes each rendered template at its target path of `root`, in order.
pub open spec fn map_into(root: JsonV, data: JsonV, entries: Seq<(String, String)>) -> Mapped
    decreases entries.len(),
{
    if entries.len() == 0 {
        Mapped::Done(root)
    } else {
        match map_into(root, data, entries.drop_last()) {
            Mapped::Done(cur) => {
                let target = entries.last().0@;
                let template = entries.last().1@;
                match render_result(template, data) {
                    None => Mapped::Failed(cur, ExecErrorV::Template(template)),
                    Some(v) => if !path_settable(cur, target) {
                        Mapped::Stuck
                    } else {
                        match path_segments(target) {
                            Ok(segs) => Mapped::Done(JsonV::Object(set_in(object_entries(cur), segs, v))),
                            Err(e) => Mapped::Failed(
                                JsonV::Object(object_entries(cur)),
                                ExecErrorV::StatePath(target, e),
                            ),
                        }
                    },
                }
            },
            other => other,
        }
    }
}

/// The request payload of a call: the params as they are when nothing is
/// mapped, else each mapped template rendered over the context and written at
/// its path of an empty object.
pub open spec fn payload_of(ctx: Ctx, spec: CallSpec) -> Mapped {
    if spec.params_map@.len() == 0 {
        Mapped::Done(ctx.params@)
    } else {
        map_into(JsonV::Object(Seq::empty()), snapshot_of(ctx), spec.params_map@)
    }
}

proof fn lemma_map_into_stops(root: JsonV, data: JsonV, entries: Seq<(String, String)>, n: int)
    requires
        0 <= n <= entries.len(),
        !(map_into(root, data, entries.take(n)) is Done),
    ensures
        map_into(root, data, entries) == map_into(root, data, entries.take(n)),
    decreases entries.len() - n,
{
    if n < entries.len() {
        assert(entries.take(n + 1).drop_last() == entries.take(n));
        lemma_map_into_stops(root, data, entries, n + 1);
    } else {
        assert(entries.take(n) == entries);
    }
}

/// Builds the request payload of a call; nothing when a target path runs
/// through a value that is not an object.
pub fn build_call_payload(ctx: &Ctx, spec: &CallSpec, templates: &TemplateEngine) -> (r: Option<Result<Json, ExecError>>)
    requires
        keys_ascending(spec.params_map@),
    ensures
        match payload_of(*ctx, *spec) {
            Mapped::Done(v) => r matches Some(Ok(p)) && p@ == v,
            Mapped::Failed(_, e) => r matches Some(Err(err)) && err@ == e,
            Mapped::Stuck => r is None,
        },
{
    if spec.params_map.len() == 0 {
        return Some(Ok(ctx.params.clone()));
    }
    let ghost data = snapshot_of(*ctx);
    let ghost start = JsonV::Object(Seq::empty());
    let mut root = Json::Object(Vec::new());
    let mut i: usize = 0;
    while i < spec.params_map.len()
        invariant
            i <= spec.params_map@.len(),
            spec.params_map@.len() > 0,
            data == snapshot_of(*ctx),
            start == JsonV::Object(Seq::<(Seq<char>, JsonV)>::empty()),
            map_into(start, data, spec.params_map@.take(i as int)) == Mapped::Done(root@),
        decreases spec.params_map@.len() - i,
    {
        let target = &spec.params_map[i].0;
        let template = &spec.params_map[i].1;
        proof {
            assert(spec.params_map@.take(i + 1).drop_last() == spec.params_map@.take(i as int));
            assert(spec.params_map@.take(i + 1).last() == spec.params_map@[i as int]);
        }
        let value = match templates.render_value(template.as_str(), ctx) {
            Ok(v) => v,
            Err(e) => {
                proof {
                    lemma_map_into_stops(start, data, spec.params_map@, i + 1);
                }
                return Some(Err(ExecError::Template { template: template.clone(), source: e }));
            },
        };
        if !crate::ctx::path_is_settable(&root, target.as_str()) {
            proof {
                lemma_map_into_stops(start, data, spec.params_map@, i + 1);
            }
            return None;
        }
        match set_value_path(&mut root, target.as_str(), value) {
            Ok(()) => {},
            Err(e) => {
                proof {
                    lemma_map_into_stops(start, data, spec.params_map@, i + 1);
                }
                return Some(Err(ExecError::StatePath { path: target.clone(), source: e }));
            },
        }
        i = i + 1;
    }
    assert(spec.params_map@.take(spec.params_map@.len() as int) == spec.params_map@);
    Some(Ok(root))
}

/// What templates of a result map see: the context's snapshot with the
/// result under `result`.
pub open spec fn result_data(ctx: Ctx, result: JsonV) -> JsonV {
    JsonV::Object(obj_insert(object_entries(snapshot_of(ctx)), "result"@, result))
}

/// The state after a call's result is applied: stored under `result` when
/// nothing is mapped, else each mapped template rendered over the result and
/// the context and written at its path of the state.
pub open spec fn applied_state(ctx: Ctx, spec: CallSpec, result: JsonV) -> Mapped {
    if spec.result_map@.len() == 0 {
        Mapped::Done(JsonV::Object(obj_insert(object_entries(ctx.state@), "result"@, result)))
    } else {
        map_into(ctx.state@, result_data(ctx, result), spec.result_map@)
    }
}

/// Everything but the state of two contexts agrees.
pub open spec fn same_but_state(a: Ctx, b: Ctx) -> bool {
    &&& a.params == b.params
    &&& a.meta == b.meta
    &&& a.deadline == b.deadline
    &&& a.idempotency_key == b.idempotency_key
    &&& a.permissions == b.permissions
}

/// Applies a call's result to the state; nothing when a target path runs
/// through a value that is not an object.
pub fn apply_result_map(ctx: &mut Ctx, spec: &CallSpec, result: &Json, templates: &TemplateEngine) -> (r: Option<Result<(), ExecError>>)
    requires
        keys_ascending(spec.result_map@),
    ensures
        same_but_state(*final(ctx), *old(ctx)),
        match applied_state(*old(ctx), *spec, result@) {
            Mapped::Done(st) => r matches Some(Ok(())) && final(ctx).state@ == st,
            Mapped::Failed(st, e) => r matches Some(Err(err)) && err@ == e && final(ctx).state@ == st,
            Mapped::Stuck => r is None,
        },
{
    if spec.result_map.len() == 0 {
        ctx.ensure_state_object();
        let mut taken = Json::Null;
        std::mem::swap(&mut taken, &mut ctx.state);
        let mut entries = match taken {
            Json::Object(e) => e,
            _ => Vec::new(),
        };
        proof {
            reveal_strlit("result");
        }
        insert_entry(&mut entries, owned("result"), result.clone());
        ctx.state = Json::Object(entries);
        return Some(Ok(()));
    }
    let snapshot = ctx.template_snapshot();
    let mut data_entries = match snapshot {
        Json::Object(e) => e,
        _ => Vec::new(),
    };
    proof {
        reveal_strlit("result");
    }
    insert_entry(&mut data_entries, owned("result"), result.clone());
    let data = Json::Object(data_entries);
    let ghost before = *ctx;
    let ghost dv = result_data(before, result@);
    assert(data@ == dv);
    let mut i: usize = 0;
    while i < spec.result_map.len()
        invariant
            i <= spec.result_map@.len(),
            spec.result_map@.len() > 0,
            data@ == dv,
            dv == result_data(before, result@),
            before == *old(ctx),
            same_but_state(*ctx, before),
            map_into(before.state@, dv, spec.result_map@.take(i as int)) == Mapped::Done(ctx.state@),
        decreases spec.result_map@.len() - i,
    {
        let path = &spec.result_map[i].0;
        let template = &spec.result_map[i].1;
        proof {
            assert(spec.result_map@.take(i + 1).drop_last() == spec.result_map@.take(i as int));
            assert(spec.result_map@.take(i + 1).last() == spec.result_map@[i as int]);
        }
        let value = match templates.render_with_data(template.as_str(), &data) {
            Ok(v) => v,
            Err(e) => {
                proof {
                    lemma_map_into_stops(before.state@, dv, spec.result_map@, i + 1);
                }
                return Some(Err(ExecError::Template { template: template.clone(), source: e }));
            },
        };
        if !crate::ctx::path_is_settable(&ctx.state, path.as_str()) {
            proof {
                lemma_map_into_stops(before.state@, dv, spec.result_map@, i + 1);
            }
            return None;
        }
        match ctx.set_state_path(path.as_str(), value) {
            Ok(()) => {},
            Err(e) => {
                proof {
                    lemma_map_into_stops(before.state@, dv, spec.result_map@, i + 1);
                }
                return Some(Err(ExecError::StatePath { path: path.clone(), source: e }));
            },
        }
        i = i + 1;
    }
    assert(spec.result_map@.take(spec.result_map@.len() as int) == spec.result_map@);
    Some(Ok(()))
}


// ---------------------------------------------------------------------------
// Answers and fallbacks.

/// The value an answer stands for: the answer itself, or the joined fan-out.
pub open spec fn response_value(spec: CallSpec, response: ResolverResponse) -> JsonV {
    match response {
        ResolverResponse::Sync(v) => v@,
        ResolverResponse::AsyncAck(v) => v@,
        ResolverResponse::Fanout(vs) => joined(join_strategy_of(spec), items_view(vs@)),
    }
}

/// Applies an answer to the state and turns it into the outcome of one attempt.
pub fn handle_call_response(ctx: &mut Ctx, spec: &CallSpec, response: ResolverResponse, templates: &TemplateEngine) -> (r: Option<Result<CallOutcome, ExecError>>)
    requires
        keys_ascending(spec.result_map@),
    ensures
        same_but_state(*final(ctx), *old(ctx)),
        match applied_state(*old(ctx), *spec, response_value(*spec, response)) {
            Mapped::Done(st) => r matches Some(Ok(o)) && final(ctx).state@ == st
                && o.value@ == response_value(*spec, response) && o.attempts == 1 && o.mode == spec.mode
                && !o.fallback_used && !o.idempotent_replay
                && (match response {
                    ResolverResponse::Fanout(vs) => o.fanout == Some(vs),
                    _ => o.fanout is None,
                }),
            Mapped::Failed(st, e) => r matches Some(Err(err)) && err@ == e && final(ctx).state@ == st,
            Mapped::Stuck => r is None,
        },
{
    match response {
        ResolverResponse::Sync(value) => {
            match apply_result_map(ctx, spec, &value, templates) {
                None => None,
                Some(Err(e)) => Some(Err(e)),
                Some(Ok(())) => Some(Ok(CallOutcome::new(value, 1, spec.mode))),
            }
        },
        ResolverResponse::AsyncAck(value) => {
            match apply_result_map(ctx, spec, &value, templates) {
                None => None,
                Some(Err(e)) => Some(Err(e)),
                Some(Ok(())) => Some(Ok(CallOutcome::new(value, 1, spec.mode))),
            }
        },
        ResolverResponse::Fanout(values) => {
            let aggregate = match aggregate_fanout(spec, values.as_slice()) {
                Ok(v) => v,
                Err(e) => {
                    return Some(Err(e));
                },
            };
            match apply_result_map(ctx, spec, &aggregate, templates) {
                None => None,
                Some(Err(e)) => Some(Err(e)),
                Some(Ok(())) => {
                    let mut outcome = CallOutcome::new(aggregate, 1, spec.mode);
                    outcome.fanout = Some(values);
                    Some(Ok(outcome))
                },
            }
        },
    }
}

/// A resolver failure as templates see it: its kind and its message.
pub open spec fn error_json(err: ResolverError) -> JsonV {
    JsonV::Object(seq![("kind"@, JsonV::Str(kind_text(err.kind))), ("message"@, JsonV::Str(err.message@))])
}

/// What the mapper of a fallback sees: the context's snapshot with the
/// failure under `error` and the last request under `last_request`.
pub open spec fn fallback_data(ctx: Ctx, last_request: JsonV, err: ResolverError) -> JsonV {
    JsonV::Object(
        obj_insert(
            obj_insert(object_entries(snapshot_of(ctx)), "error"@, error_json(err)),
            "last_request"@,
            last_request,
        ),
    )
}

/// The payload of a fallback request: the mapper rendered, else the last request.
pub open spec fn fallback_payload(ctx: Ctx, on_error: OnErrorSpec, last_request: JsonV, err: ResolverError) -> Result<JsonV, ExecErrorV> {
    match on_error.mapper {
        Some(m) => match render_result(m@, fallback_data(ctx, last_request, err)) {
            Some(v) => Ok(v),
            None => Err(ExecErrorV::Template(m@)),
        },
        None => Ok(last_request),
    }
}

/// The request handed to the fallback route of a failed call.
pub fn build_fallback_request(ctx: &Ctx, templates: &TemplateEngine, on_error: &OnErrorSpec, last_request: &Json, err: &ResolverError) -> (r: Result<CallRequest, ExecError>)
    ensures
        match fallback_payload(*ctx, *on_error, last_request@, *err) {
            Ok(p) => r matches Ok(req) && req.params@ == p && req.timeout is None && req.attempt == 1,
            Err(e) => r matches Err(x) && x@ == e,
        },
{
    let snapshot = ctx.template_snapshot();
    let mut entries = match snapshot {
        Json::Object(e) => e,
        _ => Vec::new(),
    };
    let mut error_entries: Vec<(String, Json)> = Vec::new();
    error_entries.push((owned("kind"), Json::String(kind_name(err.kind))));
    error_entries.push((owned("message"), Json::String(err.message.clone())));
    proof {
        reveal_strlit("kind");
        reveal_strlit("message");
        reveal_strlit("error");
        reveal_strlit("last_request");
        lemma_entries_view(error_entries@);
        assert(entries_view(error_entries@) =~= seq![("kind"@, JsonV::Str(kind_text(err.kind))), ("message"@, JsonV::Str(err.message@))]);
    }
    insert_entry(&mut entries, owned("error"), Json::Object(error_entries));
    insert_entry(&mut entries, owned("last_request"), last_request.clone());
    let base = Json::Object(entries);
    assert(base@ == fallback_data(*ctx, last_request@, *err));
    let payload = match &on_error.mapper {
        Some(mapper) => match templates.render_with_data(mapper.as_str(), &base) {
            Ok(v) => v,
            Err(e) => {
                return Err(ExecError::Template { template: mapper.clone(), source: e });
            },
        },
        None => last_request.clone(),
    };
    Ok(CallRequest { params: payload, timeout: None, attempt: 1 })
}


// ---------------------------------------------------------------------------
// A call, step by step. Between two steps the caller does the outside work
// the last step asked for: look a result up in the idempotency store, ask the
// resolver, wait before a retry, ask the fallback route, store a result.

/// Where a call stands between two steps.
#[derive(Debug, Clone, Copy, PartialEq, Eq, Structural)]
pub enum CallPhase {
    Loading,
    Resolving,
    Sleeping,
    FallingBack,
    Storing,
    Finished,
}

/// What the caller did since the last step, and how it went.
#[derive(Debug)]
pub enum CallEvent {
    Loaded(Result<Option<Json>, IdempotencyStoreError>),
    Resolved(Result<ResolverResponse, ResolverError>),
    Slept,
    FallbackResolved(Result<ResolverResponse, ResolverError>),
    Stored(Result<(), IdempotencyStoreError>),
}

/// What the caller is to do next.
#[derive(Debug)]
pub enum CallAction {
    /// Look the result remembered under this key up in the store.
    Load(String),
    /// Ask the resolver.
    Resolve(CallRequest),
    /// Wait this many milliseconds, then step on with `Slept`.
    Sleep(u64),
    /// Ask the resolver for the fallback route of the call's `on_error`.
    ResolveFallback(CallRequest),
    /// Remember this result under this key.
    Store(String, Json),
    /// The call is over.
    Finish(Result<CallOutcome, ExecError>),
    /// A mapped target path runs through a value that is not an object: the
    /// call cannot go on.
    Halt,
}

/// A call in progress.
#[derive(Debug)]
pub struct CallRun {
    pub phase: CallPhase,
    pub attempts: u32,
    pub max_attempts: u32,
    pub delay_ms: u64,
    /// The key results are remembered under, when there is a store.
    pub key: Option<String>,
    /// The payload of the latest request.
    pub last_payload: Json,
    /// The outcome waiting to be stored.
    pub pending: Option<CallOutcome>,
}

/// How many attempts a call gets: its retry count, at least one.
pub open spec fn max_attempts_of(spec: CallSpec) -> u32 {
    match spec.retry {
        Some(r) => if r.attempts >= 1 { r.attempts } else { 1 },
        None => 1,
    }
}

/// The delay before the first retry.
pub open spec fn initial_delay(spec: CallSpec) -> u64 {
    match spec.retry {
        Some(r) => match r.delay_ms {
            Some(d) => d,
            None => 0,
        },
        None => 0,
    }
}

/// The first retry of a call waits exactly the delay its retry policy sets,
/// nothing when it sets none; and a call gets as many attempts as its policy
/// allows, at least one.
pub proof fn law_first_retry_delay(spec: CallSpec)
    ensures
        spec.retry is Some && spec.retry->0.delay_ms is Some ==> initial_delay(spec) == spec.retry->0.delay_ms->0,
        spec.retry is Some && spec.retry->0.delay_ms is None ==> initial_delay(spec) == 0,
        spec.retry is None ==> initial_delay(spec) == 0,
        spec.retry is Some && spec.retry->0.attempts >= 1 ==> max_attempts_of(spec) == spec.retry->0.attempts,
        max_attempts_of(spec) >= 1,
{
}

/// The cap on retry delays, if any.
pub open spec fn max_delay_of(spec: CallSpec) -> Option<u64> {
    match spec.retry {
        Some(r) => r.max_delay_ms,
        None => None,
    }
}

/// Whether an event answers what a phase waits for.
pub open spec fn event_fits(phase: CallPhase, event: CallEvent) -> bool {
    match event {
        CallEvent::Loaded(_) => phase == CallPhase::Loading,
        CallEvent::Resolved(_) => phase == CallPhase::Resolving,
        CallEvent::Slept => phase == CallPhase::Sleeping,
        CallEvent::FallbackResolved(_) => phase == CallPhase::FallingBack,
        CallEvent::Stored(_) => phase == CallPhase::Storing,
    }
}

/// What holds of a run between two steps: the counters hold together, a
/// lookup happens before any attempt, a wait leaves an attempt to make, and
/// what is to be stored has a key.
pub open spec fn run_ok(run: CallRun) -> bool {
    &&& 1 <= run.max_attempts
    &&& run.attempts <= run.max_attempts
    &&& run.phase == CallPhase::Loading ==> run.attempts == 0 && run.key is Some
    &&& run.phase == CallPhase::Sleeping ==> run.attempts < run.max_attempts
    &&& run.phase == CallPhase::Storing ==> run.pending is Some && run.key is Some
}

/// The run is over with this failure.
pub open spec fn failed_with(run: CallRun, a: CallAction, e: ExecErrorV) -> bool {
    run.phase == CallPhase::Finished && (a matches CallAction::Finish(Err(x)) && x@ == e)
}

/// Attempt number `prev + 1` has begun: its payload is built and its request
/// goes to the resolver, unless building fails, the deadline has passed, or a
/// mapped path cannot be written.
pub open spec fn attempt_started(run: CallRun, a: CallAction, ctx: Ctx, spec: CallSpec, clock: DeadlineStatus, node: Seq<char>, prev: u32) -> bool {
    &&& run.attempts == prev + 1
    &&& match payload_of(ctx, spec) {
        Mapped::Stuck => run.phase == CallPhase::Finished && a is Halt,
        Mapped::Failed(_, e) => failed_with(run, a, e),
        Mapped::Done(p) => if clock == DeadlineStatus::Passed {
            failed_with(run, a, ExecErrorV::DeadlineExceeded(node))
        } else {
            &&& run.phase == CallPhase::Resolving
            &&& run.last_payload@ == p
            &&& a matches CallAction::Resolve(req) && req.params@ == p && req.timeout == timeout_of(clock, spec.timeout_ms) && req.attempt == prev + 1
        },
    }
}

/// An answer became this outcome: the value it stands for, after this many
/// attempts, from the call or from its fallback.
pub open spec fn outcome_of(o: CallOutcome, spec: CallSpec, response: ResolverResponse, attempts: u32, fallback: bool) -> bool {
    &&& o.value@ == response_value(spec, response)
    &&& o.attempts == attempts
    &&& o.mode == spec.mode
    &&& o.fallback_used == fallback
    &&& !o.idempotent_replay
    &&& match response {
        ResolverResponse::Fanout(vs) => o.fanout == Some(vs),
        _ => o.fanout is None,
    }
}

/// An answer was applied: the state changed as the result map says, and the
/// outcome is stored first when there is a key, else the call is over.
pub open spec fn answered(run: CallRun, a: CallAction, ctx_before: Ctx, ctx_after: Ctx, spec: CallSpec, response: ResolverResponse, attempts: u32, fallback: bool) -> bool {
    &&& same_but_state(ctx_after, ctx_before)
    &&& match applied_state(ctx_before, spec, response_value(spec, response)) {
        Mapped::Stuck => run.phase == CallPhase::Finished && a is Halt,
        Mapped::Failed(st, e) => ctx_after.state@ == st && failed_with(run, a, e),
        Mapped::Done(st) => ctx_after.state@ == st && match run.key {
            Some(k) => {
                &&& run.phase == CallPhase::Storing
                &&& run.pending matches Some(o) && outcome_of(o, spec, response, attempts, fallback)
                &&& a matches CallAction::Store(kk, v) && kk@ == k@ && v@ == run.pending->0.value@
            },
            None => {
                &&& run.phase == CallPhase::Finished
                &&& a matches CallAction::Finish(Ok(o)) && outcome_of(o, spec, response, attempts, fallback)
            },
        },
    }
}

impl CallRun {
    fn begin_attempt(&mut self, ctx: &Ctx, spec: &CallSpec, templates: &TemplateEngine, node_name: &str, clock: DeadlineStatus) -> (a: CallAction)
        requires
            keys_ascending(spec.result_map@),
            keys_ascending(spec.params_map@),
            old(self).attempts < old(self).max_attempts,
        ensures
            attempt_started(*final(self), a, *ctx, *spec, clock, node_name@, old(self).attempts),
            final(self).max_attempts == old(self).max_attempts,
            final(self).delay_ms == old(self).delay_ms,
            final(self).key == old(self).key,
            final(self).pending == old(self).pending,
    {
        self.attempts = self.attempts + 1;
        let payload = match build_call_payload(ctx, spec, templates) {
            None => {
                self.phase = CallPhase::Finished;
                return CallAction::Halt;
            },
            Some(Err(e)) => {
                self.phase = CallPhase::Finished;
                return CallAction::Finish(Err(e));
            },
            Some(Ok(p)) => p,
        };
        let timeout = match compute_timeout(clock, spec.timeout_ms, node_name) {
            Ok(t) => t,
            Err(e) => {
                self.phase = CallPhase::Finished;
                return CallAction::Finish(Err(e));
            },
        };
        self.phase = CallPhase::Resolving;
        self.last_payload = payload.clone();
        CallAction::Resolve(CallRequest { params: payload, timeout, attempt: self.attempts })
    }

    fn conclude(&mut self, outcome: CallOutcome) -> (a: CallAction)
        ensures
            match old(self).key {
                Some(k) => final(self).phase == CallPhase::Storing && final(self).pending == Some(outcome)
                    && (a matches CallAction::Store(kk, v) && kk@ == k@ && v@ == outcome.value@),
                None => final(self).phase == CallPhase::Finished && a == CallAction::Finish(Ok(outcome)),
            },
            final(self).attempts == old(self).attempts,
            final(self).max_attempts == old(self).max_attempts,
            final(self).delay_ms == old(self).delay_ms,
            final(self).key == old(self).key,
            final(self).last_payload == old(self).last_payload,
    {
        match &self.key {
            Some(k) => {
                let key = k.clone();
                let value = outcome.value.clone();
                self.phase = CallPhase::Storing;
                self.pending = Some(outcome);
                CallAction::Store(key, value)
            },
            None => {
                self.phase = CallPhase::Finished;
                CallAction::Finish(Ok(outcome))
            },
        }
    }

    fn answer(&mut self, ctx: &mut Ctx, spec: &CallSpec, templates: &TemplateEngine, response: ResolverResponse, fallback: bool) -> (a: CallAction)
        requires
            keys_ascending(spec.result_map@),
            keys_ascending(spec.params_map@),
        ensures
            answered(*final(self), a, *old(ctx), *final(ctx), *spec, response, old(self).attempts, fallback),
            final(self).attempts == old(self).attempts,
            final(self).max_attempts == old(self).max_attempts,
            final(self).delay_ms == old(self).delay_ms,
            final(self).key == old(self).key,
    {
        let ghost resp = response;
        match handle_call_response(ctx, spec, response, templates) {
            None => {
                self.phase = CallPhase::Finished;
                CallAction::Halt
            },
            Some(Err(e)) => {
                self.phase = CallPhase::Finished;
                CallAction::Finish(Err(e))
            },
            Some(Ok(o)) => {
                let mut outcome = o;
                outcome.attempts = self.attempts;
                outcome.fallback_used = fallback;
                assert(outcome_of(outcome, *spec, resp, old(self).attempts, fallback));
                self.conclude(outcome)
            },
        }
    }

    /// Begins a call: checks the scope and the deadline, then looks the
    /// result up in the store when there is one and the context has a key,
    /// else begins the first attempt.
    pub fn start(ctx: &Ctx, spec: &CallSpec, templates: &TemplateEngine, node_name: &str, has_store: bool, deadline_reached: bool, clock: DeadlineStatus) -> (res: (CallRun, CallAction))
        requires
            keys_ascending(spec.result_map@),
            keys_ascending(spec.params_map@),
        ensures
            run_ok(res.0),
            res.0.max_attempts == max_attempts_of(*spec),
            res.0.key == (if has_store { ctx.idempotency_key } else { None }),
            res.0.pending is None,
            ({
                let (run, a) = res;
                if spec.scope is Some && scope_mismatch(spec.scope->0, ctx.meta.scope) is Some {
                    let (e, g) = scope_mismatch(spec.scope->0, ctx.meta.scope)->0;
                    failed_with(run, a, ExecErrorV::ScopeMismatch(e, g))
                } else if deadline_reached {
                    failed_with(run, a, ExecErrorV::DeadlineExceeded(node_name@))
                } else if run.key is Some {
                    run.phase == CallPhase::Loading && run.attempts == 0 && run.delay_ms == initial_delay(*spec)
                        && (a matches CallAction::Load(k) && k@ == run.key->0@)
                } else {
                    attempt_started(run, a, *ctx, *spec, clock, node_name@, 0) && run.delay_ms == initial_delay(*spec)
                }
            }),
    {
        let max_attempts: u32 = match &spec.retry {
            Some(r) => if r.attempts >= 1 { r.attempts } else { 1 },
            None => 1,
        };
        let delay_ms: u64 = match &spec.retry {
            Some(r) => match r.delay_ms {
                Some(d) => d,
                None => 0,
            },
            None => 0,
        };
        let key = if has_store {
            match &ctx.idempotency_key {
                Some(k) => Some(k.clone()),
                None => None,
            }
        } else {
            None
        };
        let mut run = CallRun {
            phase: CallPhase::Finished,
            attempts: 0,
            max_attempts,
            delay_ms,
            key,
            last_payload: Json::Null,
            pending: None,
        };
        if let Some(expected) = &spec.scope {
            match ensure_scope_compatible(expected, &ctx.meta.scope) {
                Ok(()) => {},
                Err(e) => {
                    return (run, CallAction::Finish(Err(e)));
                },
            }
        }
        if deadline_reached {
            return (run, CallAction::Finish(Err(ExecError::DeadlineExceeded { node: owned(node_name) })));
        }
        match &run.key {
            Some(k) => {
                let load_key = k.clone();
                run.phase = CallPhase::Loading;
                (run, CallAction::Load(load_key))
            },
            None => {
                let a = run.begin_attempt(ctx, spec, templates, node_name, clock);
                (run, a)
            },
        }
    }

    /// Takes the next step after the caller did what the last step asked.
    pub fn step(&mut self, ctx: &mut Ctx, spec: &CallSpec, templates: &TemplateEngine, node_name: &str, event: CallEvent, clock: DeadlineStatus) -> (a: CallAction)
        requires
            keys_ascending(spec.result_map@),
            keys_ascending(spec.params_map@),
            run_ok(*old(self)),
            event_fits(old(self).phase, event),
            old(self).phase == CallPhase::FallingBack ==> spec.on_error is Some,
        ensures
            run_ok(*final(self)),
            final(self).max_attempts == old(self).max_attempts,
            final(self).key == old(self).key,
            final(self).phase == CallPhase::FallingBack ==> spec.on_error is Some,
            final(self).phase == CallPhase::Loading ==> false,
            match event {
                CallEvent::Loaded(loaded) => match loaded {
                    Ok(Some(cached)) => *final(ctx) == *old(ctx) && final(self).phase == CallPhase::Finished
                        && (a matches CallAction::Finish(Ok(o)) && o.value == cached && o.attempts == 0
                        && o.mode == spec.mode && o.idempotent_replay && !o.fallback_used && o.fanout is None),
                    Ok(None) => *final(ctx) == *old(ctx) && final(self).delay_ms == old(self).delay_ms
                        && attempt_started(*final(self), a, *old(ctx), *spec, clock, node_name@, old(self).attempts),
                    Err(e) => *final(ctx) == *old(ctx) && failed_with(
                        *final(self),
                        a,
                        ExecErrorV::Idempotency(old(self).key->0@, crate::error::store_error_text(e)),
                    ),
                },
                CallEvent::Resolved(Ok(response)) => answered(*final(self), a, *old(ctx), *final(ctx), *spec, response, old(self).attempts, false),
                CallEvent::Resolved(Err(err)) => *final(ctx) == *old(ctx) && if retryable_kind(err.kind) && old(self).attempts < old(self).max_attempts {
                    &&& final(self).delay_ms == next_delay(old(self).delay_ms, max_delay_of(*spec))
                    &&& if old(self).delay_ms > 0 {
                        final(self).phase == CallPhase::Sleeping && final(self).attempts == old(self).attempts
                            && a == CallAction::Sleep(old(self).delay_ms)
                    } else {
                        attempt_started(*final(self), a, *old(ctx), *spec, clock, node_name@, old(self).attempts)
                    }
                } else {
                    match spec.on_error {
                        Some(oe) => match fallback_payload(*old(ctx), oe, old(self).last_payload@, err) {
                            Ok(p) => final(self).phase == CallPhase::FallingBack && final(self).attempts == old(self).attempts
                                && (a matches CallAction::ResolveFallback(req) && req.params@ == p && req.timeout is None && req.attempt == 1),
                            Err(e) => failed_with(*final(self), a, e),
                        },
                        None => failed_with(*final(self), a, ExecErrorV::Resolver(err@)),
                    }
                },
                CallEvent::Slept => *final(ctx) == *old(ctx) && final(self).delay_ms == old(self).delay_ms
                    && attempt_started(*final(self), a, *old(ctx), *spec, clock, node_name@, old(self).attempts),
                CallEvent::FallbackResolved(Ok(response)) => answered(*final(self), a, *old(ctx), *final(ctx), *spec, response, old(self).attempts, true),
                CallEvent::FallbackResolved(Err(err)) => *final(ctx) == *old(ctx) && failed_with(
                    *final(self),
                    a,
                    ExecErrorV::Fallback(spec.on_error->0.route@, err@),
                ),
                CallEvent::Stored(stored) => *final(ctx) == *old(ctx) && match stored {
                    Ok(()) => final(self).phase == CallPhase::Finished && a == CallAction::Finish(Ok(old(self).pending->0)),
                    Err(e) => failed_with(
                        *final(self),
                        a,
                        ExecErrorV::Idempotency(old(self).key->0@, crate::error::store_error_text(e)),
                    ),
                },
            },
    {
        match event {
            CallEvent::Loaded(loaded) => match loaded {
                Ok(Some(cached)) => {
                    let mut outcome = CallOutcome::new(cached, 0, spec.mode);
                    outcome.idempotent_replay = true;
                    self.phase = CallPhase::Finished;
                    CallAction::Finish(Ok(outcome))
                },
                Ok(None) => self.begin_attempt(ctx, spec, templates, node_name, clock),
                Err(e) => {
                    self.phase = CallPhase::Finished;
                    let key = match &self.key {
                        Some(k) => k.clone(),
                        None => String::new(),
                    };
                    CallAction::Finish(Err(ExecError::Idempotency { key, source: e }))
                },
            },
            CallEvent::Resolved(Ok(response)) => self.answer(ctx, spec, templates, response, false),
            CallEvent::Resolved(Err(err)) => {
                if err.is_retryable() && self.attempts < self.max_attempts {
                    let sleep_ms = self.delay_ms;
                    let max_delay = match &spec.retry {
                        Some(r) => r.max_delay_ms,
                        None => None,
                    };
                    self.delay_ms = compute_next_delay(self.delay_ms, max_delay);
                    if sleep_ms > 0 {
                        self.phase = CallPhase::Sleeping;
                        return CallAction::Sleep(sleep_ms);
                    }
                    return self.begin_attempt(ctx, spec, templates, node_name, clock);
                }
                match &spec.on_error {
                    Some(on_error) => match build_fallback_request(ctx, templates, on_error, &self.last_payload, &err) {
                        Ok(request) => {
                            self.phase = CallPhase::FallingBack;
                            CallAction::ResolveFallback(request)
                        },
                        Err(e) => {
                            self.phase = CallPhase::Finished;
                            CallAction::Finish(Err(e))
                        },
                    },
                    None => {
                        self.phase = CallPhase::Finished;
                        CallAction::Finish(Err(ExecError::Resolver { source: err }))
                    },
                }
            },
            CallEvent::Slept => self.begin_attempt(ctx, spec, templates, node_name, clock),
            CallEvent::FallbackResolved(Ok(response)) => self.answer(ctx, spec, templates, response, true),
            CallEvent::FallbackResolved(Err(err)) => {
                self.phase = CallPhase::Finished;
                let route = match &spec.on_error {
                    Some(oe) => oe.route.clone(),
                    None => String::new(),
                };
                CallAction::Finish(Err(ExecError::Fallback { route, source: err }))
            },
            CallEvent::Stored(stored) => match stored {
                Ok(()) => {
                    self.phase = CallPhase::Finished;
                    let mut taken: Option<CallOutcome> = None;
                    std::mem::swap(&mut taken, &mut self.pending);
                    match taken {
                        Some(o) => CallAction::Finish(Ok(o)),
                        None => CallAction::Halt,
                    }
                },
                Err(e) => {
                    self.phase = CallPhase::Finished;
                    let key = match &self.key {
                        Some(k) => k.clone(),
                        None => String::new(),
                    };
                    CallAction::Finish(Err(ExecError::Idempotency { key, source: e }))
                },
            },
        }
    }
}

}
