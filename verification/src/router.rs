//! Publishing flows under scopes and resolving calls to them: who may call a
//! flow, which version a target names, and what a resolved call answers.
use vstd::prelude::*;
use crate::contract::{flow_keys_ordered, CallSpec, FlowSpec, Scope};
use crate::ctx::Ctx;
use crate::json::{entries_view, items_view, lemma_entries_view, lemma_items_view, Json, JsonV};
use crate::pattern::{glob_match, pattern_matches};
use crate::registry::{best_index, req_view, Registry, VersionedRecord, VersionedRecordV};
use crate::scope::fallback_order_of;
use crate::resolver::{CallRequest, Resolver, ResolverError, ResolverErrorKind, ResolverResponse};
use crate::scope::{key_of, opt_view, path_prefix_of, ScopeKey, ScopeKeyV};
use crate::signature::{first_in, last_out, path_fragment, publishable, published_schema, published_signature, signature_from_spec, AdapterError, FlowRecord, FlowRecordV, FlowSignature, FlowSignatureV};
use crate::text::{clone_texts, concat, owned, same_text, split_on, split_text, views};
use crate::versions::{semver_parse, semver_req_valid, version_text, SemVer, VersionRequirement};

verus! {

/// The scope a flow is published under: everywhere, or a tenant's scope.
#[derive(Debug, Clone)]
pub enum FlowScopeRef<'a> {
    Global,
    Scoped(&'a Scope),
}

/// The registry key a publishing scope stands for.
pub open spec fn scope_ref_key(scope: FlowScopeRef) -> ScopeKeyV {
    match scope {
        FlowScopeRef::Global => key_of(None, None, None),
        FlowScopeRef::Scoped(s) => key_of(Some(s.tenant@), opt_view(s.team), opt_view(s.user)),
    }
}

/// A flow a call resolved to.
#[derive(Debug, Clone)]
pub struct ResolvedFlow {
    pub signature: FlowSignature,
    pub returns_schema: Json,
    pub path: String,
}

/// Publishes flows into a registry and resolves calls against it.
#[derive(Debug, Clone)]
pub struct RouterAdapter<R: Registry> {
    registry: R,
}

/// The registration path of a signature under a scope.
pub open spec fn registration_path(key: ScopeKeyV, sig: FlowSignatureV) -> Seq<char> {
    path_prefix_of(key) + "/"@ + path_fragment(sig)
}

/// The record a signature is kept as when it is registered under a scope.
pub open spec fn registered_record(key: ScopeKeyV, sig: FlowSignatureV, schema: JsonV) -> FlowRecordV {
    FlowRecordV { signature: sig, returns_schema: schema, path: registration_path(key, sig) }
}

/// The candidates an allow list is matched against for a caller: `*`, the
/// tenant, `tenant:team`, `tenant::user` and `tenant:team:user`, each when
/// the caller's scope has the parts.
pub open spec fn call_candidates(scope: Scope) -> Seq<Seq<char>> {
    let t = scope.tenant@;
    let base = seq!["*"@, t];
    let with_team = match scope.team {
        Some(team) => base.push(t + ":"@ + team@),
        None => base,
    };
    let with_user = match scope.user {
        Some(u) => with_team.push(t + "::"@ + u@),
        None => with_team,
    };
    match (scope.team, scope.user) {
        (Some(team), Some(u)) => with_user.push(t + ":"@ + team@ + ":"@ + u@),
        _ => with_user,
    }
}

/// Whether an allow list lets a caller in: an empty list lets everyone in,
/// else some pattern must match some candidate of the caller.
pub open spec fn call_allowed(allow: Seq<Seq<char>>, scope: Scope) -> bool {
    allow.len() == 0 || exists|i: int, j: int|
        0 <= i < allow.len() && 0 <= j < call_candidates(scope).len() && #[trigger] glob_match(
            allow[i],
            #[trigger] call_candidates(scope)[j],
        )
}

/// A `*` in an allow list lets every caller in.
pub proof fn law_wildcard_admits_all(allow: Seq<Seq<char>>, scope: Scope)
    requires
        exists|i: int| 0 <= i < allow.len() && allow[i] == "*"@,
    ensures
        call_allowed(allow, scope),
{
    reveal_strlit("*");
    let i = choose|i: int| 0 <= i < allow.len() && allow[i] == "*"@;
    assert(allow[i] =~= seq!['*']);
    assert(glob_match(allow[i], call_candidates(scope)[0]));
}

/// An allow entry without `*` that names the caller exactly, as its tenant,
/// `tenant:team`, `tenant::user` or `tenant:team:user`, lets the caller in.
pub proof fn law_exact_entry_admits(allow: Seq<Seq<char>>, scope: Scope, i: int, j: int)
    requires
        0 <= i < allow.len(),
        0 <= j < call_candidates(scope).len(),
        allow[i] == call_candidates(scope)[j],
        forall|k: int| 0 <= k < allow[i].len() ==> allow[i][k] != '*',
    ensures
        call_allowed(allow, scope),
{
    let p = allow[i];
    crate::pattern::lemma_first_star_len(p);
    if p.len() == 0 {
        assert(glob_match(p, call_candidates(scope)[j]));
    } else {
        assert(!(p.len() == 1 && p[0] == '*'));
        assert(glob_match(p, call_candidates(scope)[j]));
    }
}

/// The entries that name a caller let it in, whatever else its scope has:
/// its tenant; `tenant:team` when it has a team; `tenant::user` when it has a
/// user, with or without a team; `tenant:team:user` when it has both.
pub proof fn law_named_caller_admitted(scope: Scope)
    ensures
        call_allowed(seq![scope.tenant@], scope),
        scope.team is Some ==> call_allowed(seq![scope.tenant@ + ":"@ + scope.team->0@], scope),
        scope.user is Some ==> call_allowed(seq![scope.tenant@ + "::"@ + scope.user->0@], scope),
        scope.team is Some && scope.user is Some ==> call_allowed(
            seq![scope.tenant@ + ":"@ + scope.team->0@ + ":"@ + scope.user->0@],
            scope,
        ),
{
    let c = call_candidates(scope);
    let t = scope.tenant@;
    crate::pattern::law_pattern_matches_itself(t);
    assert(glob_match(seq![t][0], c[1]));
    if let Some(team) = scope.team {
        let p = t + ":"@ + team@;
        crate::pattern::law_pattern_matches_itself(p);
        assert(glob_match(seq![p][0], c[2]));
    }
    if let Some(u) = scope.user {
        let p = t + "::"@ + u@;
        crate::pattern::law_pattern_matches_itself(p);
        let j = if scope.team is Some { 3int } else { 2int };
        assert(c[j] == p);
        assert(glob_match(seq![p][0], c[j]));
    }
    if scope.team is Some && scope.user is Some {
        let p = t + ":"@ + scope.team->0@ + ":"@ + scope.user->0@;
        crate::pattern::law_pattern_matches_itself(p);
        assert(c[4] == p);
        assert(glob_match(seq![p][0], c[4]));
    }
}

fn candidates(scope: &Scope) -> (c: Vec<String>)
    ensures
        views(c@) == call_candidates(*scope),
{
    let mut c: Vec<String> = Vec::new();
    c.push(owned("*"));
    c.push(scope.tenant.clone());
    if let Some(team) = &scope.team {
        let a = concat(scope.tenant.as_str(), ":");
        c.push(concat(a.as_str(), team.as_str()));
    }
    if let Some(user) = &scope.user {
        let a = concat(scope.tenant.as_str(), "::");
        c.push(concat(a.as_str(), user.as_str()));
    }
    if let (Some(team), Some(user)) = (&scope.team, &scope.user) {
        let a = concat(scope.tenant.as_str(), ":");
        let b = concat(a.as_str(), team.as_str());
        let d = concat(b.as_str(), ":");
        c.push(concat(d.as_str(), user.as_str()));
    }
    proof {
        reveal_strlit("*");
        reveal_strlit(":");
        reveal_strlit("::");
        assert(views(c@) =~= call_candidates(*scope));
    }
    c
}

/// Whether a caller in `caller_scope` may call a flow whose allow list is `allow`.
pub fn can_call(caller_flow_id: &str, allow: &[String], caller_scope: &Scope) -> (b: bool)
    ensures
        b == call_allowed(views(allow@), *caller_scope),
{
    if allow.len() == 0 {
        return true;
    }
    let cands = candidates(caller_scope);
    let ghost av = views(allow@);
    let ghost cv = call_candidates(*caller_scope);
    let mut i: usize = 0;
    while i < allow.len()
        invariant
            i <= allow@.len(),
            av == views(allow@),
            cv == call_candidates(*caller_scope),
            views(cands@) == cv,
            av.len() == allow@.len(),
            cv.len() == cands@.len(),
            forall|a: int, j: int| 0 <= a < i && 0 <= j < cv.len() ==> !#[trigger] glob_match(av[a], #[trigger] cv[j]),
        decreases allow@.len() - i,
    {
        let mut j: usize = 0;
        while j < cands.len()
            invariant
                i < allow@.len(),
                j <= cands@.len(),
                av == views(allow@),
                cv == call_candidates(*caller_scope),
                views(cands@) == cv,
                av.len() == allow@.len(),
                cv.len() == cands@.len(),
                forall|a: int, k: int| 0 <= a < i && 0 <= k < cv.len() ==> !#[trigger] glob_match(av[a], #[trigger] cv[k]),
                forall|k: int| 0 <= k < j ==> !#[trigger] glob_match(av[i as int], cv[k]),
            decreases cands@.len() - j,
        {
            assert(av[i as int] == allow@[i as int]@);
            assert(cv[j as int] == cands@[j as int]@);
            if pattern_matches(allow[i].as_str(), cands[j].as_str()) {
                assert(glob_match(av[i as int], cv[j as int]));
                return true;
            }
            j = j + 1;
        }
        i = i + 1;
    }
    false
}

/// A call target `flow[@version]`: the text before the first `@`, and the
/// text between it and the next `@`, if there is one.
pub open spec fn target_parts(target: Seq<char>) -> (Seq<char>, Option<Seq<char>>) {
    let parts = split_on(target, '@');
    (parts[0], if parts.len() >= 2 { Some(parts[1]) } else { None })
}

/// Splits a call target into a flow id and a version hint.
pub fn split_target(target: &str) -> (r: (String, Option<String>))
    ensures
        r.0@ == target_parts(target@).0,
        opt_view(r.1) == target_parts(target@).1,
{
    let parts = split_text(target, '@');
    proof {
        crate::text::lemma_split_nonempty(target@, '@');
        assert(views(parts@)[0] == parts@[0]@);
    }
    let flow = parts[0].clone();
    let version = if parts.len() >= 2 {
        assert(views(parts@)[1] == parts@[1]@);
        Some(parts[1].clone())
    } else {
        None
    };
    (flow, version)
}

/// Whether every character of a text is an ASCII digit.
pub open spec fn all_digits(t: Seq<char>) -> bool {
    forall|i: int| 0 <= i < t.len() ==> '0' <= #[trigger] t[i] <= '9'
}

/// Which requirement a version hint stands for: the hint itself when semver
/// reads it as a requirement; `=v` when it is a version `v`; `^n.0.0` when it
/// is digits `n`; else none.
pub open spec fn requirement_text(hint: Seq<char>) -> Option<Seq<char>> {
    if semver_req_valid(hint) {
        Some(hint)
    } else if semver_parse(hint) is Some {
        Some("="@ + version_text(semver_parse(hint)->0))
    } else if all_digits(hint) {
        Some("^"@ + hint + ".0.0"@)
    } else {
        None
    }
}

fn is_digits(t: &str) -> (b: bool)
    ensures
        b == all_digits(t@),
{
    let cs = crate::text::chars_of(t);
    let mut i: usize = 0;
    while i < cs.len()
        invariant
            i <= cs@.len(),
            cs@ == t@,
            forall|k: int| 0 <= k < i ==> '0' <= #[trigger] t@[k] <= '9',
        decreases cs@.len() - i,
    {
        if !('0' <= cs[i] && cs[i] <= '9') {
            return false;
        }
        i = i + 1;
    }
    true
}

/// Reads a version hint as a requirement: as a requirement, as an exact
/// version, or as a major version made of digits.
pub fn parse_version_req(requirement: &str) -> (r: Result<VersionRequirement, AdapterError>)
    ensures
        match requirement_text(requirement@) {
            Some(t) => (r is Ok == semver_req_valid(t)) && match r {
                Ok(req) => req@ == t,
                Err(AdapterError::VersionReq { requirement: given, source: _ }) => given@ == requirement@,
                Err(_) => false,
            },
            None => r matches Err(AdapterError::VersionReq { requirement: given, source: _ }) && given@ == requirement@,
        },
{
    let first = VersionRequirement::parse(requirement);
    let first_err = match first {
        Ok(req) => {
            return Ok(req);
        },
        Err(e) => e,
    };
    proof {
        reveal_strlit("=");
        reveal_strlit("^");
        reveal_strlit(".0.0");
    }
    match SemVer::parse(requirement) {
        Some(version) => {
            let text = concat("=", version.to_text().as_str());
            return match VersionRequirement::parse(text.as_str()) {
                Ok(req) => Ok(req),
                Err(e) => Err(AdapterError::VersionReq { requirement: owned(requirement), source: e }),
            };
        },
        None => {},
    }
    if is_digits(requirement) {
        let a = concat("^", requirement);
        let text = concat(a.as_str(), ".0.0");
        return match VersionRequirement::parse(text.as_str()) {
            Ok(req) => Ok(req),
            Err(e) => Err(AdapterError::VersionReq { requirement: owned(requirement), source: e }),
        };
    }
    Err(AdapterError::VersionReq { requirement: owned(requirement), source: first_err })
}

/// Whether a registry resolves a flow for a caller to this record: the first
/// scope of the caller's lookup order that keeps a record satisfying the
/// requirement yields it, as the record of highest precedence there.
pub open spec fn resolves_to<R: Registry>(reg: R, scope: Scope, flow_id: Seq<char>, req: Option<Seq<char>>, rec: FlowRecordV) -> bool {
    exists|k: int| #![trigger fallback_order_of(scope)[k]] {
        let keys = fallback_order_of(scope);
        let s = reg.versions_view(keys[k], flow_id);
        &&& 0 <= k < keys.len()
        &&& forall|j: int| 0 <= j < k ==> best_index(#[trigger] reg.versions_view(keys[j], flow_id), req) is None
        &&& best_index(s, req) is Some
        &&& s[best_index(s, req)->0].record == rec
    }
}

/// Whether no scope of the caller's lookup order keeps a record of the flow
/// satisfying the requirement.
pub open spec fn resolves_nowhere<R: Registry>(reg: R, scope: Scope, flow_id: Seq<char>, req: Option<Seq<char>>) -> bool {
    forall|k: int| 0 <= k < fallback_order_of(scope).len() ==> best_index(
        #[trigger] reg.versions_view(fallback_order_of(scope)[k], flow_id),
        req,
    ) is None
}

/// A lookup's answer agrees with the registry.
pub open spec fn lookup_ok<R: Registry>(reg: R, scope: Scope, flow_id: Seq<char>, req: Option<Seq<char>>, r: Result<Option<ResolvedFlow>, AdapterError>) -> bool {
    match r {
        Ok(Some(f)) => resolves_to(reg, scope, flow_id, req, FlowRecordV { signature: f.signature@, returns_schema: f.returns_schema@, path: f.path@ }),
        Ok(None) => resolves_nowhere(reg, scope, flow_id, req),
        Err(_) => false,
    }
}

impl<R: Registry> RouterAdapter<R> {
    pub fn new(registry: R) -> (a: RouterAdapter<R>)
        ensures
            a.registry_spec() == registry,
    {
        RouterAdapter { registry }
    }

    pub closed spec fn registry_spec(&self) -> R {
        self.registry
    }

    pub fn registry(&self) -> (r: &R)
        ensures
            *r == self.registry_spec(),
    {
        &self.registry
    }

    /// Publishes a flow under a scope: its signature goes into the registry
    /// at its registration path, which is returned.
    pub fn register_flow_spec(&mut self, scope: FlowScopeRef<'_>, spec: &FlowSpec) -> (r: Result<String, AdapterError>)
        requires
            flow_keys_ordered(*spec),
        ensures
            spec.version is None ==> (r matches Err(AdapterError::MissingVersion { flow_id }) && flow_id@ == spec.flow_id@),
            spec.version is Some && first_in(spec.nodes@) is None ==> (r matches Err(AdapterError::MissingInNode { flow_id })
                && flow_id@ == spec.flow_id@),
            spec.version is Some && first_in(spec.nodes@) is Some && last_out(spec.nodes@) is None ==> (r matches Err(
                AdapterError::MissingOutNode { flow_id },
            ) && flow_id@ == spec.flow_id@),
            publishable(*spec) ==> {
                let key = scope_ref_key(scope);
                let sig = published_signature(*spec);
                let rec = registered_record(key, sig, published_schema(*spec));
                &&& r is Ok == old(self).registry_spec().accepts(key, rec)
                &&& r matches Ok(path) ==> path@ == registration_path(key, sig)
                &&& r is Ok ==> final(self).registry_spec().versions_view(key, sig.flow_id) == crate::registry::with_record(
                    old(self).registry_spec().versions_view(key, sig.flow_id),
                    VersionedRecordV { version: sig.version, record: rec },
                )
                &&& r is Ok ==> forall|s: ScopeKeyV, f: Seq<char>|
                    !(s == key && f == sig.flow_id) ==> #[trigger] final(self).registry_spec().versions_view(s, f)
                        == old(self).registry_spec().versions_view(s, f)
            },
            r is Err ==> forall|s: ScopeKeyV, f: Seq<char>| #[trigger] final(self).registry_spec().versions_view(s, f)
                == old(self).registry_spec().versions_view(s, f),
    {
        let (signature, returns_schema) = match signature_from_spec(spec) {
            Ok(pair) => pair,
            Err(e) => {
                return Err(e);
            },
        };
        proof {
            assert(signature@ == published_signature(*spec));
            assert(returns_schema@ == published_schema(*spec));
        }
        self.register_flow_signature(scope, signature, returns_schema)
    }

    /// Registers a signature under a scope at `<scope prefix>/flows/<id>@<major>`;
    /// it succeeds exactly when the registry takes the record, and a refused
    /// record leaves the registry as it was.
    pub fn register_flow_signature(&mut self, scope: FlowScopeRef<'_>, signature: FlowSignature, returns_schema: Json) -> (r: Result<String, AdapterError>)
        ensures
            r is Ok == old(self).registry_spec().accepts(
                scope_ref_key(scope),
                registered_record(scope_ref_key(scope), signature@, returns_schema@),
            ),
            r is Err ==> forall|s: ScopeKeyV, f: Seq<char>| #[trigger] final(self).registry_spec().versions_view(s, f)
                == old(self).registry_spec().versions_view(s, f),
            r matches Ok(path) ==> path@ == registration_path(scope_ref_key(scope), signature@),
            r is Ok ==> final(self).registry_spec().versions_view(scope_ref_key(scope), signature.flow_id@)
                == crate::registry::with_record(
                old(self).registry_spec().versions_view(scope_ref_key(scope), signature.flow_id@),
                VersionedRecordV {
                    version: signature.version@,
                    record: FlowRecordV {
                        signature: signature@,
                        returns_schema: returns_schema@,
                        path: registration_path(scope_ref_key(scope), signature@),
                    },
                },
            ),
            r is Ok ==> forall|s: ScopeKeyV, f: Seq<char>|
                !(s == scope_ref_key(scope) && f == signature.flow_id@) ==> #[trigger] final(self).registry_spec().versions_view(s, f)
                    == old(self).registry_spec().versions_view(s, f),
    {
        let scope_key = match scope {
            FlowScopeRef::Global => ScopeKey::global(),
            FlowScopeRef::Scoped(s) => ScopeKey::from_scope(s),
        };
        let prefix = scope_key.path_prefix();
        let a = concat(prefix.as_str(), "/");
        let path = concat(a.as_str(), signature.registration_path_fragment().as_str());
        proof {
            reveal_strlit("/");
        }
        let record = FlowRecord { signature: signature.duplicate(), returns_schema, path: path.clone() };
        match self.registry.register(&scope_key, record) {
            Ok(()) => Ok(path),
            Err(e) => Err(e),
        }
    }

    /// Looks a flow up for a caller, under an optional version hint.
    pub fn resolve_signature(&self, flow_id: &str, version: Option<&str>, caller_scope: &Scope) -> (r: Result<Option<ResolvedFlow>, AdapterError>)
        ensures
            match version {
                Some(h) => match requirement_text(h@) {
                    Some(t) => if semver_req_valid(t) {
                        lookup_ok(self.registry_spec(), *caller_scope, flow_id@, Some(t), r)
                    } else {
                        r matches Err(AdapterError::VersionReq { requirement: given, source: _ }) && given@ == h@
                    },
                    None => r matches Err(AdapterError::VersionReq { requirement: given, source: _ }) && given@ == h@,
                },
                None => lookup_ok(self.registry_spec(), *caller_scope, flow_id@, None, r),
            },
    {
        let version_req = match version {
            Some(text) => match parse_version_req(text) {
                Ok(req) => Some(req),
                Err(e) => {
                    return Err(e);
                },
            },
            None => None,
        };
        let ghost reqv = req_view(
            match &version_req {
                Some(req) => Some(req),
                None => None,
            },
        );
        proof {
            match version {
                Some(h) => {
                    assert(reqv == requirement_text(h@));
                },
                None => {
                    assert(reqv is None);
                },
            }
        }
        let resolved = match &version_req {
            Some(req) => self.registry.resolve(flow_id, Some(req), caller_scope),
            None => self.registry.resolve(flow_id, None, caller_scope),
        };
        match resolved {
            Ok(Some(entry)) => {
                let ghost x = entry@;
                let record = entry.record;
                let flow = ResolvedFlow { signature: record.signature, returns_schema: record.returns_schema, path: record.path };
                proof {
                    let k = choose|k: int| #![trigger fallback_order_of(*caller_scope)[k]] {
                        let keys = fallback_order_of(*caller_scope);
                        let s = self.registry.versions_view(keys[k], flow_id@);
                        &&& 0 <= k < keys.len()
                        &&& forall|j: int| 0 <= j < k ==> best_index(#[trigger] self.registry.versions_view(keys[j], flow_id@), reqv) is None
                        &&& best_index(s, reqv) is Some
                        &&& x == s[best_index(s, reqv)->0]
                    };
                    assert(x.record == (FlowRecordV { signature: flow.signature@, returns_schema: flow.returns_schema@, path: flow.path@ }));
                    assert(resolves_to(self.registry_spec(), *caller_scope, flow_id@, reqv, x.record));
                }
                Ok(Some(flow))
            },
            Ok(None) => Ok(None),
            Err(e) => Err(e),
        }
    }
}

/// What a resolved call answers: the flow's id, version, intent, path and
/// allow list, keys in order.
pub open spec fn resolved_json(f: ResolvedFlow) -> JsonV {
    JsonV::Object(seq![
        ("allow"@, JsonV::Array(views(f.signature.allow@).map_values(|a: Seq<char>| JsonV::Str(a)))),
        ("flow_id"@, JsonV::Str(f.signature.flow_id@)),
        ("intent"@, JsonV::Str(f.signature.intent@)),
        ("path"@, JsonV::Str(f.path@)),
        ("version"@, JsonV::Str(version_text(f.signature.version@))),
    ])
}

/// The answer to a call resolved to a flow.
pub fn resolved_value(f: &ResolvedFlow) -> (v: Json)
    ensures
        v@ == resolved_json(*f),
{
    let mut allow: Vec<Json> = Vec::new();
    let mut i: usize = 0;
    while i < f.signature.allow.len()
        invariant
            i <= f.signature.allow@.len(),
            allow@.len() == i,
            forall|j: int| 0 <= j < i ==> #[trigger] allow@[j]@ == JsonV::Str(f.signature.allow@[j]@),
        decreases f.signature.allow@.len() - i,
    {
        allow.push(Json::String(f.signature.allow[i].clone()));
        i = i + 1;
    }
    proof {
        lemma_items_view(allow@);
        let target = views(f.signature.allow@).map_values(|a: Seq<char>| JsonV::Str(a));
        assert(target.len() == allow@.len());
        assert forall|j: int| 0 <= j < allow@.len() implies #[trigger] items_view(allow@)[j] == target[j] by {
            assert(items_view(allow@)[j] == allow@[j]@);
        }
        assert(items_view(allow@) =~= target);
    }
    let mut entries: Vec<(String, Json)> = Vec::new();
    entries.push((owned("allow"), Json::Array(allow)));
    entries.push((owned("flow_id"), Json::String(f.signature.flow_id.clone())));
    entries.push((owned("intent"), Json::String(f.signature.intent.clone())));
    entries.push((owned("path"), Json::String(f.path.clone())));
    entries.push((owned("version"), Json::String(f.signature.version.to_text())));
    proof {
        reveal_strlit("allow");
        reveal_strlit("flow_id");
        reveal_strlit("intent");
        reveal_strlit("path");
        reveal_strlit("version");
        lemma_entries_view(entries@);
        assert(entries_view(entries@) =~= crate::ctx::object_entries(resolved_json(*f)));
    }
    Json::Object(entries)
}

/// The scope a call is resolved for: its own when it names one, else the caller's.
pub open spec fn call_scope(ctx: Ctx, spec: CallSpec) -> Scope {
    match spec.scope {
        Some(s) => s,
        None => ctx.meta.scope,
    }
}

/// What a call resolved to a registered record answers: the flow's id,
/// version, intent, path and allow list, keys in order.
pub open spec fn record_json(rec: FlowRecordV) -> JsonV {
    JsonV::Object(seq![
        ("allow"@, JsonV::Array(rec.signature.allow.map_values(|a: Seq<char>| JsonV::Str(a)))),
        ("flow_id"@, JsonV::Str(rec.signature.flow_id)),
        ("intent"@, JsonV::Str(rec.signature.intent)),
        ("path"@, JsonV::Str(rec.path)),
        ("version"@, JsonV::Str(version_text(rec.signature.version))),
    ])
}

/// How a call looked up in the registry under `req` is answered: with what
/// the record it resolves to publishes, or, when no scope keeps one, with a
/// fatal failure naming the flow and the tenant.
pub open spec fn call_answer<R: Registry>(reg: R, scope: Scope, flow_id: Seq<char>, req: Option<Seq<char>>, r: Result<ResolverResponse, ResolverError>) -> bool {
    match r {
        Ok(ResolverResponse::Sync(v)) => exists|rec: FlowRecordV| #[trigger] resolves_to(reg, scope, flow_id, req, rec) && v@ == record_json(rec),
        Err(e) => resolves_nowhere(reg, scope, flow_id, req) && e.kind == ResolverErrorKind::Fatal
            && e.message@ == "no flow `"@ + flow_id + "` found for scope "@ + scope.tenant@,
        _ => false,
    }
}

/// How a call whose target is `flow[@hint]` is answered: a hint that names no
/// valid requirement fails the call as fatal, with semver's complaint.
pub open spec fn target_answer<R: Registry>(reg: R, scope: Scope, target: Seq<char>, r: Result<ResolverResponse, ResolverError>) -> bool {
    let (flow_id, hint) = target_parts(target);
    match hint {
        Some(h) => match requirement_text(h) {
            Some(t) if semver_req_valid(t) => call_answer(reg, scope, flow_id, Some(t), r),
            _ => r matches Err(e) && e.kind == ResolverErrorKind::Fatal && e.message@.take(
                ("invalid version requirement `"@ + h + "`: "@).len() as int,
            ) == "invalid version requirement `"@ + h + "`: "@,
        },
        None => call_answer(reg, scope, flow_id, None, r),
    }
}

impl<R: Registry> Resolver for RouterAdapter<R> {
    /// Resolves a call's target `flow[@version]` in the registry for the call's
    /// scope and answers with what the flow publishes; a failed lookup or a
    /// flow found nowhere is fatal.
    fn resolve(&self, ctx: &Ctx, spec: &CallSpec, request: &CallRequest) -> (r: Result<ResolverResponse, ResolverError>)
        ensures
            target_answer(self.registry_spec(), call_scope(*ctx, *spec), spec.target@, r),
    {
        let (flow_id, version_hint) = split_target(spec.target.as_str());
        let scope = match &spec.scope {
            Some(s) => s,
            None => &ctx.meta.scope,
        };
        let looked_up = match &version_hint {
            Some(h) => self.resolve_signature(flow_id.as_str(), Some(h.as_str()), scope),
            None => self.resolve_signature(flow_id.as_str(), None, scope),
        };
        let resolved = match looked_up {
            Ok(r) => r,
            Err(e) => {
                let m = e.message();
                proof {
                    reveal_strlit("invalid version requirement `");
                    reveal_strlit("`: ");
                }
                return Err(ResolverError::fatal(m.as_str()));
            },
        };
        match resolved {
            Some(flow) => {
                let v = resolved_value(&flow);
                proof {
                    let rec = FlowRecordV { signature: flow.signature@, returns_schema: flow.returns_schema@, path: flow.path@ };
                    assert(resolved_json(flow) == record_json(rec));
                }
                Ok(ResolverResponse::Sync(v))
            },
            None => {
                let a = concat("no flow `", flow_id.as_str());
                let b = concat(a.as_str(), "` found for scope ");
                Err(ResolverError::fatal(concat(b.as_str(), scope.tenant.as_str()).as_str()))
            },
        }
    }
}

}
