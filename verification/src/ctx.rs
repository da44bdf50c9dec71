//! The execution context a flow runs in: its inbound parameters, the state
//! that call nodes write into, who is calling, and dotted paths into both.
use vstd::prelude::*;
use crate::contract::Scope;
use crate::json::{
    entries_view, find_entry, find_key, insert_entry, jget, json_view, lemma_entries_view,
    lemma_find_key, obj_get, obj_insert, Json, JsonV,
};
use crate::pattern::{glob_match, pattern_matches};
use crate::text::{owned, same_text, split_on, split_text, views};

verus! {

/// A point in time on the monotonic clock (`std::time::Instant`), kept as is.
#[verifier::external_type_specification]
#[verifier::external_body]
pub struct ExInstant(std::time::Instant);

/// Who is calling, over which channel, under which correlation id.
#[derive(Debug, Clone)]
pub struct Meta {
    pub scope: Scope,
    pub channel: Option<String>,
    pub correlation_id: String,
}

impl Meta {
    pub fn new(scope: Scope, channel: Option<String>, correlation_id: &str) -> (m: Meta)
        ensures
            m.scope == scope,
            m.channel == channel,
            m.correlation_id@ == correlation_id@,
    {
        Meta { scope, channel, correlation_id: owned(correlation_id) }
    }
}

/// The context of one flow execution.
#[derive(Debug, Clone)]
pub struct Ctx {
    pub params: Json,
    pub state: Json,
    pub meta: Meta,
    pub deadline: Option<std::time::Instant>,
    pub idempotency_key: Option<String>,
    pub permissions: Vec<String>,
}

/// Why a dotted path was refused.
#[derive(Debug, Clone, Copy, PartialEq, Eq, Structural)]
pub enum StatePathError {
    EmptyPath,
    EmptySegment,
}

/// The segments of a dotted path, or why it has none.
pub open spec fn path_segments(path: Seq<char>) -> Result<Seq<Seq<char>>, StatePathError> {
    if path.len() == 0 {
        Err(StatePathError::EmptyPath)
    } else if exists|i: int| 0 <= i < split_on(path, '.').len() && #[trigger] split_on(path, '.')[i].len() == 0 {
        Err(StatePathError::EmptySegment)
    } else {
        Ok(split_on(path, '.'))
    }
}

/// The value found by following `segs` through nested objects.
pub open spec fn json_at(v: JsonV, segs: Seq<Seq<char>>) -> Option<JsonV>
    decreases segs.len(),
{
    if segs.len() == 0 {
        Some(v)
    } else {
        match jget(v, segs[0]) {
            Some(child) => json_at(child, segs.drop_first()),
            None => None,
        }
    }
}

/// The value under a dotted path of `v`: nothing when the path is refused or leads nowhere.
pub open spec fn value_at_path(v: JsonV, path: Seq<char>) -> Option<JsonV> {
    match path_segments(path) {
        Ok(segs) => json_at(v, segs),
        Err(_) => None,
    }
}

/// Whether writing along `segs` into an object only ever passes through
/// objects (or through keys that are absent and get created as objects).
pub open spec fn settable(entries: Seq<(Seq<char>, JsonV)>, segs: Seq<Seq<char>>) -> bool
    decreases segs.len(),
{
    if segs.len() <= 1 {
        true
    } else {
        match obj_get(entries, segs[0]) {
            Some(JsonV::Object(child)) => settable(child, segs.drop_first()),
            Some(_) => false,
            None => true,
        }
    }
}

/// An object after writing `value` at the end of `segs`, creating the objects
/// along the way that are missing.
pub open spec fn set_in(entries: Seq<(Seq<char>, JsonV)>, segs: Seq<Seq<char>>, value: JsonV) -> Seq<
    (Seq<char>, JsonV),
>
    decreases segs.len(),
{
    if segs.len() == 0 {
        entries
    } else if segs.len() == 1 {
        obj_insert(entries, segs[0], value)
    } else {
        let child = match obj_get(entries, segs[0]) {
            Some(JsonV::Object(c)) => c,
            _ => Seq::empty(),
        };
        obj_insert(entries, segs[0], JsonV::Object(set_in(child, segs.drop_first(), value)))
    }
}

/// The entries of an object value, or none for any other value.
pub open spec fn object_entries(v: JsonV) -> Seq<(Seq<char>, JsonV)> {
    match v {
        JsonV::Object(e) => e,
        _ => Seq::empty(),
    }
}

/// Whether writing at `path` into `v` (an object, or a value replaced by an
/// empty object) passes through objects only.
pub open spec fn path_settable(v: JsonV, path: Seq<char>) -> bool {
    match path_segments(path) {
        Ok(segs) => settable(object_entries(v), segs),
        Err(_) => true,
    }
}

/// Splits a dotted path into its segments, refusing an empty path or an empty segment.
pub fn split_path(path: &str) -> (r: Result<Vec<String>, StatePathError>)
    ensures
        match r {
            Ok(segs) => path_segments(path@) == Ok::<Seq<Seq<char>>, StatePathError>(views(segs@)),
            Err(e) => path_segments(path@) == Err::<Seq<Seq<char>>, StatePathError>(e),
        },
{
    if path.is_empty() {
        return Err(StatePathError::EmptyPath);
    }
    let parts = split_text(path, '.');
    let mut i: usize = 0;
    while i < parts.len()
        invariant
            i <= parts@.len(),
            views(parts@) == split_on(path@, '.'),
            split_on(path@, '.').len() == parts@.len(),
            path@.len() != 0,
            forall|j: int| 0 <= j < i ==> split_on(path@, '.')[j].len() != 0,
        decreases parts@.len() - i,
    {
        assert(views(parts@)[i as int] == parts@[i as int]@);
        if parts[i].as_str().is_empty() {
            assert(split_on(path@, '.')[i as int].len() == 0);
            assert(0 <= i < split_on(path@, '.').len());
            return Err(StatePathError::EmptySegment);
        }
        i = i + 1;
    }
    Ok(parts)
}

pub(crate) fn get_in<'a>(value: &'a Json, segs: &Vec<String>, i: usize) -> (r: Option<&'a Json>)
    requires
        i <= segs@.len(),
    ensures
        match r {
            Some(v) => json_at(value@, views(segs@).skip(i as int)) == Some(v@),
            None => json_at(value@, views(segs@).skip(i as int)) is None,
        },
    decreases segs@.len() - i,
{
    let ghost rest = views(segs@).skip(i as int);
    if i == segs.len() {
        return Some(value);
    }
    proof {
        assert(rest[0] == segs@[i as int]@);
        assert(rest.drop_first() == views(segs@).skip(i + 1));
    }
    match value.get(segs[i].as_str()) {
        Some(child) => get_in(child, segs, i + 1),
        None => None,
    }
}

/// The value under a dotted path, if the path is well formed and leads somewhere.
pub fn get_path<'a>(value: &'a Json, path: &str) -> (r: Option<&'a Json>)
    ensures
        match r {
            Some(v) => value_at_path(value@, path@) == Some(v@),
            None => value_at_path(value@, path@) is None,
        },
{
    match split_path(path) {
        Ok(segs) => {
            proof {
                assert(views(segs@).skip(0) == views(segs@));
            }
            get_in(value, &segs, 0)
        },
        Err(_) => None,
    }
}

fn set_in_entries(entries: &mut Vec<(String, Json)>, segs: &Vec<String>, i: usize, value: Json)
    requires
        i < segs@.len(),
        settable(entries_view(old(entries)@), views(segs@).skip(i as int)),
    ensures
        entries_view(final(entries)@) == set_in(
            entries_view(old(entries)@),
            views(segs@).skip(i as int),
            value@,
        ),
    decreases segs@.len() - i,
{
    let ghost rest = views(segs@).skip(i as int);
    proof {
        assert(rest[0] == segs@[i as int]@);
        assert(rest.drop_first() == views(segs@).skip(i + 1));
    }
    if i == segs.len() - 1 {
        insert_entry(entries, segs[i].clone(), value);
        return;
    }
    let ghost before = entries_view(entries@);
    let found = find_entry(entries, segs[i].as_str());
    proof {
        lemma_entries_view(entries@);
        lemma_find_key(before, segs@[i as int]@);
    }
    match found {
        Some(k) => {
            let ghost old_entries = entries@;
            let mut slot = entries.remove(k);
            let mut child = Json::Null;
            std::mem::swap(&mut child, &mut slot.1);
            proof {
                assert(slot.0 == old_entries[k as int].0);
                assert(child == old_entries[k as int].1);
                assert(before[k as int] == (old_entries[k as int].0@, json_view(old_entries[k as int].1)));
            }
            let mut inner = match child {
                Json::Object(e) => e,
                _ => Vec::new(),
            };
            let ghost inner_before = entries_view(inner@);
            proof {
                assert(json_view(child) == JsonV::Object(inner_before));
            }
            set_in_entries(&mut inner, segs, i + 1, value);
            let ghost new_child = Json::Object(inner);
            entries.insert(k, (slot.0, Json::Object(inner)));
            proof {
                assert(entries@ == old_entries.update(k as int, (slot.0, new_child)));
                lemma_entries_view(entries@);
                lemma_entries_view(old_entries);
                assert(entries_view(entries@) =~= before.update(
                    k as int,
                    (segs@[i as int]@, JsonV::Object(set_in(inner_before, rest.drop_first(), value@))),
                ));
            }
        },
        None => {
            let mut inner: Vec<(String, Json)> = Vec::new();
            set_in_entries(&mut inner, segs, i + 1, value);
            insert_entry(entries, segs[i].clone(), Json::Object(inner));
        },
    }
}

/// A scope as it serialises: `tenant`, with `team` and `user` only when set,
/// keys in order.
pub open spec fn scope_json(scope: Scope) -> JsonV {
    let tenant = seq![("tenant"@, JsonV::Str(scope.tenant@))];
    let with_team = match scope.team {
        Some(t) => seq![("team"@, JsonV::Str(t@))] + tenant,
        None => tenant,
    };
    JsonV::Object(
        match scope.user {
            Some(u) => with_team.push(("user"@, JsonV::Str(u@))),
            None => with_team,
        },
    )
}

/// An optional text as JSON: the string, or `null`.
pub open spec fn opt_text_json(t: Option<String>) -> JsonV {
    match t {
        Some(s) => JsonV::Str(s@),
        None => JsonV::Null,
    }
}

/// What templates see of a context: `params`, `state` and `meta` (scope,
/// channel, correlation id), keys in order.
pub open spec fn snapshot_of(ctx: Ctx) -> JsonV {
    JsonV::Object(
        seq![
            ("meta"@, JsonV::Object(seq![
                ("channel"@, opt_text_json(ctx.meta.channel)),
                ("correlation_id"@, JsonV::Str(ctx.meta.correlation_id@)),
                ("scope"@, scope_json(ctx.meta.scope)),
            ])),
            ("params"@, ctx.params@),
            ("state"@, ctx.state@),
        ],
    )
}

/// The scope as a JSON object.
pub fn scope_value(scope: &Scope) -> (v: Json)
    ensures
        v@ == scope_json(*scope),
{
    let mut entries: Vec<(String, Json)> = Vec::new();
    if let Some(t) = &scope.team {
        entries.push((owned("team"), Json::String(t.clone())));
    }
    entries.push((owned("tenant"), Json::String(scope.tenant.clone())));
    if let Some(u) = &scope.user {
        entries.push((owned("user"), Json::String(u.clone())));
    }
    proof {
        reveal_strlit("team");
        reveal_strlit("tenant");
        reveal_strlit("user");
        lemma_entries_view(entries@);
        assert(entries_view(entries@) =~= object_entries(scope_json(*scope)));
    }
    Json::Object(entries)
}

impl Ctx {
    /// A context with empty `params` and `state` objects and nothing else set.
    pub fn new(meta: Meta) -> (c: Ctx)
        ensures
            c.params@ == JsonV::Object(Seq::empty()),
            c.state@ == JsonV::Object(Seq::empty()),
            c.meta == meta,
            c.deadline is None,
            c.idempotency_key is None,
            c.permissions@.len() == 0,
    {
        Ctx {
            params: Json::Object(Vec::new()),
            state: Json::Object(Vec::new()),
            meta,
            deadline: None,
            idempotency_key: None,
            permissions: Vec::new(),
        }
    }

    pub fn with_params(self, params: Json) -> (c: Ctx)
        ensures
            c == (Ctx { params, ..self }),
    {
        let mut c = self;
        c.params = params;
        c
    }

    pub fn with_state(self, state: Json) -> (c: Ctx)
        ensures
            c == (Ctx { state, ..self }),
    {
        let mut c = self;
        c.state = state;
        c
    }

    pub fn with_deadline(self, deadline: Option<std::time::Instant>) -> (c: Ctx)
        ensures
            c == (Ctx { deadline, ..self }),
    {
        let mut c = self;
        c.deadline = deadline;
        c
    }

    pub fn with_idempotency_key(self, key: Option<String>) -> (c: Ctx)
        ensures
            c == (Ctx { idempotency_key: key, ..self }),
    {
        let mut c = self;
        c.idempotency_key = key;
        c
    }

    pub fn with_permissions(self, permissions: Vec<String>) -> (c: Ctx)
        ensures
            c == (Ctx { permissions, ..self }),
    {
        let mut c = self;
        c.permissions = permissions;
        c
    }

    /// Grants one more permission.
    pub fn add_permission(&mut self, permission: &str)
        ensures
            views(final(self).permissions@) == views(old(self).permissions@).push(permission@),
            final(self).params == old(self).params,
            final(self).state == old(self).state,
            final(self).meta == old(self).meta,
            final(self).deadline == old(self).deadline,
            final(self).idempotency_key == old(self).idempotency_key,
    {
        self.permissions.push(owned(permission));
        proof {
            assert(views(self.permissions@) =~= views(old(self).permissions@).push(permission@));
        }
    }

    /// Whether `permission` was granted, exactly as written.
    pub fn has_permission(&self, permission: &str) -> (b: bool)
        ensures
            b == exists|i: int| 0 <= i < self.permissions@.len() && #[trigger] self.permissions@[i]@ == permission@,
    {
        let mut i: usize = 0;
        while i < self.permissions.len()
            invariant
                i <= self.permissions@.len(),
                forall|j: int| 0 <= j < i ==> self.permissions@[j]@ != permission@,
            decreases self.permissions@.len() - i,
        {
            if same_text(self.permissions[i].as_str(), permission) {
                return true;
            }
            i = i + 1;
        }
        false
    }

    /// Whether `pattern` is `*`, or some granted permission matches it.
    pub fn has_permission_pattern(&self, pattern: &str) -> (b: bool)
        ensures
            b == (pattern@ == "*"@ || exists|i: int|
                0 <= i < self.permissions@.len() && #[trigger] glob_match(pattern@, self.permissions@[i]@)),
    {
        if same_text(pattern, "*") {
            return true;
        }
        let mut i: usize = 0;
        while i < self.permissions.len()
            invariant
                i <= self.permissions@.len(),
                pattern@ != "*"@,
                forall|j: int| 0 <= j < i ==> !glob_match(pattern@, #[trigger] self.permissions@[j]@),
            decreases self.permissions@.len() - i,
        {
            if pattern_matches(pattern, self.permissions[i].as_str()) {
                return true;
            }
            i = i + 1;
        }
        false
    }

    /// Turns a `state` that is not an object into an empty object.
    pub fn ensure_state_object(&mut self)
        ensures
            final(self).state@ == JsonV::Object(object_entries(old(self).state@)),
            final(self).params == old(self).params,
            final(self).meta == old(self).meta,
            final(self).deadline == old(self).deadline,
            final(self).idempotency_key == old(self).idempotency_key,
            final(self).permissions == old(self).permissions,
    {
        if !self.state.is_object() {
            self.state = Json::Object(Vec::new());
        }
    }

    /// What templates see of this context.
    pub fn template_snapshot(&self) -> (v: Json)
        ensures
            v@ == snapshot_of(*self),
    {
        let channel = match &self.meta.channel {
            Some(c) => Json::String(c.clone()),
            None => Json::Null,
        };
        let mut meta: Vec<(String, Json)> = Vec::new();
        meta.push((owned("channel"), channel));
        meta.push((owned("correlation_id"), Json::String(self.meta.correlation_id.clone())));
        meta.push((owned("scope"), scope_value(&self.meta.scope)));
        let params = self.params.clone();
        let state = self.state.clone();
        let mut root: Vec<(String, Json)> = Vec::new();
        root.push((owned("meta"), Json::Object(meta)));
        root.push((owned("params"), params));
        root.push((owned("state"), state));
        proof {
            reveal_strlit("channel");
            reveal_strlit("correlation_id");
            reveal_strlit("scope");
            reveal_strlit("meta");
            reveal_strlit("params");
            reveal_strlit("state");
            lemma_entries_view(meta@);
            lemma_entries_view(root@);
            assert(entries_view(meta@) =~= seq![
                ("channel"@, opt_text_json(self.meta.channel)),
                ("correlation_id"@, JsonV::Str(self.meta.correlation_id@)),
                ("scope"@, scope_json(self.meta.scope)),
            ]);
            assert(entries_view(root@) =~= object_entries(snapshot_of(*self)));
        }
        Json::Object(root)
    }

    /// The value under a dotted path of `state`.
    pub fn get_from_state(&self, path: &str) -> (r: Option<&Json>)
        ensures
            match r {
                Some(v) => value_at_path(self.state@, path@) == Some(v@),
                None => value_at_path(self.state@, path@) is None,
            },
    {
        get_path(&self.state, path)
    }

    /// The value under a dotted path of `params`.
    pub fn get_from_params(&self, path: &str) -> (r: Option<&Json>)
        ensures
            match r {
                Some(v) => value_at_path(self.params@, path@) == Some(v@),
                None => value_at_path(self.params@, path@) is None,
            },
    {
        get_path(&self.params, path)
    }

    /// The value under a dotted path of `state`, else of `params`.
    pub fn get_from_state_or_params(&self, path: &str) -> (r: Option<&Json>)
        ensures
            match r {
                Some(v) => state_or_params(*self, path@) == Some(v@),
                None => state_or_params(*self, path@) is None,
            },
    {
        match self.get_from_state(path) {
            Some(v) => Some(v),
            None => self.get_from_params(path),
        }
    }

    /// Writes `value` at a dotted path of `state`, which becomes an object
    /// first if it is not one, creating the objects along the path.
    pub fn set_state_path(&mut self, path: &str, value: Json) -> (r: Result<(), StatePathError>)
        requires
            path_settable(old(self).state@, path@),
        ensures
            match path_segments(path@) {
                Ok(segs) => r is Ok && final(self).state@ == JsonV::Object(
                    set_in(object_entries(old(self).state@), segs, value@),
                ),
                Err(e) => r == Err::<(), StatePathError>(e) && final(self).state@ == JsonV::Object(
                    object_entries(old(self).state@),
                ),
            },
            final(self).params == old(self).params,
            final(self).meta == old(self).meta,
            final(self).deadline == old(self).deadline,
            final(self).idempotency_key == old(self).idempotency_key,
            final(self).permissions == old(self).permissions,
    {
        set_value_path(&mut self.state, path, value)
    }
}

fn settable_from(entries: &Vec<(String, Json)>, segs: &Vec<String>, i: usize) -> (b: bool)
    requires
        i <= segs@.len(),
    ensures
        b == settable(entries_view(entries@), views(segs@).skip(i as int)),
    decreases segs@.len() - i,
{
    let ghost rest = views(segs@).skip(i as int);
    if segs.len() - i <= 1 {
        return true;
    }
    proof {
        assert(rest[0] == segs@[i as int]@);
        assert(rest.drop_first() == views(segs@).skip(i + 1));
        lemma_entries_view(entries@);
    }
    match crate::json::get_entry(entries, segs[i].as_str()) {
        Some(Json::Object(child)) => settable_from(child, segs, i + 1),
        Some(_) => false,
        None => true,
    }
}

/// Whether writing at a dotted path of `root` passes through objects only.
pub fn path_is_settable(root: &Json, path: &str) -> (b: bool)
    ensures
        b == path_settable(root@, path@),
{
    match split_path(path) {
        Ok(segs) => {
            proof {
                assert(views(segs@).skip(0) == views(segs@));
            }
            match root {
                Json::Object(entries) => settable_from(entries, &segs, 0),
                _ => {
                    let empty: Vec<(String, Json)> = Vec::new();
                    settable_from(&empty, &segs, 0)
                },
            }
        },
        Err(_) => true,
    }
}

/// Writes `value` at a dotted path of `root`, which becomes an object first
/// if it is not one, creating the objects along the path.
pub fn set_value_path(root: &mut Json, path: &str, value: Json) -> (r: Result<(), StatePathError>)
    requires
        path_settable(old(root)@, path@),
    ensures
        match path_segments(path@) {
            Ok(segs) => r is Ok && final(root)@ == JsonV::Object(
                set_in(object_entries(old(root)@), segs, value@),
            ),
            Err(e) => r == Err::<(), StatePathError>(e) && final(root)@ == JsonV::Object(
                object_entries(old(root)@),
            ),
        },
{
    let mut taken = Json::Null;
    std::mem::swap(&mut taken, root);
    let mut entries = match taken {
        Json::Object(e) => e,
        _ => Vec::new(),
    };
    assert(entries_view(entries@) == object_entries(old(root)@));
    match split_path(path) {
        Ok(segs) => {
            proof {
                assert(views(segs@).skip(0) == views(segs@));
                crate::text::lemma_split_nonempty(path@, '.');
            }
            set_in_entries(&mut entries, &segs, 0, value);
            *root = Json::Object(entries);
            Ok(())
        },
        Err(e) => {
            *root = Json::Object(entries);
            Err(e)
        },
    }
}

/// The value under a dotted path of the state, else of the params.
pub open spec fn state_or_params(ctx: Ctx, path: Seq<char>) -> Option<JsonV> {
    match value_at_path(ctx.state@, path) {
        Some(v) => Some(v),
        None => value_at_path(ctx.params@, path),
    }
}


proof fn lemma_set_in_get(entries: Seq<(Seq<char>, JsonV)>, segs: Seq<Seq<char>>, value: JsonV)
    requires
        segs.len() >= 1,
    ensures
        json_at(JsonV::Object(set_in(entries, segs, value)), segs) == Some(value),
    decreases segs.len(),
{
    if segs.len() == 1 {
        crate::json::lemma_obj_insert_get(entries, segs[0], value, segs[0]);
        assert(segs.drop_first().len() == 0);
        assert(json_at(value, segs.drop_first()) == Some(value));
        assert(jget(JsonV::Object(set_in(entries, segs, value)), segs[0]) == Some(value));
    } else {
        let child = match obj_get(entries, segs[0]) {
            Some(JsonV::Object(c)) => c,
            _ => Seq::empty(),
        };
        let inner = set_in(child, segs.drop_first(), value);
        crate::json::lemma_obj_insert_get(entries, segs[0], JsonV::Object(inner), segs[0]);
        lemma_set_in_get(child, segs.drop_first(), value);
        assert(jget(JsonV::Object(set_in(entries, segs, value)), segs[0]) == Some(JsonV::Object(inner)));
    }
}

/// What a write gives back: after `value` is written at a well-formed dotted
/// path of a state, reading that path of the state yields `value`.
pub proof fn law_state_read_after_write(state: JsonV, path: Seq<char>, value: JsonV)
    requires
        path_segments(path) is Ok,
    ensures
        value_at_path(JsonV::Object(set_in(object_entries(state), path_segments(path)->Ok_0, value)), path) == Some(value),
{
    crate::text::lemma_split_nonempty(path, '.');
    lemma_set_in_get(object_entries(state), path_segments(path)->Ok_0, value);
}

/// Whether two segment lists part ways: at some position both have, they differ.
pub open spec fn diverge(a: Seq<Seq<char>>, b: Seq<Seq<char>>) -> bool {
    exists|i: int| 0 <= i < a.len() && i < b.len() && #[trigger] a[i] != b[i]
}

proof fn lemma_set_in_other(entries: Seq<(Seq<char>, JsonV)>, segs: Seq<Seq<char>>, value: JsonV, q: Seq<Seq<char>>)
    requires
        segs.len() >= 1,
        diverge(segs, q),
    ensures
        json_at(JsonV::Object(set_in(entries, segs, value)), q) == json_at(JsonV::Object(entries), q),
    decreases segs.len(),
{
    let i = choose|i: int| 0 <= i < segs.len() && i < q.len() && #[trigger] segs[i] != q[i];
    let new_entries = set_in(entries, segs, value);
    if segs[0] != q[0] {
        if segs.len() == 1 {
            crate::json::lemma_obj_insert_get(entries, segs[0], value, q[0]);
        } else {
            let child = match obj_get(entries, segs[0]) {
                Some(JsonV::Object(c)) => c,
                _ => Seq::empty(),
            };
            crate::json::lemma_obj_insert_get(entries, segs[0], JsonV::Object(set_in(child, segs.drop_first(), value)), q[0]);
        }
        assert(jget(JsonV::Object(new_entries), q[0]) == jget(JsonV::Object(entries), q[0]));
    } else {
        assert(i >= 1);
        let child = match obj_get(entries, segs[0]) {
            Some(JsonV::Object(c)) => c,
            _ => Seq::empty(),
        };
        let inner = set_in(child, segs.drop_first(), value);
        crate::json::lemma_obj_insert_get(entries, segs[0], JsonV::Object(inner), segs[0]);
        assert(segs.drop_first()[i - 1] == segs[i]);
        assert(q.drop_first()[i - 1] == q[i]);
        assert(diverge(segs.drop_first(), q.drop_first()));
        lemma_set_in_other(child, segs.drop_first(), value, q.drop_first());
        assert(jget(JsonV::Object(new_entries), q[0]) == Some(JsonV::Object(inner)));
        assert(json_at(JsonV::Object(new_entries), q) == json_at(JsonV::Object(inner), q.drop_first()));
        assert(q.drop_first().len() >= 1);
        let q1 = q.drop_first();
        match obj_get(entries, segs[0]) {
            Some(JsonV::Object(c)) => {
                assert(json_at(JsonV::Object(entries), q) == json_at(JsonV::Object(c), q1));
            },
            Some(x) => {
                assert(jget(x, q1[0]) is None);
                assert(json_at(x, q1) is None);
                assert(json_at(JsonV::Object(entries), q) is None);
                assert(obj_get(Seq::<(Seq<char>, JsonV)>::empty(), q1[0]) is None);
                assert(json_at(JsonV::Object(child), q1) is None);
            },
            None => {
                assert(json_at(JsonV::Object(entries), q) is None);
                assert(obj_get(Seq::<(Seq<char>, JsonV)>::empty(), q1[0]) is None);
                assert(json_at(JsonV::Object(child), q1) is None);
            },
        }
    }
}

/// What a write leaves alone: after `value` is written at a well-formed dotted
/// path of an object state, reading any well-formed path that parts ways with
/// it gives what it gave before.
pub proof fn law_state_write_keeps_others(state: JsonV, path: Seq<char>, value: JsonV, other: Seq<char>)
    requires
        state is Object,
        path_segments(path) is Ok,
        path_segments(other) is Ok,
        diverge(path_segments(path)->Ok_0, path_segments(other)->Ok_0),
    ensures
        value_at_path(JsonV::Object(set_in(object_entries(state), path_segments(path)->Ok_0, value)), other)
            == value_at_path(state, other),
{
    crate::text::lemma_split_nonempty(path, '.');
    lemma_set_in_other(object_entries(state), path_segments(path)->Ok_0, value, path_segments(other)->Ok_0);
}

}
