//! Where published flow signatures are kept, per scope and flow id, newest
//! version first, and how a caller's request is resolved against them.
use vstd::prelude::*;
use crate::contract::Scope;
use crate::scope::{fallback_order, fallback_order_of, keys_view, ScopeKey, ScopeKeyV};
use crate::signature::{AdapterError, FlowRecord, FlowRecordV};
use crate::search::{first_index, lemma_first_index, lemma_first_index_at, lemma_first_index_ext, lemma_first_index_none};
use crate::text::same_text;
use crate::versions::{semver_less, semver_req_matches, SemVer, SemVerV, VersionRequirement};

verus! {

/// A registered record with the version it is kept under.
#[derive(Debug, Clone)]
pub struct VersionedRecord {
    pub version: SemVer,
    pub record: FlowRecord,
}

pub struct VersionedRecordV {
    pub version: SemVerV,
    pub record: FlowRecordV,
}

impl View for VersionedRecord {
    type V = VersionedRecordV;

    open spec fn view(&self) -> VersionedRecordV {
        VersionedRecordV { version: self.version@, record: self.record@ }
    }
}

impl VersionedRecord {
    /// A record kept under its signature's version.
    pub fn new(record: FlowRecord) -> (v: VersionedRecord)
        ensures
            v.version@ == record.signature.version@,
            v.record == record,
    {
        let version = record.signature.version.clone();
        VersionedRecord { version, record }
    }

    /// A copy of the record.
    pub fn duplicate(&self) -> (v: VersionedRecord)
        ensures
            v@ == self@,
    {
        VersionedRecord { version: self.version.clone(), record: self.record.duplicate() }
    }
}

pub open spec fn records_view(s: Seq<VersionedRecord>) -> Seq<VersionedRecordV> {
    s.map_values(|r: VersionedRecord| r@)
}

/// The records whose version differs from `v`, in order.
pub open spec fn without_version(s: Seq<VersionedRecordV>, v: SemVerV) -> Seq<VersionedRecordV>
    decreases s.len(),
{
    if s.len() == 0 {
        s
    } else if s.last().version == v {
        without_version(s.drop_last(), v)
    } else {
        without_version(s.drop_last(), v).push(s.last())
    }
}

/// Whether the record at a position has lower precedence than version `v`.
pub open spec fn precedes_at(s: Seq<VersionedRecordV>, v: SemVerV) -> spec_fn(int) -> bool {
    |i: int| semver_less(s[i].version, v)
}

/// Where a record of version `v` goes among records kept newest first:
/// before the first one of lower precedence.
pub open spec fn insert_position(s: Seq<VersionedRecordV>, v: SemVerV) -> int {
    match first_index(s.len(), precedes_at(s, v)) {
        Some(i) => i,
        None => s.len() as int,
    }
}

/// The records of a flow after `r` is registered: any record of the same
/// version is replaced, and `r` takes its place by precedence.
pub open spec fn with_record(s: Seq<VersionedRecordV>, r: VersionedRecordV) -> Seq<VersionedRecordV> {
    let kept = without_version(s, r.version);
    kept.insert(insert_position(kept, r.version), r)
}

/// Whether a version satisfies an optional requirement (none is satisfied by all).
pub open spec fn satisfies(req: Option<Seq<char>>, v: SemVerV) -> bool {
    match req {
        Some(t) => semver_req_matches(t, v),
        None => true,
    }
}

/// The record a version requirement selects: among the records satisfying
/// it, the one of highest precedence, the first of those when several tie.
pub open spec fn best_index(s: Seq<VersionedRecordV>, req: Option<Seq<char>>) -> Option<int>
    decreases s.len(),
{
    if s.len() == 0 {
        None
    } else {
        let last = s.len() - 1;
        match best_index(s.drop_last(), req) {
            None => if satisfies(req, s[last].version) { Some(last) } else { None },
            Some(b) => if satisfies(req, s[last].version) && semver_less(s[b].version, s[last].version) {
                Some(last)
            } else {
                Some(b)
            },
        }
    }
}

pub open spec fn req_view(req: Option<&VersionRequirement>) -> Option<Seq<char>> {
    match req {
        Some(r) => Some(r@),
        None => None,
    }
}

/// Selects, among `versions`, the record of highest precedence that
/// satisfies the requirement.
pub fn select_version(versions: Vec<VersionedRecord>, version_req: Option<&VersionRequirement>) -> (r: Option<VersionedRecord>)
    ensures
        match best_index(records_view(versions@), req_view(version_req)) {
            Some(i) => r matches Some(x) && x@ == records_view(versions@)[i],
            None => r is None,
        },
{
    let ghost s = records_view(versions@);
    let ghost req = req_view(version_req);
    let mut best: Option<usize> = None;
    let mut k: usize = 0;
    while k < versions.len()
        invariant
            k <= versions@.len(),
            s == records_view(versions@),
            req == req_view(version_req),
            s.len() == versions@.len(),
            forall|j: int| 0 <= j < versions@.len() ==> #[trigger] s[j] == versions@[j]@,
            match best {
                Some(b) => best_index(s.take(k as int), req) == Some(b as int) && b < k,
                None => best_index(s.take(k as int), req) is None,
            },
        decreases versions@.len() - k,
    {
        proof {
            assert(s.take(k + 1).drop_last() == s.take(k as int));
            assert(s.take(k + 1)[k as int] == s[k as int]);
        }
        let ok = match version_req {
            Some(req_value) => req_value.matches(&versions[k].version),
            None => true,
        };
        if ok {
            match best {
                None => {
                    best = Some(k);
                },
                Some(b) => {
                    if versions[b].version.precedes(&versions[k].version) {
                        best = Some(k);
                    }
                },
            }
        }
        k = k + 1;
    }
    assert(s.take(versions@.len() as int) == s);
    match best {
        Some(b) => Some(versions[b].duplicate()),
        None => None,
    }
}

/// A store of registered flow records.
pub trait Registry: Sized {
    /// The records kept for a flow in a scope, newest first.
    spec fn versions_view(&self, scope: ScopeKeyV, flow_id: Seq<char>) -> Seq<VersionedRecordV>;

    /// Whether the registry takes this record into this scope; a store that
    /// can fail (a remote one, say) says here when it does not.
    spec fn accepts(&self, scope: ScopeKeyV, record: FlowRecordV) -> bool;

    /// Registers a record in a scope, replacing any of the same flow and version.
    fn register(&mut self, scope: &ScopeKey, record: FlowRecord) -> (r: Result<(), AdapterError>)
        ensures
            r is Ok == old(self).accepts(scope@, record@),
            r is Ok ==> final(self).versions_view(scope@, record.signature.flow_id@) == with_record(
                old(self).versions_view(scope@, record.signature.flow_id@),
                VersionedRecordV { version: record.signature.version@, record: record@ },
            ),
            r is Ok ==> forall|s: ScopeKeyV, f: Seq<char>|
                !(s == scope@ && f == record.signature.flow_id@) ==> #[trigger] final(self).versions_view(s, f)
                    == old(self).versions_view(s, f),
            r is Err ==> forall|s: ScopeKeyV, f: Seq<char>| #[trigger] final(self).versions_view(s, f) == old(self).versions_view(s, f),
    ;

    /// The records kept for a flow in a scope, newest first.
    fn versions_for(&self, scope: &ScopeKey, flow_id: &str) -> (r: Vec<VersionedRecord>)
        ensures
            records_view(r@) == self.versions_view(scope@, flow_id@),
    ;

    /// Resolves a flow for a caller: the scopes of the caller are searched most
    /// specific first, and the first that keeps a record satisfying the
    /// requirement yields the one of highest precedence.
    fn resolve(&self, flow_id: &str, version_req: Option<&VersionRequirement>, caller_scope: &Scope) -> (r: Result<Option<VersionedRecord>, AdapterError>)
        ensures
            r is Ok,
            match r {
                Ok(Some(x)) => exists|k: int| #![trigger fallback_order_of(*caller_scope)[k]] {
                    let keys = fallback_order_of(*caller_scope);
                    let s = self.versions_view(keys[k], flow_id@);
                    &&& 0 <= k < keys.len()
                    &&& forall|j: int| 0 <= j < k ==> best_index(#[trigger] self.versions_view(keys[j], flow_id@), req_view(version_req)) is None
                    &&& best_index(s, req_view(version_req)) is Some
                    &&& x@ == s[best_index(s, req_view(version_req))->0]
                },
                Ok(None) => forall|k: int| 0 <= k < fallback_order_of(*caller_scope).len() ==> best_index(
                    #[trigger] self.versions_view(fallback_order_of(*caller_scope)[k], flow_id@),
                    req_view(version_req),
                ) is None,
                Err(_) => false,
            },
    {
        let order = fallback_order(caller_scope);
        let ghost keys = fallback_order_of(*caller_scope);
        let mut k: usize = 0;
        while k < order.len()
            invariant
                k <= order@.len(),
                keys == fallback_order_of(*caller_scope),
                keys_view(order@) == keys,
                keys.len() == order@.len(),
                forall|j: int| 0 <= j < k ==> best_index(#[trigger] self.versions_view(keys[j], flow_id@), req_view(version_req)) is None,
            decreases order@.len() - k,
        {
            assert(keys[k as int] == order@[k as int]@);
            let versions = self.versions_for(&order[k], flow_id);
            if versions.len() > 0 {
                match select_version(versions, version_req) {
                    Some(record) => {
                        assert(best_index(self.versions_view(keys[k as int], flow_id@), req_view(version_req)) is Some);
                        assert(fallback_order_of(*caller_scope)[k as int] == keys[k as int]);
                        return Ok(Some(record));
                    },
                    None => {},
                }
            } else {
                assert(self.versions_view(keys[k as int], flow_id@).len() == 0);
            }
            k = k + 1;
        }
        Ok(None)
    }
}


proof fn lemma_without_version(s: Seq<VersionedRecordV>, v: SemVerV)
    ensures
        forall|i: int| 0 <= i < without_version(s, v).len() ==> #[trigger] without_version(s, v)[i].version != v,
        forall|i: int| 0 <= i < without_version(s, v).len() ==> s.contains(#[trigger] without_version(s, v)[i]),
        forall|i: int| 0 <= i < s.len() && s[i].version != v ==> without_version(s, v).contains(#[trigger] s[i]),
    decreases s.len(),
{
    if s.len() > 0 {
        let rest = s.drop_last();
        lemma_without_version(rest, v);
        assert forall|i: int| 0 <= i < without_version(s, v).len() implies s.contains(#[trigger] without_version(s, v)[i]) by {
            if i < without_version(rest, v).len() {
                let x = without_version(rest, v)[i];
                let k = choose|k: int| 0 <= k < rest.len() && rest[k] == x;
                assert(s[k] == x);
            } else {
                assert(s[s.len() - 1] == without_version(s, v)[i]);
            }
        }
        assert forall|i: int| 0 <= i < s.len() && s[i].version != v implies without_version(s, v).contains(#[trigger] s[i]) by {
            if i < s.len() - 1 {
                assert(rest[i] == s[i]);
                let k = choose|k: int| 0 <= k < without_version(rest, v).len() && without_version(rest, v)[k] == rest[i];
                assert(without_version(s, v)[k] == s[i]);
            } else {
                assert(without_version(s, v).last() == s[i]);
            }
        }
    }
}

/// What registering keeps: the new record is among the flow's records, it is
/// the only one of its version, and every record of another version stays.
pub proof fn law_register_keeps(s: Seq<VersionedRecordV>, r: VersionedRecordV)
    ensures
        with_record(s, r).contains(r),
        forall|i: int| 0 <= i < with_record(s, r).len() && (#[trigger] with_record(s, r)[i]).version == r.version ==> with_record(s, r)[i] == r,
        forall|i: int| 0 <= i < s.len() && s[i].version != r.version ==> with_record(s, r).contains(#[trigger] s[i]),
{
    let kept = without_version(s, r.version);
    lemma_without_version(s, r.version);
    let pos = insert_position(kept, r.version);
    let p = precedes_at(kept, r.version);
    lemma_first_index(kept.len(), p);
    assert(0 <= pos <= kept.len());
    let w = with_record(s, r);
    assert(w[pos] == r);
    assert forall|i: int| 0 <= i < w.len() && (#[trigger] w[i]).version == r.version implies w[i] == r by {
        if i < pos {
            assert(w[i] == kept[i]);
        } else if i > pos {
            assert(w[i] == kept[i - 1]);
        }
    }
    assert forall|i: int| 0 <= i < s.len() && s[i].version != r.version implies w.contains(#[trigger] s[i]) by {
        let k = choose|k: int| 0 <= k < kept.len() && kept[k] == s[i];
        if k < pos {
            assert(w[k] == s[i]);
        } else {
            assert(w[k + 1] == s[i]);
        }
    }
}

/// Whether a version has no pre-release and no build identifiers.
pub open spec fn is_release(v: SemVerV) -> bool {
    v.pre.len() == 0 && v.build.len() == 0
}

/// Records kept newest first: none comes before a record of higher precedence.
pub open spec fn newest_first(s: Seq<VersionedRecordV>) -> bool {
    forall|i: int, j: int| 0 <= i < j < s.len() ==> !semver_less(#[trigger] s[i].version, #[trigger] s[j].version)
}

proof fn lemma_release_less(a: SemVerV, b: SemVerV)
    requires
        is_release(a),
        is_release(b),
    ensures
        semver_less(a, b) == crate::versions::numbers_less(a, b),
{
    assert(a.pre =~= b.pre);
    assert(a.build =~= b.build);
}

proof fn lemma_without_version_order(s: Seq<VersionedRecordV>, v: SemVerV)
    requires
        newest_first(s),
    ensures
        newest_first(without_version(s, v)),
    decreases s.len(),
{
    if s.len() > 0 {
        let rest = s.drop_last();
        assert(newest_first(rest)) by {
            assert forall|i: int, j: int| 0 <= i < j < rest.len() implies !semver_less(#[trigger] rest[i].version, #[trigger] rest[j].version) by {
                assert(rest[i] == s[i] && rest[j] == s[j]);
            }
        }
        lemma_without_version_order(rest, v);
        lemma_without_version(rest, v);
        let w = without_version(rest, v);
        if s.last().version != v {
            assert forall|i: int, j: int| 0 <= i < j < w.push(s.last()).len() implies !semver_less(
                #[trigger] w.push(s.last())[i].version,
                #[trigger] w.push(s.last())[j].version,
            ) by {
                if j == w.len() {
                    let k = choose|k: int| 0 <= k < rest.len() && rest[k] == w[i];
                    assert(s[k] == w[i]);
                    assert(s[s.len() - 1] == s.last());
                } else {
                    assert(w.push(s.last())[i] == w[i] && w.push(s.last())[j] == w[j]);
                }
            }
        }
    }
}

/// What registering keeps of the order: when a flow's records are releases
/// kept newest first and a release is registered, they are still kept newest
/// first.
pub proof fn law_register_keeps_order(s: Seq<VersionedRecordV>, r: VersionedRecordV)
    requires
        newest_first(s),
        forall|i: int| 0 <= i < s.len() ==> is_release(#[trigger] s[i].version),
        is_release(r.version),
    ensures
        newest_first(with_record(s, r)),
{
    let kept = without_version(s, r.version);
    lemma_without_version(s, r.version);
    lemma_without_version_order(s, r.version);
    let pos = insert_position(kept, r.version);
    let p = precedes_at(kept, r.version);
    lemma_first_index(kept.len(), p);
    let out = with_record(s, r);
    assert forall|i: int| 0 <= i < kept.len() implies is_release(#[trigger] kept[i].version) by {
        let k = choose|k: int| 0 <= k < s.len() && s[k] == kept[i];
        assert(is_release(s[k].version));
    }
    assert forall|i: int, j: int| 0 <= i < j < out.len() implies !semver_less(#[trigger] out[i].version, #[trigger] out[j].version) by {
        if j < pos {
            assert(out[i] == kept[i] && out[j] == kept[j]);
        } else if j == pos {
            assert(out[i] == kept[i]);
            assert(!p(i));
        } else if i > pos {
            assert(out[i] == kept[i - 1] && out[j] == kept[j - 1]);
        } else if i == pos {
            assert(out[j] == kept[j - 1]);
            assert(p(pos));
            lemma_release_less(kept[pos].version, r.version);
            lemma_release_less(r.version, kept[j - 1].version);
            if j - 1 > pos {
                lemma_release_less(kept[pos].version, kept[j - 1].version);
            }
        } else {
            assert(out[i] == kept[i] && out[j] == kept[j - 1]);
        }
    }
}

/// The newest satisfying release is selected: among records of releases,
/// a record is selected exactly when one satisfies the requirement, and no
/// satisfying record has higher major, minor and patch numbers.
pub proof fn law_select_newest(s: Seq<VersionedRecordV>, req: Option<Seq<char>>)
    requires
        forall|i: int| 0 <= i < s.len() ==> is_release(#[trigger] s[i].version),
    ensures
        best_index(s, req) is None <==> forall|j: int| 0 <= j < s.len() ==> !satisfies(req, #[trigger] s[j].version),
        best_index(s, req) matches Some(b) ==> 0 <= b < s.len() && satisfies(req, s[b].version) && forall|j: int|
            0 <= j < s.len() && satisfies(req, #[trigger] s[j].version) ==> !crate::versions::numbers_less(s[b].version, s[j].version),
    decreases s.len(),
{
    if s.len() > 0 {
        let rest = s.drop_last();
        assert forall|i: int| 0 <= i < rest.len() implies is_release(#[trigger] rest[i].version) by {
            assert(rest[i] == s[i]);
        }
        law_select_newest(rest, req);
        let last = s.len() - 1;
        match best_index(rest, req) {
            None => {
                assert forall|j: int| 0 <= j < last implies !satisfies(req, #[trigger] s[j].version) by {
                    assert(rest[j] == s[j]);
                }
            },
            Some(b) => {
                assert(rest[b] == s[b]);
                assert forall|j: int| 0 <= j < last && satisfies(req, #[trigger] s[j].version) implies !crate::versions::numbers_less(s[b].version, s[j].version) by {
                    assert(rest[j] == s[j]);
                }
            },
        }
    }
}

/// The records of one flow in one scope.
#[derive(Debug, Clone)]
struct RegistryGroup {
    scope: ScopeKey,
    flow_id: String,
    versions: Vec<VersionedRecord>,
}

/// A registry held in memory.
#[derive(Debug, Clone)]
pub struct InMemoryRegistry {
    groups: Vec<RegistryGroup>,
}

spec fn group_is(groups: Seq<RegistryGroup>, scope: ScopeKeyV, flow_id: Seq<char>) -> spec_fn(int) -> bool {
    |i: int| groups[i].scope@ == scope && groups[i].flow_id@ == flow_id
}

spec fn group_at(groups: Seq<RegistryGroup>, scope: ScopeKeyV, flow_id: Seq<char>) -> Option<int> {
    first_index(groups.len(), group_is(groups, scope, flow_id))
}

spec fn group_versions(groups: Seq<RegistryGroup>, scope: ScopeKeyV, flow_id: Seq<char>) -> Seq<VersionedRecordV> {
    match group_at(groups, scope, flow_id) {
        Some(i) => records_view(groups[i].versions@),
        None => Seq::empty(),
    }
}

proof fn lemma_group_at(groups: Seq<RegistryGroup>, scope: ScopeKeyV, flow_id: Seq<char>)
    ensures
        match group_at(groups, scope, flow_id) {
            Some(i) => 0 <= i < groups.len() && groups[i].scope@ == scope && groups[i].flow_id@ == flow_id,
            None => forall|j: int| 0 <= j < groups.len() ==> !(groups[j].scope@ == scope && groups[j].flow_id@ == flow_id),
        },
{
    let p = group_is(groups, scope, flow_id);
    lemma_first_index(groups.len(), p);
    match group_at(groups, scope, flow_id) {
        Some(i) => {
            assert(p(i));
        },
        None => {
            assert forall|j: int| 0 <= j < groups.len() implies !(groups[j].scope@ == scope && groups[j].flow_id@ == flow_id) by {
                assert(!p(j));
            }
        },
    }
}

fn find_group(groups: &Vec<RegistryGroup>, scope: &ScopeKey, flow_id: &str) -> (r: Option<usize>)
    ensures
        match r {
            Some(i) => group_at(groups@, scope@, flow_id@) == Some(i as int),
            None => group_at(groups@, scope@, flow_id@) is None,
        },
{
    let ghost p = group_is(groups@, scope@, flow_id@);
    let mut i: usize = 0;
    while i < groups.len()
        invariant
            i <= groups@.len(),
            p == group_is(groups@, scope@, flow_id@),
            forall|j: int| 0 <= j < i ==> !#[trigger] p(j),
        decreases groups@.len() - i,
    {
        if groups[i].scope.same(scope) && same_text(groups[i].flow_id.as_str(), flow_id) {
            proof {
                lemma_first_index_at(groups@.len(), p, i as int);
            }
            return Some(i);
        }
        i = i + 1;
    }
    proof {
        lemma_first_index_none(groups@.len(), p);
    }
    None
}

fn copy_records(v: &Vec<VersionedRecord>) -> (r: Vec<VersionedRecord>)
    ensures
        records_view(r@) == records_view(v@),
{
    let mut r: Vec<VersionedRecord> = Vec::new();
    let mut i: usize = 0;
    while i < v.len()
        invariant
            i <= v@.len(),
            r@.len() == i,
            forall|j: int| 0 <= j < i ==> #[trigger] r@[j]@ == v@[j]@,
        decreases v@.len() - i,
    {
        r.push(v[i].duplicate());
        i = i + 1;
    }
    assert(records_view(r@) =~= records_view(v@));
    r
}

/// The records of `old` with `record` registered: same-version records
/// dropped, the new one placed before the first of lower precedence.
fn place_record(old: &Vec<VersionedRecord>, record: VersionedRecord) -> (r: Vec<VersionedRecord>)
    ensures
        records_view(r@) == with_record(records_view(old@), record@),
{
    let ghost s = records_view(old@);
    let mut kept: Vec<VersionedRecord> = Vec::new();
    let mut j: usize = 0;
    while j < old.len()
        invariant
            j <= old@.len(),
            s == records_view(old@),
            records_view(kept@) == without_version(s.take(j as int), record@.version),
        decreases old@.len() - j,
    {
        proof {
            assert(s.take(j + 1).drop_last() == s.take(j as int));
            assert(s.take(j + 1).last() == old@[j as int]@);
        }
        if !old[j].version.same(&record.version) {
            let ghost before = kept@;
            kept.push(old[j].duplicate());
            proof {
                assert(records_view(kept@) =~= records_view(before).push(old@[j as int]@));
            }
        }
        j = j + 1;
    }
    assert(s.take(old@.len() as int) == s);
    let ghost k = records_view(kept@);
    let ghost p = precedes_at(k, record@.version);
    let mut pos: usize = 0;
    while pos < kept.len() && !kept[pos].version.precedes(&record.version)
        invariant
            pos <= kept@.len(),
            k == records_view(kept@),
            p == precedes_at(k, record@.version),
            forall|i: int| 0 <= i < pos ==> !#[trigger] p(i),
        decreases kept@.len() - pos,
    {
        pos = pos + 1;
    }
    proof {
        if pos < kept@.len() {
            lemma_first_index_at(k.len(), p, pos as int);
        } else {
            lemma_first_index_none(k.len(), p);
        }
    }
    let ghost placed = record@;
    kept.insert(pos, record);
    proof {
        assert(records_view(kept@) =~= k.insert(pos as int, placed));
    }
    kept
}

impl InMemoryRegistry {
    /// An empty registry.
    pub fn new() -> (r: InMemoryRegistry)
        ensures
            forall|s: ScopeKeyV, f: Seq<char>| #[trigger] r.versions_view(s, f) == Seq::<VersionedRecordV>::empty(),
    {
        let r = InMemoryRegistry { groups: Vec::new() };
        proof {
            assert forall|s: ScopeKeyV, f: Seq<char>| #[trigger] r.versions_view(s, f) == Seq::<VersionedRecordV>::empty() by {
                lemma_group_at(r.groups@, s, f);
            }
        }
        r
    }

    /// Forgets every record.
    pub fn clear(&mut self)
        ensures
            forall|s: ScopeKeyV, f: Seq<char>| #[trigger] final(self).versions_view(s, f) == Seq::<VersionedRecordV>::empty(),
    {
        self.groups = Vec::new();
        proof {
            assert forall|s: ScopeKeyV, f: Seq<char>| #[trigger] self.versions_view(s, f) == Seq::<VersionedRecordV>::empty() by {
                lemma_group_at(self.groups@, s, f);
            }
        }
    }
}

impl Registry for InMemoryRegistry {
    closed spec fn versions_view(&self, scope: ScopeKeyV, flow_id: Seq<char>) -> Seq<VersionedRecordV> {
        group_versions(self.groups@, scope, flow_id)
    }

    /// An in-memory registry takes every record.
    open spec fn accepts(&self, scope: ScopeKeyV, record: FlowRecordV) -> bool {
        true
    }

    /// Registering in memory always succeeds.
    fn register(&mut self, scope: &ScopeKey, record: FlowRecord) -> (r: Result<(), AdapterError>)
        ensures
            r is Ok,
    {
        let ghost key_s = scope@;
        let ghost key_f = record.signature.flow_id@;
        let ghost rv = VersionedRecordV { version: record.signature.version@, record: record@ };
        let ghost before = self.groups@;
        let flow_id = record.signature.flow_id.clone();
        let found = find_group(&self.groups, scope, flow_id.as_str());
        let entry = VersionedRecord::new(record);
        assert(entry@ == rv);
        match found {
            Some(i) => {
                proof {
                    lemma_group_at(before, key_s, key_f);
                }
                let mut group = self.groups.remove(i);
                let placed = place_record(&group.versions, entry);
                group.versions = placed;
                self.groups.insert(i, group);
                proof {
                    lemma_group_at(before, key_s, key_f);
                    assert(self.groups@ == before.update(i as int, self.groups@[i as int]));
                    assert forall|s: ScopeKeyV, f: Seq<char>| group_at(self.groups@, s, f) == #[trigger] group_at(before, s, f) by {
                        let p = group_is(before, s, f);
                        let q = group_is(self.groups@, s, f);
                        assert forall|j: int| 0 <= j < before.len() implies #[trigger] p(j) == q(j) by {}
                        lemma_first_index_ext(before.len(), p, q);
                    }
                    assert forall|s: ScopeKeyV, f: Seq<char>|
                        !(s == key_s && f == key_f) implies #[trigger] group_versions(self.groups@, s, f) == group_versions(before, s, f) by {
                        lemma_group_at(before, s, f);
                        assert(group_at(self.groups@, s, f) == group_at(before, s, f));
                    }
                    assert(group_at(self.groups@, key_s, key_f) == Some(i as int));
                }
            },
            None => {
                let mut versions: Vec<VersionedRecord> = Vec::new();
                versions.push(entry);
                let group = RegistryGroup { scope: scope.duplicate(), flow_id, versions };
                self.groups.push(group);
                proof {
                    lemma_group_at(before, key_s, key_f);
                    assert forall|s: ScopeKeyV, f: Seq<char>|
                        !(s == key_s && f == key_f) implies #[trigger] group_versions(self.groups@, s, f) == group_versions(before, s, f) by {
                        let p = group_is(before, s, f);
                        let q = group_is(self.groups@, s, f);
                        assert forall|j: int| 0 <= j < before.len() implies #[trigger] p(j) == q(j) by {}
                        lemma_first_index_ext(before.len(), p, q);
                        assert(!q(before.len() as int));
                        lemma_group_at(before, s, f);
                    }
                    let p = group_is(before, key_s, key_f);
                    let q = group_is(self.groups@, key_s, key_f);
                    assert forall|j: int| 0 <= j < before.len() implies #[trigger] p(j) == q(j) by {}
                    lemma_first_index_ext(before.len(), p, q);
                    assert(q(before.len() as int));
                    assert(group_at(self.groups@, key_s, key_f) == Some(before.len() as int));
                    assert(records_view(self.groups@[before.len() as int].versions@) =~= seq![rv]);
                    assert(without_version(Seq::<VersionedRecordV>::empty(), rv.version) == Seq::<VersionedRecordV>::empty());
                    assert(first_index(0, precedes_at(Seq::<VersionedRecordV>::empty(), rv.version)) is None);
                    assert(Seq::<VersionedRecordV>::empty().insert(0, rv) =~= seq![rv]);
                }
            },
        }
        Ok(())
    }

    fn versions_for(&self, scope: &ScopeKey, flow_id: &str) -> (r: Vec<VersionedRecord>) {
        match find_group(&self.groups, scope, flow_id) {
            Some(i) => {
                proof {
                    lemma_group_at(self.groups@, scope@, flow_id@);
                }
                copy_records(&self.groups[i].versions)
            },
            None => {
                let r: Vec<VersionedRecord> = Vec::new();
                assert(records_view(r@) =~= Seq::<VersionedRecordV>::empty());
                r
            },
        }
    }
}

}
