//! Registration scopes and the order in which a caller's scopes are searched.
use vstd::prelude::*;
use crate::contract::Scope;
use crate::text::{concat, owned, same_text};

verus! {

/// Where a flow is registered: globally, or under a tenant, optionally
/// narrowed to a team and/or a user.
#[derive(Debug, Clone, PartialEq, Eq, PartialOrd, Ord, Hash)]
pub struct ScopeKey {
    pub tenant: Option<String>,
    pub team: Option<String>,
    pub user: Option<String>,
}

pub struct ScopeKeyV {
    pub tenant: Option<Seq<char>>,
    pub team: Option<Seq<char>>,
    pub user: Option<Seq<char>>,
}

pub open spec fn opt_view(o: Option<String>) -> Option<Seq<char>> {
    match o {
        Some(s) => Some(s@),
        None => None,
    }
}

impl View for ScopeKey {
    type V = ScopeKeyV;

    open spec fn view(&self) -> ScopeKeyV {
        ScopeKeyV { tenant: opt_view(self.tenant), team: opt_view(self.team), user: opt_view(self.user) }
    }
}

pub open spec fn key_of(tenant: Option<Seq<char>>, team: Option<Seq<char>>, user: Option<Seq<char>>) -> ScopeKeyV {
    ScopeKeyV { tenant, team, user }
}

/// The registry path prefix of a scope.
pub open spec fn path_prefix_of(k: ScopeKeyV) -> Seq<char> {
    match (k.tenant, k.team, k.user) {
        (Some(t), Some(team), Some(u)) => "/tenants/"@ + t + "/teams/"@ + team + "/users/"@ + u,
        (Some(t), Some(team), None) => "/tenants/"@ + t + "/teams/"@ + team,
        (Some(t), None, Some(u)) => "/tenants/"@ + t + "/users/"@ + u,
        (Some(t), None, None) => "/tenants/"@ + t,
        (None, _, _) => "/global"@,
    }
}

/// The short display form of a scope.
pub open spec fn display_of(k: ScopeKeyV) -> Seq<char> {
    match (k.tenant, k.team, k.user) {
        (Some(t), Some(team), Some(u)) => t + "/"@ + team + "/"@ + u,
        (Some(t), Some(team), None) => t + "/"@ + team,
        (Some(t), None, Some(u)) => t + "/_/"@ + u,
        (Some(t), None, None) => t,
        (None, _, _) => "global"@,
    }
}

pub fn clone_opt(o: &Option<String>) -> (r: Option<String>)
    ensures
        opt_view(r) == opt_view(*o),
{
    match o {
        Some(s) => Some(s.clone()),
        None => None,
    }
}

fn same_opt(a: &Option<String>, b: &Option<String>) -> (r: bool)
    ensures
        r == (opt_view(*a) == opt_view(*b)),
{
    match (a, b) {
        (Some(x), Some(y)) => same_text(x.as_str(), y.as_str()),
        (None, None) => true,
        _ => false,
    }
}

impl ScopeKey {
    /// The global scope.
    pub fn global() -> (k: Self)
        ensures
            k@ == key_of(None, None, None),
    {
        ScopeKey { tenant: None, team: None, user: None }
    }

    /// The scope a contract scope names.
    pub fn from_scope(scope: &Scope) -> (k: Self)
        ensures
            k@ == key_of(Some(scope.tenant@), opt_view(scope.team), opt_view(scope.user)),
    {
        ScopeKey {
            tenant: Some(scope.tenant.clone()),
            team: clone_opt(&scope.team),
            user: clone_opt(&scope.user),
        }
    }

    pub fn with_parts(tenant: Option<String>, team: Option<String>, user: Option<String>) -> (k:
        Self)
        ensures
            k.tenant == tenant,
            k.team == team,
            k.user == user,
    {
        ScopeKey { tenant, team, user }
    }

    /// A copy with the same parts.
    pub fn duplicate(&self) -> (k: Self)
        ensures
            k@ == self@,
    {
        ScopeKey {
            tenant: clone_opt(&self.tenant),
            team: clone_opt(&self.team),
            user: clone_opt(&self.user),
        }
    }

    /// Whether two keys name the same scope.
    pub fn same(&self, other: &ScopeKey) -> (r: bool)
        ensures
            r == (self@ == other@),
    {
        same_opt(&self.tenant, &other.tenant) && same_opt(&self.team, &other.team) && same_opt(
            &self.user,
            &other.user,
        )
    }

    /// The registry path prefix: `/tenants/{t}[/teams/{team}][/users/{u}]`, or
    /// `/global` without a tenant.
    pub fn path_prefix(&self) -> (s: String)
        ensures
            s@ == path_prefix_of(self@),
    {
        match (&self.tenant, &self.team, &self.user) {
            (Some(tenant), Some(team), Some(user)) => {
                let a = concat("/tenants/", tenant.as_str());
                let b = concat(a.as_str(), "/teams/");
                let c = concat(b.as_str(), team.as_str());
                let d = concat(c.as_str(), "/users/");
                concat(d.as_str(), user.as_str())
            },
            (Some(tenant), Some(team), None) => {
                let a = concat("/tenants/", tenant.as_str());
                let b = concat(a.as_str(), "/teams/");
                concat(b.as_str(), team.as_str())
            },
            (Some(tenant), None, Some(user)) => {
                let a = concat("/tenants/", tenant.as_str());
                let b = concat(a.as_str(), "/users/");
                concat(b.as_str(), user.as_str())
            },
            (Some(tenant), None, None) => concat("/tenants/", tenant.as_str()),
            (None, _, _) => owned("/global"),
        }
    }

    /// The display form: `t/team/u`, `t/team`, `t/_/u`, `t`, or `global`.
    pub fn display_text(&self) -> (s: String)
        ensures
            s@ == display_of(self@),
    {
        match (&self.tenant, &self.team, &self.user) {
            (Some(tenant), Some(team), Some(user)) => {
                let a = concat(tenant.as_str(), "/");
                let b = concat(a.as_str(), team.as_str());
                let c = concat(b.as_str(), "/");
                concat(c.as_str(), user.as_str())
            },
            (Some(tenant), Some(team), None) => {
                let a = concat(tenant.as_str(), "/");
                concat(a.as_str(), team.as_str())
            },
            (Some(tenant), None, Some(user)) => {
                let a = concat(tenant.as_str(), "/_/");
                concat(a.as_str(), user.as_str())
            },
            (Some(tenant), None, None) => owned(tenant.as_str()),
            (None, _, _) => owned("global"),
        }
    }
}

pub open spec fn keys_view(v: Seq<ScopeKey>) -> Seq<ScopeKeyV> {
    v.map_values(|k: ScopeKey| k@)
}

/// The scopes in order, keeping only the first occurrence of each.
pub open spec fn dedup_keys(s: Seq<ScopeKeyV>) -> Seq<ScopeKeyV>
    decreases s.len(),
{
    if s.len() == 0 {
        Seq::empty()
    } else {
        let r = dedup_keys(s.drop_last());
        if r.contains(s.last()) {
            r
        } else {
            r.push(s.last())
        }
    }
}

/// The scopes a caller's flows are looked up in, most specific first:
/// tenant+team+user, tenant+team, tenant+user, tenant, global.
pub open spec fn fallback_candidates(tenant: Seq<char>, team: Option<Seq<char>>, user: Option<Seq<char>>) -> Seq<ScopeKeyV> {
    let a = if team is Some && user is Some {
        seq![key_of(Some(tenant), team, user)]
    } else {
        Seq::empty()
    };
    let b = if team is Some {
        seq![key_of(Some(tenant), team, None)]
    } else {
        Seq::empty()
    };
    let c = if user is Some {
        seq![key_of(Some(tenant), None, user)]
    } else {
        Seq::empty()
    };
    a + b + c + seq![key_of(Some(tenant), None, None), key_of(None, None, None)]
}

pub open spec fn fallback_order_of(scope: Scope) -> Seq<ScopeKeyV> {
    dedup_keys(fallback_candidates(scope.tenant@, opt_view(scope.team), opt_view(scope.user)))
}

pub open spec fn distinct(s: Seq<ScopeKeyV>) -> bool {
    forall|i: int, j: int| 0 <= i < j < s.len() ==> #[trigger] s[i] != #[trigger] s[j]
}

pub proof fn lemma_dedup_distinct(s: Seq<ScopeKeyV>)
    requires
        distinct(s),
    ensures
        dedup_keys(s) == s,
    decreases s.len(),
{
    if s.len() > 0 {
        let p = s.drop_last();
        assert(distinct(p));
        lemma_dedup_distinct(p);
        assert(!p.contains(s.last())) by {
            if p.contains(s.last()) {
                let k = choose|k: int| 0 <= k < p.len() && p[k] == s.last();
                assert(s[k] == s[s.len() - 1]);
            }
        }
        assert(p.push(s.last()) == s);
    }
}

fn dedup(scopes: Vec<ScopeKey>) -> (unique: Vec<ScopeKey>)
    ensures
        keys_view(unique@) == dedup_keys(keys_view(scopes@)),
{
    let mut unique: Vec<ScopeKey> = Vec::new();
    let mut i: usize = 0;
    while i < scopes.len()
        invariant
            i <= scopes@.len(),
            keys_view(unique@) == dedup_keys(keys_view(scopes@.take(i as int))),
        decreases scopes@.len() - i,
    {
        let mut found = false;
        let mut j: usize = 0;
        while j < unique.len()
            invariant
                j <= unique@.len(),
                i < scopes@.len(),
                found == (exists|m: int| 0 <= m < j && #[trigger] unique@[m]@ == scopes@[i as int]@),
            decreases unique@.len() - j,
        {
            if unique[j].same(&scopes[i]) {
                found = true;
            }
            j = j + 1;
        }
        proof {
            let s = keys_view(scopes@.take(i + 1));
            assert(s.drop_last() == keys_view(scopes@.take(i as int)));
            assert(s.last() == scopes@[i as int]@);
            let u = keys_view(unique@);
            if found {
                let m = choose|m: int| 0 <= m < unique@.len() && #[trigger] unique@[m]@ == scopes@[i as int]@;
                assert(u[m] == s.last());
                assert(u.contains(s.last()));
            } else {
                assert(!u.contains(s.last())) by {
                    if u.contains(s.last()) {
                        let m = choose|m: int| 0 <= m < u.len() && u[m] == s.last();
                        assert(unique@[m]@ == scopes@[i as int]@);
                    }
                }
            }
        }
        if !found {
            let k = scopes[i].duplicate();
            proof {
                assert(keys_view(unique@.push(k)) == keys_view(unique@).push(k@));
            }
            unique.push(k);
        }
        i = i + 1;
    }
    assert(scopes@.take(scopes@.len() as int) == scopes@);
    unique
}

/// The scopes a caller's flows are looked up in, most specific first.
pub fn fallback_order(scope: &Scope) -> (order: Vec<ScopeKey>)
    ensures
        keys_view(order@) == fallback_order_of(*scope),
{
    let mut order: Vec<ScopeKey> = Vec::new();
    let ghost tenant = scope.tenant@;
    let ghost team = opt_view(scope.team);
    let ghost user = opt_view(scope.user);
    if scope.team.is_some() && scope.user.is_some() {
        order.push(
            ScopeKey::with_parts(
                Some(scope.tenant.clone()),
                clone_opt(&scope.team),
                clone_opt(&scope.user),
            ),
        );
    }
    if scope.team.is_some() {
        order.push(ScopeKey::with_parts(Some(scope.tenant.clone()), clone_opt(&scope.team), None));
    }
    if scope.user.is_some() {
        order.push(ScopeKey::with_parts(Some(scope.tenant.clone()), None, clone_opt(&scope.user)));
    }
    order.push(ScopeKey::with_parts(Some(scope.tenant.clone()), None, None));
    order.push(ScopeKey::global());
    assert(keys_view(order@) =~= fallback_candidates(tenant, team, user));
    dedup(order)
}

/// The lookup order a caller's scope yields names every scope at most once,
/// starts at the caller's most specific scope and ends at the global scope;
/// since the five candidate scopes differ, deduplicating leaves them as they are.
pub proof fn law_fallback_order(scope: Scope)
    ensures
        fallback_order_of(scope) == fallback_candidates(
            scope.tenant@,
            opt_view(scope.team),
            opt_view(scope.user),
        ),
        distinct(fallback_order_of(scope)),
        fallback_order_of(scope).last() == key_of(None, None, None),
        fallback_order_of(scope)[0] == key_of(Some(scope.tenant@), opt_view(scope.team), opt_view(scope.user)),
{
    let c = fallback_candidates(scope.tenant@, opt_view(scope.team), opt_view(scope.user));
    assert(distinct(c));
    lemma_dedup_distinct(c);
}

/// The lookup order spelled out: a caller with a team and a user is looked up
/// under tenant+team+user, tenant+team, tenant+user, tenant, then global; one
/// with only a team under tenant+team, tenant, global; one with only a user
/// under tenant+user, tenant, global; one with neither under tenant, global.
pub proof fn law_fallback_order_cases(scope: Scope)
    ensures
        ({
            let t = Some(scope.tenant@);
            let team = opt_view(scope.team);
            let user = opt_view(scope.user);
            let g = key_of(None, None, None);
            fallback_order_of(scope) == match (team, user) {
                (Some(_), Some(_)) => seq![key_of(t, team, user), key_of(t, team, None), key_of(t, None, user), key_of(t, None, None), g],
                (Some(_), None) => seq![key_of(t, team, None), key_of(t, None, None), g],
                (None, Some(_)) => seq![key_of(t, None, user), key_of(t, None, None), g],
                (None, None) => seq![key_of(t, None, None), g],
            }
        }),
{
    law_fallback_order(scope);
    let t = Some(scope.tenant@);
    let team = opt_view(scope.team);
    let user = opt_view(scope.user);
    let g = key_of(None, None, None);
    let c = fallback_candidates(scope.tenant@, team, user);
    match (team, user) {
        (Some(_), Some(_)) => {
            assert(c =~= seq![key_of(t, team, user), key_of(t, team, None), key_of(t, None, user), key_of(t, None, None), g]);
        },
        (Some(_), None) => {
            assert(c =~= seq![key_of(t, team, None), key_of(t, None, None), g]);
        },
        (None, Some(_)) => {
            assert(c =~= seq![key_of(t, None, user), key_of(t, None, None), g]);
        },
        (None, None) => {
            assert(c =~= seq![key_of(t, None, None), g]);
        },
    }
}

}
