//! Semantic versions of registered flows and the requirements callers put on
//! them; parsing, precedence and matching are semver's.
use vstd::prelude::*;
use crate::text::{concat, decimal, owned, same_text, u64_text};

verus! {

/// Why semver refused a version or a requirement (`semver::Error`), kept as is.
#[verifier::external_type_specification]
#[verifier::external_body]
pub struct ExSemverError(semver::Error);

/// A semantic version: numeric major, minor and patch, with pre-release and
/// build identifiers (empty when absent). Values are made by `new` and
/// `parse` only, so the identifiers are always ones semver accepts.
#[derive(Debug, PartialEq, Eq)]
pub struct SemVer {
    major: u64,
    minor: u64,
    patch: u64,
    pre: String,
    build: String,
}

pub struct SemVerV {
    pub major: u64,
    pub minor: u64,
    pub patch: u64,
    pub pre: Seq<char>,
    pub build: Seq<char>,
}

impl View for SemVer {
    type V = SemVerV;

    closed spec fn view(&self) -> SemVerV {
        SemVerV { major: self.major, minor: self.minor, patch: self.patch, pre: self.pre@, build: self.build@ }
    }
}

/// The version semver reads from a text, if it is one.
pub uninterp spec fn semver_parse(text: Seq<char>) -> Option<SemVerV>;

/// Whether, of two versions with the same numbers and different identifiers,
/// the first has lower precedence by semver's order of pre-release and then
/// build identifiers.
pub uninterp spec fn semver_identifiers_less(a_pre: Seq<char>, a_build: Seq<char>, b_pre: Seq<char>, b_build: Seq<char>) -> bool;

/// Whether a version has lower precedence than another: by major, minor and
/// patch first, then by semver's order of the identifiers; never when equal.
pub open spec fn semver_less(a: SemVerV, b: SemVerV) -> bool {
    if numbers_less(a, b) {
        true
    } else if numbers_less(b, a) {
        false
    } else if a.pre == b.pre && a.build == b.build {
        false
    } else {
        semver_identifiers_less(a.pre, a.build, b.pre, b.build)
    }
}

/// Whether semver reads a requirement from a text.
pub uninterp spec fn semver_req_valid(text: Seq<char>) -> bool;

/// Whether a version satisfies the requirement a text states, by semver.
pub uninterp spec fn semver_req_matches(req: Seq<char>, v: SemVerV) -> bool;

/// Whether the numbers of a version come before those of another.
pub open spec fn numbers_less(a: SemVerV, b: SemVerV) -> bool {
    a.major < b.major || (a.major == b.major && (a.minor < b.minor || (a.minor == b.minor
        && a.patch < b.patch)))
}

/// A version as text: `major.minor.patch`, then `-pre` and `+build` when present.
pub open spec fn version_text(v: SemVerV) -> Seq<char> {
    let core = decimal(v.major as nat) + "."@ + decimal(v.minor as nat) + "."@ + decimal(v.patch as nat);
    let with_pre = if v.pre.len() > 0 { core + "-"@ + v.pre } else { core };
    if v.build.len() > 0 { with_pre + "+"@ + v.build } else { with_pre }
}

/// `semver::Version::parse`: the version a text holds, with its pre-release
/// and build identifiers as text.
#[verifier::external_body]
fn parse_semver(text: &str) -> (r: Option<SemVer>)
    ensures
        match r {
            Some(v) => semver_parse(text@) == Some(v@),
            None => semver_parse(text@) is None,
        },
{
    semver::Version::parse(text).ok().map(|v| SemVer {
        major: v.major,
        minor: v.minor,
        patch: v.patch,
        pre: v.pre.as_str().to_string(),
        build: v.build.as_str().to_string(),
    })
}

/// `<` on `semver::Version`, whose order is derived field by field: major,
/// minor and patch, then the pre-release identifiers, then the build
/// identifiers (the last two by semver's own orders), so equal versions are
/// never less than each other.
#[verifier::external_body]
fn semver_lt(a: &SemVer, b: &SemVer) -> (r: bool)
    ensures
        r == (if numbers_less(a@, b@) {
            true
        } else if numbers_less(b@, a@) {
            false
        } else if a@.pre == b@.pre && a@.build == b@.build {
            false
        } else {
            semver_identifiers_less(a@.pre, a@.build, b@.pre, b@.build)
        }),
{
    let x = semver::Version { major: a.major, minor: a.minor, patch: a.patch,
        pre: semver::Prerelease::new(&a.pre).unwrap_or(semver::Prerelease::EMPTY),
        build: semver::BuildMetadata::new(&a.build).unwrap_or(semver::BuildMetadata::EMPTY) };
    let y = semver::Version { major: b.major, minor: b.minor, patch: b.patch,
        pre: semver::Prerelease::new(&b.pre).unwrap_or(semver::Prerelease::EMPTY),
        build: semver::BuildMetadata::new(&b.build).unwrap_or(semver::BuildMetadata::EMPTY) };
    x < y
}

/// `semver::VersionReq::parse`, for whether a text is a requirement.
#[verifier::external_body]
fn check_requirement(text: &str) -> (r: Result<(), semver::Error>)
    ensures
        r is Ok == semver_req_valid(text@),
{
    semver::VersionReq::parse(text).map(|_| ())
}

/// `semver::VersionReq::matches` on the requirement a text states.
#[verifier::external_body]
fn requirement_matches(req: &str, v: &SemVer) -> (b: bool)
    requires
        semver_req_valid(req@),
    ensures
        b == semver_req_matches(req@, v@),
{
    let x = semver::Version { major: v.major, minor: v.minor, patch: v.patch,
        pre: semver::Prerelease::new(&v.pre).unwrap_or(semver::Prerelease::EMPTY),
        build: semver::BuildMetadata::new(&v.build).unwrap_or(semver::BuildMetadata::EMPTY) };
    semver::VersionReq::parse(req).map(|r| r.matches(&x)).unwrap_or(false)
}

impl Clone for SemVer {
    fn clone(&self) -> (r: Self)
        ensures
            r@ == self@,
    {
        SemVer {
            major: self.major,
            minor: self.minor,
            patch: self.patch,
            pre: self.pre.clone(),
            build: self.build.clone(),
        }
    }
}

impl SemVer {
    /// The release `major.minor.patch`.
    pub fn new(major: u64, minor: u64, patch: u64) -> (v: SemVer)
        ensures
            v@ == (SemVerV { major, minor, patch, pre: Seq::empty(), build: Seq::empty() }),
    {
        SemVer { major, minor, patch, pre: String::new(), build: String::new() }
    }

    /// The version a text holds, if it is one.
    pub fn parse(text: &str) -> (r: Option<SemVer>)
        ensures
            match r {
                Some(v) => semver_parse(text@) == Some(v@),
                None => semver_parse(text@) is None,
            },
    {
        parse_semver(text)
    }

    pub fn major(&self) -> (m: u64)
        ensures
            m == self@.major,
    {
        self.major
    }

    pub fn minor(&self) -> (m: u64)
        ensures
            m == self@.minor,
    {
        self.minor
    }

    pub fn patch(&self) -> (p: u64)
        ensures
            p == self@.patch,
    {
        self.patch
    }

    pub fn pre(&self) -> (s: &str)
        ensures
            s@ == self@.pre,
    {
        self.pre.as_str()
    }

    pub fn build(&self) -> (s: &str)
        ensures
            s@ == self@.build,
    {
        self.build.as_str()
    }

    /// Whether two versions are the same.
    pub fn same(&self, other: &SemVer) -> (b: bool)
        ensures
            b == (self@ == other@),
    {
        self.major == other.major && self.minor == other.minor && self.patch == other.patch
            && same_text(self.pre.as_str(), other.pre.as_str()) && same_text(
            self.build.as_str(),
            other.build.as_str(),
        )
    }

    /// Whether this version has lower precedence than `other`.
    pub fn precedes(&self, other: &SemVer) -> (b: bool)
        ensures
            b == semver_less(self@, other@),
    {
        semver_lt(self, other)
    }

    /// The version as text.
    pub fn to_text(&self) -> (s: String)
        ensures
            s@ == version_text(self@),
    {
        let a = u64_text(self.major);
        let b = concat(a.as_str(), ".");
        let c = u64_text(self.minor);
        let d = concat(b.as_str(), c.as_str());
        let e = concat(d.as_str(), ".");
        let f = u64_text(self.patch);
        let mut s = concat(e.as_str(), f.as_str());
        proof {
            reveal_strlit(".");
            reveal_strlit("-");
            reveal_strlit("+");
        }
        if !self.pre.as_str().is_empty() {
            let t = concat(s.as_str(), "-");
            s = concat(t.as_str(), self.pre.as_str());
        }
        if !self.build.as_str().is_empty() {
            let t = concat(s.as_str(), "+");
            s = concat(t.as_str(), self.build.as_str());
        }
        s
    }
}

/// A requirement on versions, kept as the text semver reads it from.
#[derive(Debug)]
pub struct VersionRequirement {
    text: String,
}

impl View for VersionRequirement {
    type V = Seq<char>;

    closed spec fn view(&self) -> Seq<char> {
        self.text@
    }
}

impl Clone for VersionRequirement {
    fn clone(&self) -> (r: Self)
        ensures
            r@ == self@,
    {
        proof {
            use_type_invariant(self);
        }
        VersionRequirement { text: self.text.clone() }
    }
}

impl VersionRequirement {
    #[verifier::type_invariant]
    spec fn readable(self) -> bool {
        semver_req_valid(self.text@)
    }

    /// The requirement a text states, or semver's reason to refuse it.
    pub fn parse(text: &str) -> (r: Result<VersionRequirement, semver::Error>)
        ensures
            r is Ok == semver_req_valid(text@),
            r matches Ok(req) ==> req@ == text@,
    {
        match check_requirement(text) {
            Ok(()) => Ok(VersionRequirement { text: owned(text) }),
            Err(e) => Err(e),
        }
    }

    /// The text of the requirement.
    pub fn as_text(&self) -> (s: &str)
        ensures
            s@ == self@,
    {
        self.text.as_str()
    }

    /// Whether a version satisfies the requirement.
    pub fn matches(&self, v: &SemVer) -> (b: bool)
        ensures
            b == semver_req_matches(self@, v@),
    {
        proof {
            use_type_invariant(self);
        }
        requirement_matches(self.text.as_str(), v)
    }
}

}
