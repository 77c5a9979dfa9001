//! Concrete versions, version requirements, and the pin derived from a
//! requirement.

use std::str::FromStr;
use vstd::prelude::*;

verus! {

#[verifier::external_type_specification]
#[verifier::external_body]
pub struct ExSemverError(semver::Error);

#[verifier::external_type_specification]
#[verifier::external_body]
pub struct ExSemverComparator(semver::Comparator);

#[verifier::external_type_specification]
#[verifier::external_body]
pub struct ExSemverOp(semver::Op);

/// Comparison operator of one clause of a requirement.
#[derive(Clone, Copy, Debug, PartialEq, Eq, Structural)]
pub enum ClauseOp {
    Exact,
    Greater,
    GreaterEq,
    Less,
    LessEq,
    Tilde,
    Caret,
    Wildcard,
}

/// One comparator clause: an operator and a partial version, whose minor and
/// patch parts may be absent.
#[derive(Debug)]
pub struct Clause {
    pub op: ClauseOp,
    pub major: u64,
    pub minor: Option<u64>,
    pub patch: Option<u64>,
    pub pre: String,
}

/// Mathematical value of a [`Clause`].
pub struct ClauseModel {
    pub op: ClauseOp,
    pub major: u64,
    pub minor: Option<u64>,
    pub patch: Option<u64>,
    pub pre: Seq<char>,
}

impl View for Clause {
    type V = ClauseModel;

    open spec fn view(&self) -> ClauseModel {
        ClauseModel {
            op: self.op,
            major: self.major,
            minor: self.minor,
            patch: self.patch,
            pre: self.pre@,
        }
    }
}

/// A concrete version: `major.minor.patch`, with pre-release and build
/// metadata held as text (empty when absent).
#[derive(Debug)]
pub struct ConcreteVersion {
    pub major: u64,
    pub minor: u64,
    pub patch: u64,
    pub pre: String,
    pub build: String,
}

/// Mathematical value of a [`ConcreteVersion`].
pub struct VersionModel {
    pub major: u64,
    pub minor: u64,
    pub patch: u64,
    pub pre: Seq<char>,
    pub build: Seq<char>,
}

impl View for ConcreteVersion {
    type V = VersionModel;

    open spec fn view(&self) -> VersionModel {
        VersionModel {
            major: self.major,
            minor: self.minor,
            patch: self.patch,
            pre: self.pre@,
            build: self.build@,
        }
    }
}

/// A version requirement: its comparator clauses in declaration order, and
/// its canonical text.
#[derive(Debug)]
pub struct VersionRequirement {
    pub clauses: Vec<Clause>,
    pub display: String,
}

/// Mathematical value of a [`VersionRequirement`].
pub struct RequirementModel {
    pub clauses: Seq<ClauseModel>,
    pub display: Seq<char>,
}

impl View for VersionRequirement {
    type V = RequirementModel;

    open spec fn view(&self) -> RequirementModel {
        RequirementModel { clauses: self.clauses@.map_values(|c: Clause| c@), display: self.display@ }
    }
}

/// A text that is not a valid version requirement (or version).
#[derive(Debug)]
pub struct ParseError {
    pub text: String,
}

/// What the registry's requirement grammar makes of a text: `None` when the
/// text is not a requirement.
pub uninterp spec fn parsed_requirement(text: Seq<char>) -> Option<RequirementModel>;

/// What the registry's version grammar makes of a text: `None` when the text
/// is not a version.
pub uninterp spec fn parsed_version(text: Seq<char>) -> Option<VersionModel>;

/// Whether a version satisfies one clause under the registry's matching
/// rules.
pub uninterp spec fn clause_admits(c: ClauseModel, v: VersionModel) -> bool;

/// Whether the registry's pre-release grammar accepts a non-empty text.
pub uninterp spec fn prerelease_accepted(text: Seq<char>) -> bool;

/// A pre-release text that the registry reads: empty, or accepted by its
/// grammar.
pub open spec fn pre_ok(text: Seq<char>) -> bool {
    text.len() == 0 || prerelease_accepted(text)
}

/// Every clause's pre-release text is one the registry reads.
pub open spec fn clauses_evaluable(clauses: Seq<ClauseModel>) -> bool {
    forall|i: int| 0 <= i < clauses.len() ==> pre_ok(#[trigger] clauses[i].pre)
}

/// Relies on `semver::Op` having exactly the eight variants of `ClauseOp`;
/// the operator is carried over one for one. `semver::Op` is marked
/// non-exhaustive, which asks for the last arm; it has no further variant.
#[verifier::external_body]
fn op_from_semver(op: semver::Op) -> (r: ClauseOp) {
    match op {
        semver::Op::Exact => ClauseOp::Exact,
        semver::Op::Greater => ClauseOp::Greater,
        semver::Op::GreaterEq => ClauseOp::GreaterEq,
        semver::Op::Less => ClauseOp::Less,
        semver::Op::LessEq => ClauseOp::LessEq,
        semver::Op::Tilde => ClauseOp::Tilde,
        semver::Op::Caret => ClauseOp::Caret,
        _ => ClauseOp::Wildcard,
    }
}

/// Relies on `semver::Op` having a variant for each of `ClauseOp`'s; the
/// operator is carried over one for one.
#[verifier::external_body]
fn op_to_semver(op: ClauseOp) -> (r: semver::Op) {
    match op {
        ClauseOp::Exact => semver::Op::Exact,
        ClauseOp::Greater => semver::Op::Greater,
        ClauseOp::GreaterEq => semver::Op::GreaterEq,
        ClauseOp::Less => semver::Op::Less,
        ClauseOp::LessEq => semver::Op::LessEq,
        ClauseOp::Tilde => semver::Op::Tilde,
        ClauseOp::Caret => semver::Op::Caret,
        ClauseOp::Wildcard => semver::Op::Wildcard,
    }
}

/// Relies on the public fields of `semver::Comparator`, carried over one for
/// one (the pre-release through `Prerelease::as_str`).
#[verifier::external_body]
fn clause_from_semver(c: &semver::Comparator) -> (r: Clause) {
    Clause {
        op: op_from_semver(c.op),
        major: c.major,
        minor: c.minor,
        patch: c.patch,
        pre: c.pre.as_str().to_string(),
    }
}

/// Relies on `semver::VersionReq::from_str` to parse a requirement, and on
/// its `Display` for the canonical text. The parser's only panic is for an
/// identifier of more than 2^56 bytes, which no text in memory reaches.
#[verifier::external_body]
fn semver_requirement(text: &str) -> (r: Result<VersionRequirement, semver::Error>)
    ensures
        r is Ok <==> parsed_requirement(text@) is Some,
        r is Ok ==> r->Ok_0@ == parsed_requirement(text@)->Some_0,
        r is Ok ==> forall|i: int|
            0 <= i < r->Ok_0@.clauses.len() ==> (#[trigger] r->Ok_0@.clauses[i]).pre.len() == 0
                || prerelease_accepted(r->Ok_0@.clauses[i].pre),
{
    match semver::VersionReq::from_str(text) {
        Ok(req) => Ok(VersionRequirement {
            clauses: req.comparators.iter().map(clause_from_semver).collect(),
            display: req.to_string(),
        }),
        Err(e) => Err(e),
    }
}

/// Relies on `semver::Version::from_str` to parse a version; the fields are
/// carried over one for one. As for requirements, only an identifier of more
/// than 2^56 bytes would make it panic.
#[verifier::external_body]
fn semver_version(text: &str) -> (r: Result<ConcreteVersion, semver::Error>)
    ensures
        r is Ok <==> parsed_version(text@) is Some,
        r is Ok ==> r->Ok_0@ == parsed_version(text@)->Some_0,
        r is Ok ==> r->Ok_0@.pre.len() == 0 || prerelease_accepted(r->Ok_0@.pre),
{
    match semver::Version::from_str(text) {
        Ok(v) => Ok(ConcreteVersion {
            major: v.major,
            minor: v.minor,
            patch: v.patch,
            pre: v.pre.as_str().to_string(),
            build: v.build.as_str().to_string(),
        }),
        Err(e) => Err(e),
    }
}

/// Relies on `semver::Comparator::matches`; the pre-release texts are turned
/// back into `semver::Prerelease` by `Prerelease::new` (which accepts the
/// empty text), and `None` stands for its failure.
#[verifier::external_body]
fn semver_clause_matches(c: &Clause, v: &ConcreteVersion) -> (r: Option<bool>)
    ensures
        r is Some <==> ((c@.pre.len() == 0 || prerelease_accepted(c@.pre)) && (v@.pre.len() == 0
            || prerelease_accepted(v@.pre))),
        r is Some ==> r->Some_0 == clause_admits(c@, v@),
{
    match (semver::Prerelease::new(&c.pre), semver::Prerelease::new(&v.pre)) {
        (Ok(cpre), Ok(vpre)) => {
            let cmp = semver::Comparator { op: op_to_semver(c.op), major: c.major, minor: c.minor, patch: c.patch, pre: cpre };
            let ver = semver::Version { major: v.major, minor: v.minor, patch: v.patch, pre: vpre, build: semver::BuildMetadata::EMPTY };
            Some(cmp.matches(&ver))
        },
        _ => None,
    }
}

/// Whether a clause pins a single version: its operator is exact, tilde or
/// caret, and both its minor and patch parts are written out.
pub open spec fn pins(c: ClauseModel) -> bool {
    (c.op == ClauseOp::Exact || c.op == ClauseOp::Tilde || c.op == ClauseOp::Caret)
        && c.minor is Some && c.patch is Some
}

/// The version `major.minor.patch` with no pre-release and no build metadata.
pub open spec fn plain_version(major: u64, minor: u64, patch: u64) -> VersionModel {
    VersionModel { major, minor, patch, pre: Seq::empty(), build: Seq::empty() }
}

/// The pin of the first pinning clause at index `i` or later, if any.
pub open spec fn pin_from(clauses: Seq<ClauseModel>, i: int) -> Option<VersionModel>
    decreases clauses.len() - i,
{
    if i < 0 || i >= clauses.len() {
        None
    } else if pins(clauses[i]) {
        Some(plain_version(clauses[i].major, clauses[i].minor->Some_0, clauses[i].patch->Some_0))
    } else {
        pin_from(clauses, i + 1)
    }
}

/// The pinned version of a requirement: that of its first pinning clause.
/// Absent minor or patch parts are never taken as zero.
pub open spec fn pin_of(clauses: Seq<ClauseModel>) -> Option<VersionModel> {
    pin_from(clauses, 0)
}

/// Two versions are the same when they agree on everything but build
/// metadata.
pub open spec fn same_version(a: VersionModel, b: VersionModel) -> bool {
    a.major == b.major && a.minor == b.minor && a.patch == b.patch && a.pre == b.pre
}

/// Whether `v` satisfies a requirement: at least one of its clauses admits
/// it. A requirement without clauses is the bare wildcard, which every
/// version but a pre-release satisfies. Each clause is read as the registry
/// reads it; in particular a caret on a version without a patch part still
/// holds the leftmost nonzero part, so `^0.9` admits `0.9.7` but not
/// `1.0.0`. `None` when a pre-release text is not one the registry reads.
pub open spec fn requirement_verdict(clauses: Seq<ClauseModel>, v: VersionModel) -> Option<bool> {
    if clauses.len() == 0 {
        Some(v.pre.len() == 0)
    } else if clauses_evaluable(clauses) && pre_ok(v.pre) {
        Some(exists|i: int| 0 <= i < clauses.len() && clause_admits(#[trigger] clauses[i], v))
    } else {
        None
    }
}

impl ConcreteVersion {
    /// The version `major.minor.patch` with no pre-release and no build
    /// metadata.
    pub fn new(major: u64, minor: u64, patch: u64) -> (r: ConcreteVersion)
        ensures
            r@ == plain_version(major, minor, patch),
    {
        ConcreteVersion { major, minor, patch, pre: String::new(), build: String::new() }
    }

    /// Parses a version in the registry's grammar.
    pub fn parse(text: &str) -> (r: Result<ConcreteVersion, ParseError>)
        ensures
            r is Ok <==> parsed_version(text@) is Some,
            r is Ok ==> r->Ok_0@ == parsed_version(text@)->Some_0,
            r is Ok ==> pre_ok(r->Ok_0@.pre),
            r is Err ==> r->Err_0.text@ == text@,
    {
        match semver_version(text) {
            Ok(v) => Ok(v),
            Err(_) => Err(ParseError { text: text.to_owned() }),
        }
    }

    /// Whether the two versions agree on everything but build metadata.
    pub fn same_as(&self, other: &ConcreteVersion) -> (r: bool)
        ensures
            r == same_version(self@, other@),
    {
        self.major == other.major && self.minor == other.minor && self.patch == other.patch
            && self.pre == other.pre
    }

    /// A copy of the version.
    pub fn duplicate(&self) -> (r: ConcreteVersion)
        ensures
            r@ == self@,
    {
        ConcreteVersion {
            major: self.major,
            minor: self.minor,
            patch: self.patch,
            pre: self.pre.clone(),
            build: self.build.clone(),
        }
    }
}

impl VersionRequirement {
    /// Parses a requirement in the registry's grammar.
    pub fn parse(text: &str) -> (r: Result<VersionRequirement, ParseError>)
        ensures
            r is Ok <==> parsed_requirement(text@) is Some,
            r is Ok ==> r->Ok_0@ == parsed_requirement(text@)->Some_0,
            r is Ok ==> clauses_evaluable(r->Ok_0@.clauses),
            r is Err ==> r->Err_0.text@ == text@,
    {
        match semver_requirement(text) {
            Ok(req) => Ok(req),
            Err(_) => Err(ParseError { text: text.to_owned() }),
        }
    }

    /// Whether `v` satisfies the requirement (see [`requirement_verdict`]).
    pub fn matches(&self, v: &ConcreteVersion) -> (r: Option<bool>)
        ensures
            r == requirement_verdict(self@.clauses, v@),
    {
        let n = self.clauses.len();
        if n == 0 {
            return Some(v.pre.as_str().unicode_len() == 0);
        }
        let mut found = false;
        let mut i: usize = 0;
        while i < n
            invariant
                n == self.clauses@.len(),
                n > 0,
                i <= n,
                i > 0 ==> pre_ok(v@.pre),
                forall|j: int| 0 <= j < i ==> pre_ok(#[trigger] self@.clauses[j].pre),
                found == exists|j: int| 0 <= j < i && clause_admits(#[trigger] self@.clauses[j], v@),
            decreases n - i,
        {
            let ghost c = self@.clauses[i as int];
            match semver_clause_matches(&self.clauses[i], v) {
                None => {
                    assert(!clauses_evaluable(self@.clauses) || !pre_ok(v@.pre)) by {
                        assert(!pre_ok(c.pre) || !pre_ok(v@.pre));
                    }
                    return None;
                },
                Some(b) => {
                    proof {
                        if b {
                            assert(clause_admits(self@.clauses[i as int], v@));
                        } else {
                            assert forall|j: int| 0 <= j < i + 1 && clause_admits(#[trigger] self@.clauses[j], v@)
                                implies j < i by {}
                        }
                    }
                    found = found || b;
                },
            }
            i = i + 1;
        }
        Some(found)
    }
}

/// The pinned version of a requirement, by the first-pinning-clause rule.
pub fn get_version_from_version_req(version_req: &VersionRequirement) -> (r: Option<ConcreteVersion>)
    ensures
        r is Some <==> pin_of(version_req@.clauses) is Some,
        r is Some ==> r->Some_0@ == pin_of(version_req@.clauses)->Some_0,
{
    let n = version_req.clauses.len();
    let mut i: usize = 0;
    while i < n
        invariant
            n == version_req.clauses@.len(),
            i <= n,
            pin_of(version_req@.clauses) == pin_from(version_req@.clauses, i as int),
        decreases n - i,
    {
        let c = &version_req.clauses[i];
        let pinning = match c.op {
            ClauseOp::Exact | ClauseOp::Tilde | ClauseOp::Caret => true,
            _ => false,
        };
        if pinning {
            match (c.minor, c.patch) {
                (Some(minor), Some(patch)) => {
                    return Some(ConcreteVersion::new(c.major, minor, patch));
                },
                _ => {},
            }
        }
        i = i + 1;
    }
    None
}

/// Parses a requirement and derives its pinned version.
pub fn get_versions_from_str(ver_str: &str) -> (r: Result<(VersionRequirement, Option<ConcreteVersion>), ParseError>)
    ensures
        r is Ok <==> parsed_requirement(ver_str@) is Some,
        r is Ok ==> {
            let (req, pin) = r->Ok_0;
            &&& req@ == parsed_requirement(ver_str@)->Some_0
            &&& clauses_evaluable(req@.clauses)
            &&& pin is Some <==> pin_of(req@.clauses) is Some
            &&& pin is Some ==> pin->Some_0@ == pin_of(req@.clauses)->Some_0
        },
        r is Err ==> r->Err_0.text@ == ver_str@,
{
    let version_req = VersionRequirement::parse(ver_str)?;
    let version = get_version_from_version_req(&version_req);
    Ok((version_req, version))
}

/// The canonical text of a requirement with every caret removed.
pub fn version_req_str(version_req: &VersionRequirement) -> (r: String)
    ensures
        r@ == version_req@.display.filter(|ch: char| ch != '^'),
{
    let text = version_req.display.as_str();
    let n = text.unicode_len();
    let mut out = String::new();
    let mut i: usize = 0;
    while i < n
        invariant
            n == text@.len(),
            text@ == version_req@.display,
            i <= n,
            out@ == text@.subrange(0, i as int).filter(|ch: char| ch != '^'),
        decreases n - i,
    {
        let ch = text.get_char(i);
        proof {
            let s = text@.subrange(0, i as int + 1);
            assert(s.drop_last() =~= text@.subrange(0, i as int));
            reveal(Seq::filter);
        }
        if ch != '^' {
            out.append(text.substring_char(i, i + 1));
        }
        i = i + 1;
    }
    proof {
        assert(text@.subrange(0, n as int) =~= text@);
    }
    out
}

} // verus!
