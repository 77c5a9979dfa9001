//! Deciding which records lag behind the registry.

use crate::dependency::{parse_dependency_value, Dependency, DependencyModel, RawToml};
use crate::manifest::TomlValue;
use crate::version::{
    clauses_evaluable, get_versions_from_str, parsed_requirement, parsed_version, pin_of, requirement_verdict,
    pre_ok, same_version, version_req_str, ConcreteVersion, RequirementModel, VersionModel,
    VersionRequirement,
};
use vstd::prelude::*;

verus! {

/// What the registry knows of one package: its name, the texts of its
/// versions, and the text of its latest stable version, if it has one.
#[derive(Debug)]
pub struct RegistryPackage {
    pub name: String,
    pub versions: Vec<String>,
    pub latest_stable: Option<String>,
}

/// How a record's requirement is held against the latest stable version.
#[derive(Debug, Clone, Copy, PartialEq, Eq, Structural)]
pub enum Policy {
    /// Fresh when the requirement admits the latest stable version.
    RangeMatch,
    /// Fresh when the pinned version is the latest stable version; a record
    /// without a pinned version is held to `RangeMatch`.
    Strict,
    /// Fresh when the pinned version is the latest stable version; a record
    /// without a pinned version is an error.
    StrictOnlyWherePinned,
}

/// Why a record could not be held against the registry.
#[derive(Debug, Clone, Copy, PartialEq, Eq, Structural)]
pub enum ReconcileErrorKind {
    /// The registry does not know the package.
    NotFound,
    /// The package has no stable release.
    NoStableVersion,
    /// A strict-only comparison was asked of a record without a pinned
    /// version.
    NotSpecificEnough,
    /// A version text of the registry is not a version (or a requirement).
    MalformedRegistryVersion,
    /// A pre-release text could not be evaluated against a clause.
    Unmatchable,
}

/// A record that could not be held against the registry, with its name.
#[derive(Debug)]
pub struct ReconcileError {
    pub name: String,
    pub kind: ReconcileErrorKind,
}

impl Policy {
    /// The policy that the command-line flags select: strict-only wins over
    /// strict, and neither gives range matching.
    pub fn from_flags(strict: bool, only_strict: bool) -> (r: Policy)
        ensures
            only_strict ==> r == Policy::StrictOnlyWherePinned,
            !only_strict && strict ==> r == Policy::Strict,
            !only_strict && !strict ==> r == Policy::RangeMatch,
    {
        if only_strict {
            Policy::StrictOnlyWherePinned
        } else if strict {
            Policy::Strict
        } else {
            Policy::RangeMatch
        }
    }
}

/// The index of the first package at or after `i` named `name`.
pub open spec fn package_index_from(reg: Seq<RegistryPackage>, name: Seq<char>, i: int) -> Option<int>
    decreases reg.len() - i,
{
    if i < 0 || i >= reg.len() {
        None
    } else if reg[i].name@ == name {
        Some(i)
    } else {
        package_index_from(reg, name, i + 1)
    }
}

/// The index of the first package of the registry named `name`.
pub open spec fn package_index(reg: Seq<RegistryPackage>, name: Seq<char>) -> Option<int> {
    package_index_from(reg, name, 0)
}

proof fn lemma_package_index_from_bounds(reg: Seq<RegistryPackage>, name: Seq<char>, i: int)
    ensures
        package_index_from(reg, name, i) matches Some(j) ==> 0 <= i <= j < reg.len() && reg[j].name@ == name,
    decreases reg.len() - i,
{
    if 0 <= i < reg.len() && reg[i].name@ != name {
        lemma_package_index_from_bounds(reg, name, i + 1);
    }
}

/// The latest stable version of a package.
pub open spec fn latest_of(p: RegistryPackage) -> Result<VersionModel, ReconcileErrorKind> {
    match p.latest_stable {
        None => Err(ReconcileErrorKind::NoStableVersion),
        Some(text) => match parsed_version(text@) {
            None => Err(ReconcileErrorKind::MalformedRegistryVersion),
            Some(v) => Ok(v),
        },
    }
}

/// Whether a requirement admits the latest stable version of a package.
pub open spec fn range_fresh(req: RequirementModel, p: RegistryPackage) -> Result<bool, ReconcileErrorKind> {
    match latest_of(p) {
        Err(k) => Err(k),
        Ok(latest) => match requirement_verdict(req.clauses, latest) {
            None => Err(ReconcileErrorKind::Unmatchable),
            Some(b) => Ok(b),
        },
    }
}

/// Whether a version is the latest stable version of a package.
pub open spec fn strict_fresh(v: VersionModel, p: RegistryPackage) -> Result<bool, ReconcileErrorKind> {
    match latest_of(p) {
        Err(k) => Err(k),
        Ok(latest) => Ok(same_version(v, latest)),
    }
}

/// Whether a record is fresh against a package under a policy.
pub open spec fn fresh_under(m: DependencyModel, policy: Policy, p: RegistryPackage) -> Result<bool, ReconcileErrorKind> {
    match policy {
        Policy::RangeMatch => range_fresh(m.requirement, p),
        Policy::Strict => match m.pinned {
            Some(v) => strict_fresh(v, p),
            None => range_fresh(m.requirement, p),
        },
        Policy::StrictOnlyWherePinned => match m.pinned {
            Some(v) => strict_fresh(v, p),
            None => Err(ReconcileErrorKind::NotSpecificEnough),
        },
    }
}

/// The verdict on one record: `None` when it is fresh, the latest stable
/// version when it is stale, or why it cannot be decided.
pub open spec fn record_verdict(m: DependencyModel, policy: Policy, reg: Seq<RegistryPackage>) -> Result<Option<VersionModel>, ReconcileErrorKind> {
    match package_index(reg, m.name) {
        None => Err(ReconcileErrorKind::NotFound),
        Some(i) => match fresh_under(m, policy, reg[i]) {
            Err(k) => Err(k),
            Ok(true) => Ok(None),
            Ok(false) => Ok(Some(latest_of(reg[i])->Ok_0)),
        },
    }
}

/// The stale records among `ds`, in order, each with the latest stable
/// version.
pub open spec fn stale_of(ds: Seq<Dependency>, policy: Policy, reg: Seq<RegistryPackage>) -> Seq<(DependencyModel, VersionModel)>
    decreases ds.len(),
{
    if ds.len() == 0 {
        Seq::empty()
    } else {
        let before = stale_of(ds.drop_last(), policy, reg);
        match record_verdict(ds.last()@, policy, reg) {
            Ok(Some(v)) => before.push((ds.last()@, v)),
            _ => before,
        }
    }
}

/// Every record of `ds` can be decided.
pub open spec fn all_decided(ds: Seq<Dependency>, policy: Policy, reg: Seq<RegistryPackage>) -> bool {
    forall|i: int| 0 <= i < ds.len() ==> (#[trigger] record_verdict(ds[i]@, policy, reg)) is Ok
}

/// The index of the first package of the registry named `name`.
pub fn find_package(registry: &Vec<RegistryPackage>, name: &String) -> (r: Option<usize>)
    ensures
        r matches Some(i) ==> package_index(registry@, name@) == Some(i as int),
        r is None ==> package_index(registry@, name@) is None,
{
    let n = registry.len();
    let mut i: usize = 0;
    while i < n
        invariant
            n == registry@.len(),
            i <= n,
            package_index(registry@, name@) == package_index_from(registry@, name@, i as int),
        decreases n - i,
    {
        if registry[i].name == *name {
            return Some(i);
        }
        i = i + 1;
    }
    None
}

/// The latest stable version of a package.
pub fn get_crate_latest_version(crte: &RegistryPackage) -> (r: Result<ConcreteVersion, ReconcileError>)
    ensures
        match latest_of(*crte) {
            Ok(v) => r matches Ok(x) && x@ == v,
            Err(k) => r matches Err(e) && e.kind == k && e.name@ == crte.name@,
        },
        r matches Ok(v) ==> pre_ok(v@.pre),
        r matches Err(e) ==> e.kind != ReconcileErrorKind::Unmatchable,
{
    match &crte.latest_stable {
        None => Err(ReconcileError { name: crte.name.clone(), kind: ReconcileErrorKind::NoStableVersion }),
        Some(text) => match ConcreteVersion::parse(text.as_str()) {
            Ok(v) => Ok(v),
            Err(_) => Err(
                ReconcileError {
                    name: crte.name.clone(),
                    kind: ReconcileErrorKind::MalformedRegistryVersion,
                },
            ),
        },
    }
}

/// Whether a requirement admits the latest stable version of a package.
pub fn compare_crate_version(current_version: &VersionRequirement, crte: &RegistryPackage) -> (r: Result<bool, ReconcileError>)
    ensures
        match range_fresh(current_version@, *crte) {
            Ok(b) => r == Ok::<bool, ReconcileError>(b),
            Err(k) => r matches Err(e) && e.kind == k && e.name@ == crte.name@,
        },
        r matches Err(e) ==> (clauses_evaluable(current_version@.clauses) ==> e.kind
            != ReconcileErrorKind::Unmatchable),
{
    let latest = get_crate_latest_version(crte)?;
    match current_version.matches(&latest) {
        Some(b) => Ok(b),
        None => Err(ReconcileError { name: crte.name.clone(), kind: ReconcileErrorKind::Unmatchable }),
    }
}

/// Whether a version is the latest stable version of a package.
pub fn compare_crate_version_strict(current_version: &ConcreteVersion, crte: &RegistryPackage) -> (r: Result<bool, ReconcileError>)
    ensures
        match strict_fresh(current_version@, *crte) {
            Ok(b) => r == Ok::<bool, ReconcileError>(b),
            Err(k) => r matches Err(e) && e.kind == k && e.name@ == crte.name@,
        },
        r matches Err(e) ==> e.kind != ReconcileErrorKind::Unmatchable,
{
    let latest = get_crate_latest_version(crte)?;
    Ok(current_version.same_as(&latest))
}

/// The verdict on one record (see [`record_verdict`]).
pub fn check_dependency(dependency: &Dependency, policy: Policy, registry: &Vec<RegistryPackage>) -> (r: Result<Option<ConcreteVersion>, ReconcileError>)
    requires
        dependency.wf(),
    ensures
        match record_verdict(dependency@, policy, registry@) {
            Ok(None) => r matches Ok(None),
            Ok(Some(v)) => r matches Ok(Some(x)) && x@ == v,
            Err(k) => r matches Err(e) && e.kind == k && e.name@ == dependency@.name,
        },
        r matches Err(e) ==> e.kind != ReconcileErrorKind::Unmatchable,
{
    let name = dependency.name();
    let i = match find_package(registry, name) {
        Some(i) => i,
        None => {
            return Err(ReconcileError { name: name.clone(), kind: ReconcileErrorKind::NotFound });
        },
    };
    proof {
        lemma_package_index_from_bounds(registry@, name@, 0);
    }
    let crte = &registry[i];
    let compared = match (policy, dependency.version()) {
        (Policy::RangeMatch, _) | (Policy::Strict, None) => compare_crate_version(
            dependency.version_req(),
            crte,
        ),
        (_, Some(version)) => compare_crate_version_strict(version, crte),
        (Policy::StrictOnlyWherePinned, None) => {
            return Err(
                ReconcileError { name: name.clone(), kind: ReconcileErrorKind::NotSpecificEnough },
            );
        },
    };
    match compared {
        Ok(true) => Ok(None),
        Ok(false) => match get_crate_latest_version(crte) {
            Ok(latest) => Ok(Some(latest)),
            Err(e) => Err(ReconcileError { name: name.clone(), kind: e.kind }),
        },
        Err(e) => Err(ReconcileError { name: name.clone(), kind: e.kind }),
    }
}

/// A record without a pinned version cannot be compared strictly: under
/// `StrictOnlyWherePinned` it is an error, while under `Strict` it gets the
/// verdict that `RangeMatch` gives it.
pub proof fn lemma_unpinned_under_strict(m: DependencyModel, registry: Seq<RegistryPackage>)
    requires
        m.pinned is None,
    ensures
        record_verdict(m, Policy::StrictOnlyWherePinned, registry) is Err,
        package_index(registry, m.name) is Some ==> record_verdict(
            m,
            Policy::StrictOnlyWherePinned,
            registry,
        ) == Err::<Option<VersionModel>, ReconcileErrorKind>(ReconcileErrorKind::NotSpecificEnough),
        record_verdict(m, Policy::Strict, registry) == record_verdict(m, Policy::RangeMatch, registry),
{
}

/// On a record with a pinned version the two strict policies agree: the
/// record is stale exactly when its pinned version differs from the latest
/// stable version of its package.
pub proof fn lemma_pinned_under_strict(m: DependencyModel, registry: Seq<RegistryPackage>)
    requires
        m.pinned is Some,
    ensures
        record_verdict(m, Policy::Strict, registry) == record_verdict(
            m,
            Policy::StrictOnlyWherePinned,
            registry,
        ),
        package_index(registry, m.name) matches Some(i) ==> match latest_of(registry[i]) {
            Ok(latest) => record_verdict(m, Policy::Strict, registry) == if same_version(
                m.pinned->Some_0,
                latest,
            ) {
                Ok::<Option<VersionModel>, ReconcileErrorKind>(None)
            } else {
                Ok::<Option<VersionModel>, ReconcileErrorKind>(Some(latest))
            },
            Err(k) => record_verdict(m, Policy::Strict, registry) == Err::<
                Option<VersionModel>,
                ReconcileErrorKind,
            >(k),
        },
{
}

/// The stale records, in input order, each with the latest stable version
/// of its package. The first record that cannot be decided fails the whole
/// batch.
pub fn out_of_date_dependencies(policy: Policy, registry: &Vec<RegistryPackage>, dependencies: Vec<Dependency>) -> (r: Result<Vec<(Dependency, ConcreteVersion)>, ReconcileError>)
    requires
        forall|i: int| 0 <= i < dependencies@.len() ==> (#[trigger] dependencies@[i]).wf(),
    ensures
        r is Ok <==> all_decided(dependencies@, policy, registry@),
        r matches Ok(out) ==> out@.map_values(|p: (Dependency, ConcreteVersion)| (p.0@, p.1@))
            == stale_of(dependencies@, policy, registry@),
        r matches Err(e) ==> exists|k: int|
            0 <= k < dependencies@.len() && all_decided(dependencies@.subrange(0, k), policy, registry@)
                && #[trigger] record_verdict(dependencies@[k]@, policy, registry@) == Err::<
                Option<VersionModel>,
                ReconcileErrorKind,
            >(e.kind) && e.name@ == dependencies@[k]@.name,
        r matches Err(e) ==> e.kind != ReconcileErrorKind::Unmatchable,
{
    let ghost ds = dependencies@;
    let n = dependencies.len();
    let mut rest = dependencies;
    let mut out: Vec<(Dependency, ConcreteVersion)> = Vec::new();
    let mut i: usize = 0;
    while i < n
        invariant
            n == ds.len(),
            ds == dependencies@,
            i <= n,
            rest@ == ds.subrange(i as int, n as int),
            forall|j: int| 0 <= j < n ==> (#[trigger] ds[j]).wf(),
            all_decided(ds.subrange(0, i as int), policy, registry@),
            out@.map_values(|p: (Dependency, ConcreteVersion)| (p.0@, p.1@)) == stale_of(
                ds.subrange(0, i as int),
                policy,
                registry@,
            ),
        decreases n - i,
    {
        let d = rest.remove(0);
        assert(ds[i as int] == d);
        let verdict = check_dependency(&d, policy, registry);
        let ghost prefix = ds.subrange(0, i as int + 1);
        assert(prefix.drop_last() =~= ds.subrange(0, i as int));
        assert(prefix.last() == d);
        match verdict {
            Ok(None) => {},
            Ok(Some(latest)) => {
                out.push((d, latest));
                assert(out@.map_values(|p: (Dependency, ConcreteVersion)| (p.0@, p.1@)) =~= stale_of(
                    prefix,
                    policy,
                    registry@,
                ));
            },
            Err(e) => {
                assert(!all_decided(ds, policy, registry@)) by {
                    assert(record_verdict(ds[i as int]@, policy, registry@) is Err);
                }
                return Err(e);
            },
        }
        assert forall|j: int| 0 <= j < i + 1 implies (#[trigger] record_verdict(
            prefix[j]@,
            policy,
            registry@,
        )) is Ok by {
            if j < i {
                assert(prefix[j] == ds.subrange(0, i as int)[j]);
            }
        }
        proof {
            assert(rest@ =~= ds.subrange(i as int + 1, n as int));
        }
        i = i + 1;
    }
    proof {
        assert(ds.subrange(0, n as int) =~= ds);
    }
    Ok(out)
}

/// The requirement that the latest stable version of a package gives, and
/// the version it pins: what a new dependency on the package starts from.
pub fn get_crate_latest_versions(crte: &RegistryPackage) -> (r: Result<(VersionRequirement, Option<ConcreteVersion>), ReconcileError>)
    ensures
        crte.latest_stable is None ==> (r matches Err(e) && e.kind
            == ReconcileErrorKind::NoStableVersion && e.name@ == crte.name@),
        crte.latest_stable matches Some(text) ==> match parsed_requirement(text@) {
            None => r matches Err(e) && e.kind == ReconcileErrorKind::MalformedRegistryVersion
                && e.name@ == crte.name@,
            Some(req) => r matches Ok((q, pin)) && q@ == req && (pin is Some <==> pin_of(req.clauses) is Some)
                && (pin is Some ==> pin->Some_0@ == pin_of(req.clauses)->Some_0),
        },
{
    match &crte.latest_stable {
        None => Err(ReconcileError { name: crte.name.clone(), kind: ReconcileErrorKind::NoStableVersion }),
        Some(text) => match get_versions_from_str(text.as_str()) {
            Ok(pair) => Ok(pair),
            Err(_) => Err(
                ReconcileError {
                    name: crte.name.clone(),
                    kind: ReconcileErrorKind::MalformedRegistryVersion,
                },
            ),
        },
    }
}

/// The requirement that the latest stable version of a package gives, if it
/// has one and its text is a requirement.
pub open spec fn latest_requirement(crte: RegistryPackage) -> Option<RequirementModel> {
    match crte.latest_stable {
        Some(text) => parsed_requirement(text@),
        None => None,
    }
}

/// A new dependency on a package, declared as a string: the canonical text
/// of the requirement that its latest stable version gives, without carets.
pub fn new_dependency(name: &str, crte: &RegistryPackage) -> (r: Result<Dependency, ReconcileError>)
    ensures
        crte.latest_stable is None ==> (r matches Err(e) && e.kind
            == ReconcileErrorKind::NoStableVersion && e.name@ == crte.name@),
        crte.latest_stable is Some && latest_requirement(*crte) is None ==> (r matches Err(e) && e.kind
            == ReconcileErrorKind::MalformedRegistryVersion && e.name@ == crte.name@),
        latest_requirement(*crte) matches Some(q) && parsed_requirement(
            q.display.filter(|ch: char| ch != '^'),
        ) is Some ==> r is Ok,
        r matches Ok(d) ==> {
            &&& d.wf()
            &&& d@.name == name@
            &&& latest_requirement(*crte) is Some
            &&& d@.payload is String
            &&& d@.payload->String_0@ == latest_requirement(*crte)->Some_0.display.filter(
                |ch: char| ch != '^',
            )
        },
{
    let (version_req, _) = get_crate_latest_versions(crte)?;
    let text = version_req_str(&version_req);
    match parse_dependency_value(name, TomlValue::Str(text)) {
        Ok(d) => {
            proof {
                assert(d@.payload matches RawToml::String(_));
            }
            Ok(d)
        },
        Err(_) => Err(
            ReconcileError { name: crte.name.clone(), kind: ReconcileErrorKind::MalformedRegistryVersion },
        ),
    }
}

/// Whether some version of `versions`, from index `i` on, satisfies the
/// requirement; an error for the first one met that is malformed or cannot
/// be evaluated before one satisfies it.
pub open spec fn has_version_from(req: RequirementModel, versions: Seq<String>, i: int) -> Result<bool, ReconcileErrorKind>
    decreases versions.len() - i,
{
    if i < 0 || i >= versions.len() {
        Ok(false)
    } else {
        match parsed_version(versions[i]@) {
            None => Err(ReconcileErrorKind::MalformedRegistryVersion),
            Some(v) => match requirement_verdict(req.clauses, v) {
                None => Err(ReconcileErrorKind::Unmatchable),
                Some(true) => Ok(true),
                Some(false) => has_version_from(req, versions, i + 1),
            },
        }
    }
}

/// Whether some version of the package satisfies the requirement, trying
/// them in the registry's order.
pub fn crate_has_version(version: &VersionRequirement, crte: &RegistryPackage) -> (r: Result<bool, ReconcileError>)
    ensures
        match has_version_from(version@, crte.versions@, 0) {
            Ok(b) => r == Ok::<bool, ReconcileError>(b),
            Err(k) => r matches Err(e) && e.kind == k && e.name@ == crte.name@,
        },
        r matches Err(e) ==> (clauses_evaluable(version@.clauses) ==> e.kind
            != ReconcileErrorKind::Unmatchable),
{
    let n = crte.versions.len();
    let mut i: usize = 0;
    while i < n
        invariant
            n == crte.versions@.len(),
            i <= n,
            has_version_from(version@, crte.versions@, 0) == has_version_from(version@, crte.versions@, i as int),
        decreases n - i,
    {
        let v = match ConcreteVersion::parse(crte.versions[i].as_str()) {
            Ok(v) => v,
            Err(_) => {
                return Err(
                    ReconcileError {
                        name: crte.name.clone(),
                        kind: ReconcileErrorKind::MalformedRegistryVersion,
                    },
                );
            },
        };
        match version.matches(&v) {
            Some(true) => {
                return Ok(true);
            },
            Some(false) => {},
            None => {
                return Err(ReconcileError { name: crte.name.clone(), kind: ReconcileErrorKind::Unmatchable });
            },
        }
        i = i + 1;
    }
    Ok(false)
}

} // verus!
