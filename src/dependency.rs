//! The dependency record: a name, the parsed requirement, the version it
//! pins, and the declaration as it was written.

use crate::manifest::{find_key, key_index, key_index_from, lemma_key_index_from_bounds, TomlValue};
use crate::version::{
    clauses_evaluable, get_versions_from_str, parsed_requirement, pin_of, ConcreteVersion, ParseError,
    RequirementModel, VersionModel, VersionRequirement,
};
use vstd::prelude::*;

verus! {

/// A declaration as it was written in the manifest.
#[derive(Debug)]
pub enum RawToml {
    /// A bare requirement string.
    String(String),
    /// A table: a `version` entry beside any other entries, in document
    /// order.
    Table(Vec<(String, TomlValue)>),
}

/// Why one entry of a dependency table could not be read.
#[derive(Debug, Clone, Copy, PartialEq, Eq, Structural)]
pub enum DecodeErrorKind {
    /// The value is neither a string nor a table.
    NotStringOrTable,
    /// The table has no `version` entry.
    MissingVersion,
    /// The table's `version` entry is not a string.
    VersionNotString,
    /// The requirement text is not a valid requirement.
    InvalidRequirement,
}

/// An entry of a dependency table that could not be read, with its name.
#[derive(Debug)]
pub struct DecodeError {
    pub name: String,
    pub kind: DecodeErrorKind,
}

/// The key under which a table declaration holds its requirement.
pub open spec fn version_key() -> Seq<char> {
    "version"@
}

/// The requirement text of a table: its `version` entry, when that is a
/// string.
pub open spec fn table_version_text(t: Seq<(String, TomlValue)>) -> Option<Seq<char>> {
    match key_index(t, version_key()) {
        Some(i) => match t[i].1 {
            TomlValue::Str(s) => Some(s@),
            _ => None,
        },
        None => None,
    }
}

/// The requirement text of a declaration.
pub open spec fn declared_text(raw: RawToml) -> Option<Seq<char>> {
    match raw {
        RawToml::String(s) => Some(s@),
        RawToml::Table(t) => table_version_text(t@),
    }
}

/// The manifest value that a declaration is written as.
pub open spec fn raw_value(raw: RawToml) -> TomlValue {
    match raw {
        RawToml::String(s) => TomlValue::Str(s),
        RawToml::Table(t) => TomlValue::Table(t),
    }
}

/// Why a manifest value does not decode as a declaration, if it does not.
pub open spec fn entry_error(v: TomlValue) -> Option<DecodeErrorKind> {
    match v {
        TomlValue::Str(s) => if parsed_requirement(s@) is Some {
            None
        } else {
            Some(DecodeErrorKind::InvalidRequirement)
        },
        TomlValue::Table(t) => match key_index(t@, version_key()) {
            None => Some(DecodeErrorKind::MissingVersion),
            Some(i) => match t@[i].1 {
                TomlValue::Str(s) => if parsed_requirement(s@) is Some {
                    None
                } else {
                    Some(DecodeErrorKind::InvalidRequirement)
                },
                _ => Some(DecodeErrorKind::VersionNotString),
            },
        },
        TomlValue::Other(_) => Some(DecodeErrorKind::NotStringOrTable),
    }
}

/// Mathematical value of a [`Dependency`].
pub struct DependencyModel {
    pub name: Seq<char>,
    pub requirement: RequirementModel,
    pub pinned: Option<VersionModel>,
    pub payload: RawToml,
}

/// The requirement is what the declaration's text parses to, its clauses
/// can all be evaluated, and the pinned version is the one it pins.
pub open spec fn consistent(m: DependencyModel) -> bool {
    &&& declared_text(m.payload) is Some
    &&& parsed_requirement(declared_text(m.payload)->Some_0) == Some(m.requirement)
    &&& clauses_evaluable(m.requirement.clauses)
    &&& m.pinned == pin_of(m.requirement.clauses)
}

/// The record that a manifest entry `name = v` decodes to.
pub open spec fn decodes_to(name: Seq<char>, v: TomlValue, m: DependencyModel) -> bool {
    &&& m.name == name
    &&& raw_value(m.payload) == v
    &&& consistent(m)
}

/// The mathematical value of an optional version.
pub open spec fn opt_version_view(v: Option<ConcreteVersion>) -> Option<VersionModel> {
    match v {
        Some(x) => Some(x@),
        None => None,
    }
}

/// `after` is `before` with its requirement text replaced by `text`: a
/// string becomes `text`; a table gets `text` as its `version` entry, in the
/// same place, with every other entry untouched.
pub open spec fn updated_payload(before: RawToml, after: RawToml, text: Seq<char>) -> bool {
    match before {
        RawToml::String(_) => after is String && after->String_0@ == text,
        RawToml::Table(t) => after is Table && {
            let u = after->Table_0@;
            let i = key_index(t@, version_key())->Some_0;
            &&& u.len() == t@.len()
            &&& u[i].0 == t@[i].0
            &&& u[i].1 is Str
            &&& u[i].1->Str_0@ == text
            &&& forall|j: int| 0 <= j < u.len() && j != i ==> u[j] == t@[j]
        },
    }
}

/// One dependency of a manifest. Its requirement and pinned version are
/// always those of its declaration's text: they change together, through
/// [`transform_dependency_version`] only.
#[derive(Debug)]
pub struct Dependency {
    name: String,
    version_req: VersionRequirement,
    version: Option<ConcreteVersion>,
    raw_toml_value: RawToml,
}

impl View for Dependency {
    type V = DependencyModel;

    closed spec fn view(&self) -> DependencyModel {
        DependencyModel {
            name: self.name@,
            requirement: self.version_req@,
            pinned: opt_version_view(self.version),
            payload: self.raw_toml_value,
        }
    }
}

impl Dependency {
    pub open spec fn wf(&self) -> bool {
        consistent(self@)
    }

    pub fn name(&self) -> (r: &String)
        ensures
            r@ == self@.name,
    {
        &self.name
    }

    pub fn version_req(&self) -> (r: &VersionRequirement)
        ensures
            r@ == self@.requirement,
    {
        &self.version_req
    }

    pub fn version(&self) -> (r: &Option<ConcreteVersion>)
        ensures
            opt_version_view(*r) == self@.pinned,
    {
        &self.version
    }

    pub fn raw_toml_value(&self) -> (r: &RawToml)
        ensures
            *r == self@.payload,
    {
        &self.raw_toml_value
    }

    /// The manifest entry that the record is written as: its name, and its
    /// declaration as it stands.
    pub fn into_entry(self) -> (r: (String, TomlValue))
        ensures
            r.0@ == self@.name,
            r.1 == raw_value(self@.payload),
    {
        let value = match self.raw_toml_value {
            RawToml::String(s) => TomlValue::Str(s),
            RawToml::Table(t) => TomlValue::Table(t),
        };
        (self.name, value)
    }
}

/// Decodes the manifest entry `name = value` into a record.
pub fn parse_dependency_value(name: &str, value: TomlValue) -> (r: Result<Dependency, DecodeError>)
    ensures
        r is Ok <==> entry_error(value) is None,
        r matches Ok(d) ==> decodes_to(name@, value, d@) && d.wf(),
        r matches Err(e) ==> e.name@ == name@ && entry_error(value) == Some(e.kind),
{
    match value {
        TomlValue::Str(s) => {
            match get_versions_from_str(s.as_str()) {
                Ok((version_req, version)) => Ok(
                    Dependency {
                        name: name.to_owned(),
                        version_req,
                        version,
                        raw_toml_value: RawToml::String(s),
                    },
                ),
                Err(_) => Err(
                    DecodeError { name: name.to_owned(), kind: DecodeErrorKind::InvalidRequirement },
                ),
            }
        },
        TomlValue::Table(t) => {
            let parsed = match find_key(&t, "version") {
                None => Err(DecodeErrorKind::MissingVersion),
                Some(i) => {
                    proof {
                        lemma_key_index_from_bounds(t@, version_key(), 0);
                    }
                    match &t[i].1 {
                        TomlValue::Str(s) => match get_versions_from_str(s.as_str()) {
                            Ok(pair) => Ok(pair),
                            Err(_) => Err(DecodeErrorKind::InvalidRequirement),
                        },
                        _ => Err(DecodeErrorKind::VersionNotString),
                    }
                },
            };
            match parsed {
                Ok((version_req, version)) => Ok(
                    Dependency {
                        name: name.to_owned(),
                        version_req,
                        version,
                        raw_toml_value: RawToml::Table(t),
                    },
                ),
                Err(kind) => Err(DecodeError { name: name.to_owned(), kind }),
            }
        },
        TomlValue::Other(_) => Err(
            DecodeError { name: name.to_owned(), kind: DecodeErrorKind::NotStringOrTable },
        ),
    }
}

proof fn lemma_key_index_same_keys(
    t: Seq<(String, TomlValue)>,
    u: Seq<(String, TomlValue)>,
    key: Seq<char>,
    i: int,
)
    requires
        t.len() == u.len(),
        forall|j: int| 0 <= j < t.len() ==> t[j].0 == u[j].0,
    ensures
        key_index_from(t, key, i) == key_index_from(u, key, i),
    decreases t.len() - i,
{
    if 0 <= i < t.len() {
        lemma_key_index_same_keys(t, u, key, i + 1);
    }
}

/// Gives a record a new requirement text. The requirement, the pinned
/// version and the declaration change together; on a text that is not a
/// requirement nothing changes.
pub fn transform_dependency_version(ver_str: &str, dependency: &mut Dependency) -> (r: Result<(), ParseError>)
    requires
        old(dependency).wf(),
    ensures
        r is Ok <==> parsed_requirement(ver_str@) is Some,
        r matches Err(e) ==> e.text@ == ver_str@ && final(dependency)@ == old(dependency)@,
        r is Ok ==> {
            &&& final(dependency).wf()
            &&& final(dependency)@.name == old(dependency)@.name
            &&& final(dependency)@.requirement == parsed_requirement(ver_str@)->Some_0
            &&& final(dependency)@.pinned == pin_of(final(dependency)@.requirement.clauses)
            &&& updated_payload(old(dependency)@.payload, final(dependency)@.payload, ver_str@)
        },
{
    let (version_req, version) = match get_versions_from_str(ver_str) {
        Ok(pair) => pair,
        Err(e) => {
            return Err(e);
        },
    };
    let ghost before = dependency.raw_toml_value;
    match &mut dependency.raw_toml_value {
        RawToml::String(s) => {
            *s = ver_str.to_owned();
        },
        RawToml::Table(t) => {
            match find_key(t, "version") {
                Some(i) => {
                    proof {
                        lemma_key_index_from_bounds(t@, version_key(), 0);
                    }
                    let key = t[i].0.clone();
                    t.set(i, (key, TomlValue::Str(ver_str.to_owned())));
                },
                None => {},
            }
        },
    }
    proof {
        if let RawToml::Table(t) = before {
            let u = dependency.raw_toml_value->Table_0@;
            assert forall|j: int| 0 <= j < t@.len() implies t@[j].0 == u[j].0 by {}
            lemma_key_index_same_keys(t@, u, version_key(), 0);
        }
    }
    dependency.version_req = version_req;
    dependency.version = version;
    Ok(())
}

} // verus!
