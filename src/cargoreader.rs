//! Decoding a manifest's dependency table into records, and encoding
//! records back into it.

use crate::dependency::{
    decodes_to, entry_error, parse_dependency_value, raw_value, DecodeError, Dependency,
};
use crate::manifest::{
    find_key, has_unique_keys, key_index, lemma_key_index_from_bounds, unique_keys, TomlValue,
};
use vstd::prelude::*;

verus! {

/// Why a manifest's dependencies could not be read or written.
#[derive(Debug)]
pub enum ManifestError {
    /// The manifest has no `dependencies` entry.
    MissingDependencies,
    /// The `dependencies` entry is not a table.
    DependenciesNotTable,
    /// One entry of the dependency table is malformed.
    Entry(DecodeError),
}

/// Every entry of the table decodes.
pub open spec fn all_decode(t: Seq<(String, TomlValue)>) -> bool {
    forall|i: int| 0 <= i < t.len() ==> (#[trigger] entry_error(t[i].1)) is None
}

/// `records` is what the table decodes to, entry by entry, in order.
pub open spec fn decoded(t: Seq<(String, TomlValue)>, records: Seq<Dependency>) -> bool {
    &&& records.len() == t.len()
    &&& forall|i: int| 0 <= i < t.len() ==> decodes_to(t[i].0@, t[i].1, #[trigger] records[i]@)
    &&& forall|i: int| 0 <= i < t.len() ==> (#[trigger] records[i]).wf()
}

/// No two records have the same name.
pub open spec fn unique_names(records: Seq<Dependency>) -> bool {
    forall|i: int, j: int|
        0 <= i < j < records.len() ==> (#[trigger] records[i])@.name != (#[trigger] records[j])@.name
}

/// `e` reports the first entry of the table that does not decode.
pub open spec fn first_failure(t: Seq<(String, TomlValue)>, e: DecodeError) -> bool {
    exists|k: int|
        0 <= k < t.len() && all_decode(t.subrange(0, k)) && entry_error(#[trigger] t[k].1) == Some(e.kind)
            && e.name@ == t[k].0@
}

/// `out` is the table that the records are written as: one entry per record,
/// in order, keyed by its name, with its declaration as it stands.
pub open spec fn encoded(records: Seq<Dependency>, out: Seq<(String, TomlValue)>) -> bool {
    &&& out.len() == records.len()
    &&& forall|i: int|
        0 <= i < out.len() ==> (#[trigger] out[i]).0@ == records[i]@.name && out[i].1 == raw_value(
            records[i]@.payload,
        )
}

/// A table with its keys seen as text.
pub open spec fn table_view(t: Seq<(String, TomlValue)>) -> Seq<(Seq<char>, TomlValue)> {
    t.map_values(|e: (String, TomlValue)| (e.0@, e.1))
}

/// Decodes a dependency table, entry by entry; the first malformed entry
/// fails the whole table.
pub fn decode(table: Vec<(String, TomlValue)>) -> (r: Result<Vec<Dependency>, DecodeError>)
    requires
        unique_keys(table@),
    ensures
        r is Ok <==> all_decode(table@),
        r matches Ok(records) ==> decoded(table@, records@),
        r matches Ok(records) ==> unique_names(records@),
        r matches Err(e) ==> first_failure(table@, e),
{
    let ghost t = table@;
    let n = table.len();
    let mut rest = table;
    let mut records: Vec<Dependency> = Vec::new();
    let mut i: usize = 0;
    while i < n
        invariant
            n == t.len(),
            t == table@,
            i <= n,
            rest@ == t.subrange(i as int, n as int),
            all_decode(t.subrange(0, i as int)),
            decoded(t.subrange(0, i as int), records@),
        decreases n - i,
    {
        let (name, value) = rest.remove(0);
        assert(t[i as int] == (name, value));
        match parse_dependency_value(name.as_str(), value) {
            Ok(d) => {
                records.push(d);
                assert(t.subrange(0, i as int + 1).drop_last() =~= t.subrange(0, i as int));
                assert forall|j: int| 0 <= j < i + 1 implies (#[trigger] entry_error(
                    t.subrange(0, i as int + 1)[j].1,
                )) is None by {
                    if j < i {
                        assert(t.subrange(0, i as int + 1)[j] == t.subrange(0, i as int)[j]);
                    }
                }
                assert forall|j: int| 0 <= j < i + 1 implies decodes_to(
                    t.subrange(0, i as int + 1)[j].0@,
                    t.subrange(0, i as int + 1)[j].1,
                    #[trigger] records@[j]@,
                ) by {
                    if j < i {
                        assert(t.subrange(0, i as int + 1)[j] == t.subrange(0, i as int)[j]);
                    }
                }
            },
            Err(e) => {
                assert(first_failure(t, e)) by {
                    assert(entry_error(t[i as int].1) == Some(e.kind));
                }
                assert(!all_decode(t)) by {
                    assert(entry_error(t[i as int].1) is Some);
                }
                return Err(e);
            },
        }
        proof {
            assert(rest@ =~= t.subrange(i as int + 1, n as int));
        }
        i = i + 1;
    }
    proof {
        assert(t.subrange(0, n as int) =~= t);
        assert forall|a: int, b: int| 0 <= a < b < records@.len() implies (#[trigger] records@[a])@.name
            != (#[trigger] records@[b])@.name by {
            assert(decodes_to(t[a].0@, t[a].1, records@[a]@));
            assert(decodes_to(t[b].0@, t[b].1, records@[b]@));
        }
    }
    Ok(records)
}

/// Writes records as a dependency table, one entry per record, in order.
pub fn encode(records: Vec<Dependency>) -> (r: Vec<(String, TomlValue)>)
    ensures
        encoded(records@, r@),
{
    let ghost rs = records@;
    let n = records.len();
    let mut rest = records;
    let mut out: Vec<(String, TomlValue)> = Vec::new();
    let mut i: usize = 0;
    while i < n
        invariant
            n == rs.len(),
            rs == records@,
            i <= n,
            rest@ == rs.subrange(i as int, n as int),
            encoded(rs.subrange(0, i as int), out@),
        decreases n - i,
    {
        let d = rest.remove(0);
        assert(rs[i as int] == d);
        out.push(d.into_entry());
        assert forall|j: int| 0 <= j < i + 1 implies (#[trigger] out@[j]).0@ == rs.subrange(
            0,
            i as int + 1,
        )[j]@.name && out@[j].1 == raw_value(rs.subrange(0, i as int + 1)[j]@.payload) by {
            if j < i {
                assert(rs.subrange(0, i as int + 1)[j] == rs.subrange(0, i as int)[j]);
            }
        }
        proof {
            assert(rest@ =~= rs.subrange(i as int + 1, n as int));
        }
        i = i + 1;
    }
    proof {
        assert(rs.subrange(0, n as int) =~= rs);
    }
    out
}

/// Decoding a dependency table and encoding the records it gives back
/// yields the table itself: the same keys, in the same order, with the same
/// values.
pub proof fn lemma_round_trip(
    table: Seq<(String, TomlValue)>,
    records: Seq<Dependency>,
    out: Seq<(String, TomlValue)>,
)
    requires
        decoded(table, records),
        encoded(records, out),
    ensures
        table_view(out) == table_view(table),
{
    assert forall|i: int| 0 <= i < table.len() implies #[trigger] table_view(out)[i] == table_view(
        table,
    )[i] by {
        assert(decodes_to(table[i].0@, table[i].1, records[i]@));
        assert(out[i].0@ == records[i]@.name);
        match records[i]@.payload {
            crate::dependency::RawToml::String(_) => {},
            crate::dependency::RawToml::Table(_) => {},
        }
    }
    assert(table_view(out) =~= table_view(table));
}

/// The value of a manifest's `dependencies` entry, if it has one.
pub open spec fn dependencies_entry(doc: TomlValue) -> Option<TomlValue> {
    match doc {
        TomlValue::Table(t) => match key_index(t@, "dependencies"@) {
            Some(i) => Some(t@[i].1),
            None => None,
        },
        _ => None,
    }
}

/// The manifest's dependency table, if it has one, has no repeated key.
pub open spec fn dependencies_unique(doc: TomlValue) -> bool {
    dependencies_entry(doc) matches Some(TomlValue::Table(t)) ==> unique_keys(t@)
}

/// Whether the manifest's dependency table, if it has one, has no repeated
/// key.
pub fn has_unique_dependencies(file_value: &TomlValue) -> (r: bool)
    ensures
        r == dependencies_unique(*file_value),
{
    match file_value {
        TomlValue::Table(t) => match find_key(t, "dependencies") {
            Some(i) => {
                proof {
                    lemma_key_index_from_bounds(t@, "dependencies"@, 0);
                }
                match &t[i].1 {
                    TomlValue::Table(d) => has_unique_keys(d),
                    _ => true,
                }
            },
            None => true,
        },
        _ => true,
    }
}

/// `new_doc` is `doc` with its dependency table replaced by the table that
/// `records` are written as; every other entry stays as it was, in place.
pub open spec fn replaced_dependencies(doc: TomlValue, new_doc: TomlValue, records: Seq<Dependency>) -> bool {
    &&& doc is Table
    &&& new_doc is Table
    &&& {
        let t = doc->Table_0@;
        let u = new_doc->Table_0@;
        let i = key_index(t, "dependencies"@)->Some_0;
        &&& u.len() == t.len()
        &&& u[i].0 == t[i].0
        &&& u[i].1 is Table
        &&& encoded(records, u[i].1->Table_0@)
        &&& forall|j: int| 0 <= j < u.len() && j != i ==> u[j] == t[j]
    }
}

/// Reads the records of a manifest's dependency table.
pub fn parse_cargo_file(file_value: TomlValue) -> (r: Result<Vec<Dependency>, ManifestError>)
    requires
        dependencies_unique(file_value),
    ensures
        dependencies_entry(file_value) is None ==> r matches Err(ManifestError::MissingDependencies),
        dependencies_entry(file_value) matches Some(v) && !(v is Table) ==> r matches Err(
            ManifestError::DependenciesNotTable,
        ),
        dependencies_entry(file_value) matches Some(TomlValue::Table(t)) ==> {
            &&& (r is Ok <==> all_decode(t@))
            &&& (r matches Ok(records) ==> decoded(t@, records@) && unique_names(records@))
            &&& (r matches Err(e) ==> e matches ManifestError::Entry(de) && first_failure(t@, de))
        },
{
    match file_value {
        TomlValue::Table(t) => {
            let mut t = t;
            match find_key(&t, "dependencies") {
                None => Err(ManifestError::MissingDependencies),
                Some(i) => {
                    proof {
                        lemma_key_index_from_bounds(t@, "dependencies"@, 0);
                    }
                    let (_, value) = t.remove(i);
                    match value {
                        TomlValue::Table(table) => match decode(table) {
                            Ok(records) => Ok(records),
                            Err(e) => Err(ManifestError::Entry(e)),
                        },
                        _ => Err(ManifestError::DependenciesNotTable),
                    }
                },
            }
        },
        _ => Err(ManifestError::MissingDependencies),
    }
}

/// Replaces a manifest's dependency table by the table that `dependencies`
/// are written as, and gives back the manifest.
pub fn write_dependencies(file_value: TomlValue, dependencies: Vec<Dependency>) -> (r: Result<TomlValue, ManifestError>)
    ensures
        dependencies_entry(file_value) is None ==> r matches Err(ManifestError::MissingDependencies),
        dependencies_entry(file_value) matches Some(v) && !(v is Table) ==> r matches Err(
            ManifestError::DependenciesNotTable,
        ),
        dependencies_entry(file_value) matches Some(TomlValue::Table(_)) ==> r matches Ok(new_doc)
            && replaced_dependencies(file_value, new_doc, dependencies@),
{
    match file_value {
        TomlValue::Table(t) => {
            let mut t = t;
            match find_key(&t, "dependencies") {
                None => Err(ManifestError::MissingDependencies),
                Some(i) => {
                    proof {
                        lemma_key_index_from_bounds(t@, "dependencies"@, 0);
                    }
                    let is_table = match &t[i].1 {
                        TomlValue::Table(_) => true,
                        _ => false,
                    };
                    if is_table {
                        let key = t[i].0.clone();
                        let table = encode(dependencies);
                        t.set(i, (key, TomlValue::Table(table)));
                        Ok(TomlValue::Table(t))
                    } else {
                        Err(ManifestError::DependenciesNotTable)
                    }
                },
            }
        },
        _ => Err(ManifestError::MissingDependencies),
    }
}

} // verus!
