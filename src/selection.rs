//! Picking records out of a manifest's list by name.

use crate::dependency::Dependency;
use vstd::prelude::*;

verus! {

/// Some text of `names` is `name`.
pub open spec fn named(names: Seq<String>, name: Seq<char>) -> bool {
    exists|i: int| 0 <= i < names.len() && (#[trigger] names[i])@ == name
}

/// Some record of `ds` is named `name`.
pub open spec fn known(ds: Seq<Dependency>, name: Seq<char>) -> bool {
    exists|i: int| 0 <= i < ds.len() && (#[trigger] ds[i])@.name == name
}

/// The records of `ds` whose names are among `names`, in order.
pub open spec fn selected(ds: Seq<Dependency>, names: Seq<String>) -> Seq<Dependency> {
    ds.filter(|d: Dependency| named(names, d@.name))
}

/// The texts of `names` that name no record of `ds`, in order.
pub open spec fn unknown_names(ds: Seq<Dependency>, names: Seq<String>) -> Seq<Seq<char>> {
    names.map_values(|n: String| n@).filter(|n: Seq<char>| !known(ds, n))
}

/// The records of `ds` not named `name`, in order.
pub open spec fn without(ds: Seq<Dependency>, name: Seq<char>) -> Seq<Dependency> {
    ds.filter(|d: Dependency| d@.name != name)
}

/// Whether some text of `names` is `name`.
pub fn is_named(names: &Vec<String>, name: &String) -> (r: bool)
    ensures
        r == named(names@, name@),
{
    let n = names.len();
    let mut i: usize = 0;
    while i < n
        invariant
            n == names@.len(),
            i <= n,
            forall|j: int| 0 <= j < i ==> (#[trigger] names@[j])@ != name@,
        decreases n - i,
    {
        if names[i] == *name {
            return true;
        }
        i = i + 1;
    }
    false
}

/// Whether some record of `dependencies` is named `name`.
pub fn is_known(dependencies: &Vec<Dependency>, name: &String) -> (r: bool)
    ensures
        r == known(dependencies@, name@),
{
    let n = dependencies.len();
    let mut i: usize = 0;
    while i < n
        invariant
            n == dependencies@.len(),
            i <= n,
            forall|j: int| 0 <= j < i ==> (#[trigger] dependencies@[j])@.name != name@,
        decreases n - i,
    {
        if *dependencies[i].name() == *name {
            return true;
        }
        i = i + 1;
    }
    false
}

/// The records to check for the given names: all of them when no name is
/// given; otherwise those named, in order, unless that leaves fewer records
/// than names, and then the names that no record has.
pub fn select_dependencies(dependencies: Vec<Dependency>, names: &Vec<String>) -> (r: Result<Vec<Dependency>, Vec<String>>)
    ensures
        names@.len() == 0 ==> (r matches Ok(v) && v@ == dependencies@),
        names@.len() > 0 && selected(dependencies@, names@).len() == names@.len() ==> (r matches Ok(v)
            && v@ == selected(dependencies@, names@)),
        names@.len() > 0 && selected(dependencies@, names@).len() != names@.len() ==> (r matches Err(u)
            && u@.map_values(|n: String| n@) == unknown_names(dependencies@, names@)),
{
    if names.len() == 0 {
        return Ok(dependencies);
    }
    let ghost ds = dependencies@;
    let ghost texts = names@.map_values(|n: String| n@);
    let mut unknown: Vec<String> = Vec::new();
    let m = names.len();
    let mut j: usize = 0;
    while j < m
        invariant
            m == names@.len(),
            j <= m,
            ds == dependencies@,
            texts == names@.map_values(|n: String| n@),
            unknown@.map_values(|n: String| n@) == texts.subrange(0, j as int).filter(
                |n: Seq<char>| !known(ds, n),
            ),
        decreases m - j,
    {
        let ghost before = unknown@.map_values(|n: String| n@);
        assert(texts.subrange(0, j as int + 1).drop_last() =~= texts.subrange(0, j as int));
        reveal(Seq::filter);
        if !is_known(&dependencies, &names[j]) {
            unknown.push(names[j].clone());
            assert(unknown@.map_values(|n: String| n@) =~= before.push(names@[j as int]@));
        }
        j = j + 1;
    }
    assert(texts.subrange(0, m as int) =~= texts);
    let n = dependencies.len();
    let mut rest = dependencies;
    let mut kept: Vec<Dependency> = Vec::new();
    let mut i: usize = 0;
    while i < n
        invariant
            n == ds.len(),
            i <= n,
            rest@ == ds.subrange(i as int, n as int),
            kept@ == ds.subrange(0, i as int).filter(|d: Dependency| named(names@, d@.name)),
        decreases n - i,
    {
        let d = rest.remove(0);
        assert(ds[i as int] == d);
        assert(ds.subrange(0, i as int + 1).drop_last() =~= ds.subrange(0, i as int));
        reveal(Seq::filter);
        if is_named(names, d.name()) {
            kept.push(d);
        }
        assert(rest@ =~= ds.subrange(i as int + 1, n as int));
        i = i + 1;
    }
    assert(ds.subrange(0, n as int) =~= ds);
    if kept.len() != names.len() {
        Err(unknown)
    } else {
        Ok(kept)
    }
}

/// The records without those named `name`; `None` when no record has that
/// name.
pub fn remove_dependency(dependencies: Vec<Dependency>, name: &String) -> (r: Option<Vec<Dependency>>)
    ensures
        r is Some <==> known(dependencies@, name@),
        r matches Some(v) ==> v@ == without(dependencies@, name@),
{
    let ghost ds = dependencies@;
    let n = dependencies.len();
    let mut rest = dependencies;
    let mut kept: Vec<Dependency> = Vec::new();
    let mut found = false;
    let mut i: usize = 0;
    while i < n
        invariant
            n == ds.len(),
            i <= n,
            rest@ == ds.subrange(i as int, n as int),
            kept@ == ds.subrange(0, i as int).filter(|d: Dependency| d@.name != name@),
            found <==> exists|j: int| 0 <= j < i && (#[trigger] ds[j])@.name == name@,
        decreases n - i,
    {
        let d = rest.remove(0);
        assert(ds[i as int] == d);
        assert(ds.subrange(0, i as int + 1).drop_last() =~= ds.subrange(0, i as int));
        reveal(Seq::filter);
        if *d.name() == *name {
            found = true;
        } else {
            kept.push(d);
        }
        assert(rest@ =~= ds.subrange(i as int + 1, n as int));
        i = i + 1;
    }
    assert(ds.subrange(0, n as int) =~= ds);
    if found {
        Some(kept)
    } else {
        None
    }
}

} // verus!
