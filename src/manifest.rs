//! The structured tree of a manifest, as far as the library reads it: text
//! values, ordered tables, and leaves of any other kind carried unread.

use vstd::prelude::*;

verus! {

#[verifier::external_type_specification]
#[verifier::external_body]
pub struct ExTomlValue(toml::Value);

/// A value of the manifest tree. Tables keep their entries in document
/// order; leaves that the library never reads (numbers, booleans, arrays,
/// dates) stay as the parser's own values.
#[derive(Debug)]
pub enum TomlValue {
    Str(String),
    Table(Vec<(String, TomlValue)>),
    Other(toml::Value),
}

/// No two entries of the table have the same key.
pub open spec fn unique_keys(t: Seq<(String, TomlValue)>) -> bool {
    forall|i: int, j: int| 0 <= i < j < t.len() ==> (#[trigger] t[i]).0@ != (#[trigger] t[j]).0@
}

/// Whether no two entries of the table have the same key.
pub fn has_unique_keys(t: &Vec<(String, TomlValue)>) -> (r: bool)
    ensures
        r == unique_keys(t@),
{
    let n = t.len();
    let mut j: usize = 0;
    while j < n
        invariant
            n == t@.len(),
            j <= n,
            forall|a: int, b: int| 0 <= a < b < j ==> (#[trigger] t@[a]).0@ != (#[trigger] t@[b]).0@,
        decreases n - j,
    {
        let mut i: usize = 0;
        while i < j
            invariant
                n == t@.len(),
                i <= j < n,
                forall|a: int, b: int| 0 <= a < b < j ==> (#[trigger] t@[a]).0@ != (#[trigger] t@[b]).0@,
                forall|a: int| 0 <= a < i ==> (#[trigger] t@[a]).0@ != t@[j as int].0@,
            decreases j - i,
        {
            if t[i].0 == t[j].0 {
                assert(!unique_keys(t@)) by {
                    assert(t@[i as int].0@ == t@[j as int].0@);
                }
                return false;
            }
            i = i + 1;
        }
        j = j + 1;
    }
    true
}

/// The index of the first entry of `t` at or after `i` whose key is `key`.
pub open spec fn key_index_from(t: Seq<(String, TomlValue)>, key: Seq<char>, i: int) -> Option<int>
    decreases t.len() - i,
{
    if i < 0 || i >= t.len() {
        None
    } else if t[i].0@ == key {
        Some(i)
    } else {
        key_index_from(t, key, i + 1)
    }
}

/// The index of the first entry of `t` whose key is `key`.
pub open spec fn key_index(t: Seq<(String, TomlValue)>, key: Seq<char>) -> Option<int> {
    key_index_from(t, key, 0)
}

/// A found index lies in the searched range and holds the key.
pub proof fn lemma_key_index_from_bounds(t: Seq<(String, TomlValue)>, key: Seq<char>, i: int)
    ensures
        key_index_from(t, key, i) matches Some(j) ==> 0 <= i <= j < t.len() && t[j].0@ == key,
    decreases t.len() - i,
{
    if 0 <= i < t.len() && t[i].0@ != key {
        lemma_key_index_from_bounds(t, key, i + 1);
    }
}

/// The index of the first entry of `t` whose key is `key`.
pub fn find_key(t: &Vec<(String, TomlValue)>, key: &str) -> (r: Option<usize>)
    ensures
        r matches Some(i) ==> key_index(t@, key@) == Some(i as int),
        r is None ==> key_index(t@, key@) is None,
{
    let wanted = key.to_owned();
    let n = t.len();
    let mut i: usize = 0;
    while i < n
        invariant
            n == t@.len(),
            i <= n,
            wanted@ == key@,
            key_index(t@, key@) == key_index_from(t@, key@, i as int),
        decreases n - i,
    {
        if t[i].0 == wanted {
            return Some(i);
        }
        i = i + 1;
    }
    None
}

} // verus!
