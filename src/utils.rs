//! Small helpers over sequences: joining texts, and taking the first item
//! that a predicate accepts.

use vstd::prelude::*;

verus! {

/// The texts, with `sep` between each two neighbours.
pub open spec fn joined(items: Seq<Seq<char>>, sep: Seq<char>) -> Seq<char>
    decreases items.len(),
{
    if items.len() == 0 {
        Seq::empty()
    } else if items.len() == 1 {
        items[0]
    } else {
        joined(items.drop_last(), sep) + sep + items.last()
    }
}

/// Joining a sequence of texts into one.
pub trait Join {
    /// The joined text, with `joiner` between each two neighbours.
    spec fn join_view(&self, joiner: Seq<char>) -> Seq<char>;

    fn join(&self, joiner: &str) -> (r: String)
        ensures
            r@ == self.join_view(joiner@),
    ;
}

impl Join for Vec<String> {
    open spec fn join_view(&self, joiner: Seq<char>) -> Seq<char> {
        joined(self@.map_values(|s: String| s@), joiner)
    }

    fn join(&self, joiner: &str) -> (r: String) {
        let ghost items = self@.map_values(|s: String| s@);
        let n = self.len();
        let mut result = String::new();
        let mut i: usize = 0;
        while i < n
            invariant
                n == self@.len(),
                items == self@.map_values(|s: String| s@),
                i <= n,
                result@ == joined(items.subrange(0, i as int), joiner@),
            decreases n - i,
        {
            let ghost prefix = items.subrange(0, i as int + 1);
            assert(prefix.drop_last() =~= items.subrange(0, i as int));
            if i == 0 {
                result = self[0].clone();
            } else {
                result.append(joiner);
                result.append(self[i].as_str());
            }
            i = i + 1;
        }
        assert(items.subrange(0, n as int) =~= items);
        result
    }
}

/// Taking the first item that a predicate accepts.
pub trait One<T>: Sized + View<V = Seq<T>> {
    /// The first item that `predicate` accepts, if any.
    fn one<F: Fn(&T) -> bool>(self, predicate: F) -> (r: Option<T>)
        requires
            forall|i: int| 0 <= i < self@.len() ==> predicate.requires((&self@[i],)),
        ensures
            r is None ==> forall|i: int|
                0 <= i < self@.len() ==> predicate.ensures((&self@[i],), false),
            r matches Some(x) ==> exists|i: int|
                0 <= i < self@.len() && x == self@[i] && predicate.ensures(
                    (&self@[i],),
                    true,
                ) && forall|j: int| 0 <= j < i ==> predicate.ensures((&self@[j],), false),
    ;
}

impl<T> One<T> for Vec<T> {
    fn one<F: Fn(&T) -> bool>(self, predicate: F) -> (r: Option<T>) {
        let n = self.len();
        let mut i: usize = 0;
        while i < n
            invariant
                n == self@.len(),
                i <= n,
                forall|i: int| 0 <= i < self@.len() ==> predicate.requires((&self@[i],)),
                forall|j: int| 0 <= j < i ==> predicate.ensures((&self@[j],), false),
            decreases n - i,
        {
            if predicate(&self[i]) {
                let ghost s = self@;
                let mut v = self;
                let x = v.remove(i);
                assert(x == s[i as int]);
                return Some(x);
            }
            i = i + 1;
        }
        None
    }
}

} // verus!
