//! A table from names to values.

use crate::duplicate::Duplicate;
use crate::text::same;
use vstd::prelude::*;

verus! {

/// A table from names to values, kept as a list of bindings in which a later
/// binding of a name replaces an earlier one.
#[derive(Debug, PartialEq, Eq)]
pub struct Table<T> {
    bindings: Vec<(String, T)>,
}

/// The map that a list of bindings stands for.
pub closed spec fn bound<T: DeepView>(bindings: Seq<(String, T)>) -> Map<Seq<char>, T::V>
    decreases bindings.len(),
{
    if bindings.len() == 0 {
        Map::empty()
    } else {
        bound(bindings.drop_last()).insert(bindings.last().0@, bindings.last().1.deep_view())
    }
}

impl<T: DeepView> DeepView for Table<T> {
    type V = Map<Seq<char>, T::V>;

    closed spec fn deep_view(&self) -> Map<Seq<char>, T::V> {
        bound(self.bindings@)
    }
}

impl<T: DeepView> Table<T> {
    /// A table without bindings.
    pub fn new() -> (r: Table<T>)
        ensures
            r.deep_view() == Map::<Seq<char>, T::V>::empty(),
    {
        Table { bindings: Vec::new() }
    }

    /// Binds `name` to `value`.
    pub fn insert(&mut self, name: String, value: T)
        ensures
            final(self).deep_view() == old(self).deep_view().insert(name@, value.deep_view()),
    {
        let ghost before = self.bindings@;
        self.bindings.push((name, value));
        assert(self.bindings@.drop_last() =~= before);
    }

    /// The value bound to `name`.
    pub fn get(&self, name: &str) -> (r: Option<&T>)
        ensures
            match r {
                Some(t) => self.deep_view().dom().contains(name@) && t.deep_view()
                    == self.deep_view()[name@],
                None => !self.deep_view().dom().contains(name@),
            },
    {
        let mut i: usize = self.bindings.len();
        assert(self.bindings@.take(i as int) =~= self.bindings@);
        while i > 0
            invariant
                i <= self.bindings.len(),
                self.deep_view().dom().contains(name@) == bound(
                    self.bindings@.take(i as int),
                ).dom().contains(name@),
                self.deep_view().dom().contains(name@) ==> self.deep_view()[name@] == bound(
                    self.bindings@.take(i as int),
                )[name@],
            decreases i,
        {
            i -= 1;
            assert(self.bindings@.take(i + 1).drop_last() =~= self.bindings@.take(i as int));
            assert(self.bindings@.take(i + 1).last() == self.bindings@[i as int]);
            if same(self.bindings[i].0.as_str(), name) {
                return Some(&self.bindings[i].1);
            }
        }
        None
    }

    /// Whether `name` is bound.
    pub fn contains_key(&self, name: &str) -> (r: bool)
        ensures
            r == self.deep_view().dom().contains(name@),
    {
        self.get(name).is_some()
    }
}

impl<T: Duplicate> Duplicate for Table<T> {
    fn duplicate(&self) -> Self {
        let mut out: Vec<(String, T)> = Vec::new();
        let mut i: usize = 0;
        while i < self.bindings.len()
            invariant
                i <= self.bindings.len(),
                out@.len() == i,
                bound(out@) == bound(self.bindings@.take(i as int)),
            decreases self.bindings.len() - i,
        {
            let ghost before = out@;
            out.push((self.bindings[i].0.clone(), self.bindings[i].1.duplicate()));
            i += 1;
            assert(out@.drop_last() =~= before);
            assert(self.bindings@.take(i as int).drop_last() =~= self.bindings@.take(i - 1));
        }
        assert(self.bindings@.take(i as int) =~= self.bindings@);
        Table { bindings: out }
    }
}

} // verus!
