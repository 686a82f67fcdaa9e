//! Copies that keep the mathematical value.

use vstd::prelude::*;

verus! {

/// A value that can be copied without changing what it stands for.
pub trait Duplicate: DeepView + Sized {
    /// A second value that stands for the same thing.
    fn duplicate(&self) -> (r: Self)
        ensures
            r.deep_view() == self.deep_view(),
    ;
}

impl Duplicate for String {
    fn duplicate(&self) -> Self {
        self.clone()
    }
}

impl Duplicate for bool {
    fn duplicate(&self) -> Self {
        *self
    }
}

impl Duplicate for u8 {
    fn duplicate(&self) -> Self {
        *self
    }
}

impl Duplicate for u16 {
    fn duplicate(&self) -> Self {
        *self
    }
}

impl Duplicate for u32 {
    fn duplicate(&self) -> Self {
        *self
    }
}

impl Duplicate for u64 {
    fn duplicate(&self) -> Self {
        *self
    }
}

impl Duplicate for usize {
    fn duplicate(&self) -> Self {
        *self
    }
}

impl Duplicate for i64 {
    fn duplicate(&self) -> Self {
        *self
    }
}

impl<A: Duplicate, B: Duplicate> Duplicate for (A, B) {
    fn duplicate(&self) -> Self {
        (self.0.duplicate(), self.1.duplicate())
    }
}

impl<T: Duplicate> Duplicate for Option<T> {
    fn duplicate(&self) -> Self {
        match self {
            Some(t) => Some(t.duplicate()),
            None => None,
        }
    }
}

impl<T: Duplicate> Duplicate for Box<T> {
    fn duplicate(&self) -> Self {
        Box::new((**self).duplicate())
    }
}

impl<T: Duplicate> Duplicate for Vec<T> {
    fn duplicate(&self) -> Self {
        let mut out: Vec<T> = Vec::new();
        let mut i: usize = 0;
        while i < self.len()
            invariant
                i <= self.len(),
                out@.len() == i,
                forall|j: int| 0 <= j < i ==> out@[j].deep_view() == self@[j].deep_view(),
            decreases self.len() - i,
        {
            out.push(self[i].duplicate());
            i += 1;
        }
        assert(out.deep_view() =~= self.deep_view());
        out
    }
}

} // verus!
