//! Values built on first use.
use vstd::prelude::*;

verus! {

/// A value that is built by the first `get` and kept for later ones.
pub struct Lazy<T> {
    value: Option<T>,
}

impl<T> Lazy<T> {
    /// The value, once built.
    pub closed spec fn value(&self) -> Option<T> {
        self.value
    }

    /// Nothing built yet.
    pub fn new() -> (r: Self)
        ensures
            r.value() is None,
    {
        Lazy { value: None }
    }

    /// The value, built by `builder` if this is the first call; later calls
    /// give the value built then and do not call their builder.
    pub fn get<F>(&mut self, builder: F) -> (r: &T)
        where
            F: FnOnce() -> T,
        requires
            old(self).value() is None ==> builder.requires(()),
        ensures
            old(self).value() is Some ==> final(self).value() == old(self).value() && *r == old(self).value()->Some_0,
            old(self).value() is None ==> builder.ensures((), *r) && final(self).value() == Some(*r),
    {
        if self.value.is_none() {
            self.value = Some(builder());
        }
        self.value.as_ref().unwrap()
    }
}

/// A value that can be built ahead of its first use.
pub trait LazyStatic {
    /// Builds `lazy`'s value if that has not been done yet.
    fn initialize(lazy: &Self);
}

/// Builds `lazy`'s value if that has not been done yet.
pub fn initialize<T: LazyStatic>(lazy: &T) {
    LazyStatic::initialize(lazy);
}

/// Two calls of `get` give the same value: the first builds it (or finds it
/// built) and the second finds what the first left.
pub proof fn lemma_get_twice<T>(v0: Option<T>, r1: T, v1: Option<T>, r2: T, v2: Option<T>)
    requires
        v0 is Some ==> v1 == v0 && r1 == v0->Some_0,
        v0 is None ==> v1 == Some(r1),
        v1 is Some ==> v2 == v1 && r2 == v1->Some_0,
    ensures
        r2 == r1,
        v2 == Some(r1),
{
}

/// One call of `get`, as its contract states it: `before` and `after` are
/// the value held before and after the call, `r` what the call returned.
pub open spec fn get_step<T>(before: Option<T>, r: T, after: Option<T>) -> bool {
    &&& before is Some ==> after == before && r == before->Some_0
    &&& before is None ==> after == Some(r)
}

/// Over any number of calls of `get` on a value that starts unbuilt, every
/// call returns what the first call built, and the value stays built.
pub proof fn lemma_get_run<T>(values: Seq<Option<T>>, results: Seq<T>)
    requires
        values.len() == results.len() + 1,
        values[0] is None,
        forall|i: int| 0 <= i < results.len() ==> #[trigger] get_step(values[i], results[i], values[i + 1]),
    ensures
        forall|i: int| 0 <= i < results.len() ==> #[trigger] results[i] == results[0],
        forall|i: int| 0 < i < values.len() ==> #[trigger] values[i] == Some(results[0]),
    decreases results.len(),
{
    if results.len() > 0 {
        let vs = values.drop_last();
        let rs = results.drop_last();
        assert forall|i: int| 0 <= i < rs.len() implies #[trigger] get_step(vs[i], rs[i], vs[i + 1]) by {
            assert(get_step(values[i], results[i], values[i + 1]));
        }
        lemma_get_run(vs, rs);
        let n = results.len() - 1;
        assert(get_step(values[n], results[n], values[n + 1]));
        if n > 0 {
            assert(vs[n] == values[n]);
            assert(rs[0] == results[0]);
        }
        assert forall|i: int| 0 <= i < results.len() implies #[trigger] results[i] == results[0] by {
            if i < n {
                assert(rs[i] == results[i]);
            }
        }
        assert forall|i: int| 0 < i < values.len() implies #[trigger] values[i] == Some(results[0]) by {
            if i <= n {
                assert(vs[i] == values[i]);
            }
        }
    }
}

} // verus!
