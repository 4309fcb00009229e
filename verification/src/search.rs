//! Specifications shared by the containers: searching a sequence with the
//! element type's own `==`.
use vstd::prelude::*;
use vstd::std_specs::cmp::PartialEqSpec;

verus! {

/// `data` equals (by `T`'s `==`) some element of `s`.
pub open spec fn has_match<T: PartialEq>(s: Seq<T>, data: T) -> bool {
    exists|j: int| 0 <= j < s.len() && data.eq_spec(&#[trigger] s[j])
}

/// `p` is the first position of `s` whose element equals `data`.
pub open spec fn first_match_at<T: PartialEq>(s: Seq<T>, data: T, p: int) -> bool {
    &&& 0 <= p < s.len()
    &&& data.eq_spec(&s[p])
    &&& forall|j: int| 0 <= j < p ==> !data.eq_spec(&#[trigger] s[j])
}

/// The first position of `s` whose element equals `data`; meaningful when
/// `has_match(s, data)` holds.
pub open spec fn first_match<T: PartialEq>(s: Seq<T>, data: T) -> int {
    choose|p: int| first_match_at(s, data, p)
}

/// The first matching position is unique, so `first_match` picks it.
pub proof fn lemma_first_match_unique<T: PartialEq>(s: Seq<T>, data: T, p: int)
    requires
        first_match_at(s, data, p),
    ensures
        first_match(s, data) == p,
        has_match(s, data),
{
    let q = first_match(s, data);
    assert(first_match_at(s, data, q));
    if q < p {
        assert(!data.eq_spec(&s[q]));
    } else if p < q {
        assert(!data.eq_spec(&s[p]));
    }
}

/// When a match exists, the first one exists.
pub proof fn lemma_first_match_exists<T: PartialEq>(s: Seq<T>, data: T)
    requires
        has_match(s, data),
    ensures
        first_match_at(s, data, first_match(s, data)),
    decreases s.len(),
{
    let j = choose|j: int| 0 <= j < s.len() && data.eq_spec(&#[trigger] s[j]);
    if data.eq_spec(&s[0]) {
        assert(first_match_at(s, data, 0));
        lemma_first_match_unique(s, data, 0);
    } else {
        let t = s.drop_first();
        assert(t[j - 1] == s[j]);
        assert(has_match(t, data));
        lemma_first_match_exists(t, data);
        let q = first_match(t, data);
        assert forall|k: int| 0 <= k < q + 1 implies !data.eq_spec(&#[trigger] s[k]) by {
            if k > 0 {
                assert(s[k] == t[k - 1]);
            }
        }
        assert(first_match_at(s, data, q + 1));
        lemma_first_match_unique(s, data, q + 1);
    }
}

} // verus!
