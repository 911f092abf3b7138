//! Searching sequences: the first element that satisfies a predicate.
use vstd::prelude::*;

verus! {

/// Index of the first element of `s` that satisfies `p`, if any.
pub open spec fn first_where<A>(s: Seq<A>, p: spec_fn(A) -> bool) -> Option<int>
    decreases s.len(),
{
    if s.len() == 0 {
        None
    } else if p(s[0]) {
        Some(0)
    } else {
        match first_where(s.drop_first(), p) {
            Some(i) => Some(i + 1),
            None => None,
        }
    }
}

/// `first_where` gives the least index whose element satisfies `p`, and
/// `None` exactly when no element does.
pub proof fn lemma_first_where<A>(s: Seq<A>, p: spec_fn(A) -> bool)
    ensures
        match first_where(s, p) {
            Some(i) => 0 <= i < s.len() && p(s[i]) && forall|j: int|
                0 <= j < i ==> !p(#[trigger] s[j]),
            None => forall|j: int| 0 <= j < s.len() ==> !p(#[trigger] s[j]),
        },
    decreases s.len(),
{
    if s.len() > 0 && !p(s[0]) {
        lemma_first_where(s.drop_first(), p);
        match first_where(s.drop_first(), p) {
            Some(i) => {
                assert forall|j: int| 0 <= j < i + 1 implies !p(#[trigger] s[j]) by {
                    if j > 0 {
                        assert(s[j] == s.drop_first()[j - 1]);
                    }
                }
            },
            None => {
                assert forall|j: int| 0 <= j < s.len() implies !p(#[trigger] s[j]) by {
                    if j > 0 {
                        assert(s[j] == s.drop_first()[j - 1]);
                    }
                }
            },
        }
    }
}

/// The least satisfying index is what `first_where` returns.
pub proof fn lemma_first_where_is<A>(s: Seq<A>, p: spec_fn(A) -> bool, i: int)
    requires
        0 <= i < s.len(),
        p(s[i]),
        forall|j: int| 0 <= j < i ==> !p(#[trigger] s[j]),
    ensures
        first_where(s, p) == Some(i),
{
    lemma_first_where(s, p);
    match first_where(s, p) {
        Some(k) => {
            if k < i {
                assert(!p(s[k]));
            }
            if k > i {
                assert(!p(s[i]));
            }
        },
        None => {
            assert(!p(s[i]));
        },
    }
}

/// No satisfying index means `first_where` returns `None`.
pub proof fn lemma_first_where_none<A>(s: Seq<A>, p: spec_fn(A) -> bool)
    requires
        forall|j: int| 0 <= j < s.len() ==> !p(#[trigger] s[j]),
    ensures
        first_where(s, p) == None::<int>,
{
    lemma_first_where(s, p);
    match first_where(s, p) {
        Some(k) => {
            assert(!p(s[k]));
        },
        None => {},
    }
}

/// Searching the images under `f` for `p` is searching the elements for `q`,
/// when `q` holds of an element exactly when `p` holds of its image.
pub proof fn lemma_first_where_map<A, B>(
    s: Seq<A>,
    f: spec_fn(A) -> B,
    p: spec_fn(B) -> bool,
    q: spec_fn(A) -> bool,
)
    requires
        forall|x: A| #[trigger] q(x) == p(f(x)),
    ensures
        first_where(s.map_values(f), p) == first_where(s, q),
{
    let m = s.map_values(f);
    lemma_first_where(s, q);
    match first_where(s, q) {
        Some(i) => {
            assert(q(s[i]));
            assert forall|j: int| 0 <= j < i implies !p(#[trigger] m[j]) by {
                assert(!q(s[j]));
            }
            lemma_first_where_is(m, p, i);
        },
        None => {
            assert forall|j: int| 0 <= j < m.len() implies !p(#[trigger] m[j]) by {
                assert(!q(s[j]));
            }
            lemma_first_where_none(m, p);
        },
    }
}

/// Some element satisfies `p`.
pub open spec fn any_where<A>(s: Seq<A>, p: spec_fn(A) -> bool) -> bool {
    exists|j: int| 0 <= j < s.len() && p(#[trigger] s[j])
}

pub proof fn lemma_any_where<A>(s: Seq<A>, p: spec_fn(A) -> bool)
    ensures
        any_where(s, p) <==> first_where(s, p) is Some,
{
    lemma_first_where(s, p);
    if let Some(k) = first_where(s, p) {
        assert(p(s[k]));
    }
}

} // verus!
