//! Stable ordering of tracks by their stream order.

use vstd::prelude::*;

verus! {

/// A value that carries a stream order, and can be duplicated.
pub trait StreamOrdered: Sized + View {
    /// The stream order of a value, seen through its view.
    spec fn order_of(v: Self::V) -> u32;

    /// The stream order.
    fn order(&self) -> (k: u32)
        ensures
            k == Self::order_of(self@),
    ;

    /// A copy with the same view.
    fn duplicate(&self) -> (r: Self)
        ensures
            r@ == self@,
    ;
}

/// The views of a sequence of values.
pub open spec fn views<T: View>(s: Seq<T>) -> Seq<T::V> {
    s.map_values(|t: T| t@)
}

/// The predicate "has stream order `k`".
pub open spec fn has_order<T: StreamOrdered>(k: u32) -> spec_fn(T::V) -> bool {
    |v: T::V| T::order_of(v) == k
}

/// Stream orders never decrease along `s`.
pub open spec fn sorted_by_order<T: StreamOrdered>(s: Seq<T::V>) -> bool {
    forall|i: int, j: int| 0 <= i <= j < s.len() ==> T::order_of(s[i]) <= T::order_of(s[j])
}

/// `r` lists the items of `s` by ascending stream order, items of equal
/// stream order keeping the order they have in `s` (a stable sort by stream order).
pub open spec fn stably_ordered<T: StreamOrdered>(r: Seq<T::V>, s: Seq<T::V>) -> bool {
    &&& sorted_by_order::<T>(r)
    &&& forall|k: u32| #[trigger] r.filter(has_order::<T>(k)) == s.filter(has_order::<T>(k))
}

/// Filtering out everything leaves nothing.
pub proof fn lemma_filter_none<A>(s: Seq<A>, p: spec_fn(A) -> bool)
    requires
        forall|i: int| 0 <= i < s.len() ==> !p(#[trigger] s[i]),
    ensures
        s.filter(p) == Seq::<A>::empty(),
    decreases s.len(),
{
    reveal(Seq::filter);
    if s.len() > 0 {
        assert forall|i: int| 0 <= i < s.drop_last().len() implies !p(#[trigger] s.drop_last()[i]) by {
            assert(s.drop_last()[i] == s[i]);
        }
        lemma_filter_none(s.drop_last(), p);
    }
}

/// Filtering again by a weaker predicate changes nothing.
pub proof fn lemma_filter_filter_weaker<A>(s: Seq<A>, p: spec_fn(A) -> bool, q: spec_fn(A) -> bool)
    requires
        forall|x: A| #[trigger] p(x) ==> q(x),
    ensures
        s.filter(p).filter(q) == s.filter(p),
    decreases s.len(),
{
    reveal(Seq::filter);
    if s.len() > 0 {
        lemma_filter_filter_weaker(s.drop_last(), p, q);
        let f = s.drop_last().filter(p);
        if p(s.last()) {
            f.lemma_filter_push(s.last(), q);
        }
    }
}

/// Filtering again by an incompatible predicate leaves nothing.
pub proof fn lemma_filter_filter_disjoint<A>(
    s: Seq<A>,
    p: spec_fn(A) -> bool,
    q: spec_fn(A) -> bool,
)
    requires
        forall|x: A| #[trigger] p(x) ==> !q(x),
    ensures
        s.filter(p).filter(q) == Seq::<A>::empty(),
{
    broadcast use vstd::seq_lib::group_filter_ensures;

    let f = s.filter(p);
    assert forall|i: int| 0 <= i < f.len() implies !q(#[trigger] f[i]) by {
        assert(p(f[i]));
    }
    lemma_filter_none(f, q);
}

proof fn lemma_filter_last<A>(s: Seq<A>, p: spec_fn(A) -> bool)
    requires
        s.len() > 0,
    ensures
        s.filter(p) == if p(s.last()) {
            s.drop_last().filter(p).push(s.last())
        } else {
            s.drop_last().filter(p)
        },
{
    reveal(Seq::filter);
}

proof fn lemma_sorted_keys_at_most_last<T: StreamOrdered>(r: Seq<T::V>, k: u32)
    requires
        sorted_by_order::<T>(r),
        r.len() > 0,
        T::order_of(r.last()) < k,
    ensures
        r.filter(has_order::<T>(k)) == Seq::<T::V>::empty(),
{
    assert forall|i: int| 0 <= i < r.len() implies !(has_order::<T>(k))(#[trigger] r[i]) by {
        assert(T::order_of(r[i]) <= T::order_of(r[r.len() - 1]));
    }
    lemma_filter_none(r, has_order::<T>(k));
}

proof fn lemma_sorted_groups_determine<T: StreamOrdered>(r1: Seq<T::V>, r2: Seq<T::V>)
    requires
        sorted_by_order::<T>(r1),
        sorted_by_order::<T>(r2),
        forall|k: u32| #[trigger] r1.filter(has_order::<T>(k)) == r2.filter(has_order::<T>(k)),
    ensures
        r1 == r2,
    decreases r1.len() + r2.len(),
{
    if r1.len() == 0 && r2.len() == 0 {
        assert(r1 =~= r2);
    } else if r1.len() == 0 || r2.len() == 0 {
        let (a, b) = if r1.len() == 0 {
            (r2, r1)
        } else {
            (r1, r2)
        };
        let k = T::order_of(a.last());
        lemma_filter_last(a, has_order::<T>(k));
        assert(b =~= Seq::<T::V>::empty());
        lemma_filter_none(b, has_order::<T>(k));
        assert(a.filter(has_order::<T>(k)).len() > 0);
        assert(r1.filter(has_order::<T>(k)) == r2.filter(has_order::<T>(k)));
    } else {
        let k1 = T::order_of(r1.last());
        let k2 = T::order_of(r2.last());
        lemma_filter_last(r1, has_order::<T>(k1));
        lemma_filter_last(r2, has_order::<T>(k2));
        if k2 < k1 {
            lemma_sorted_keys_at_most_last::<T>(r2, k1);
            assert((has_order::<T>(k1))(r1.last()));
            assert(r1.filter(has_order::<T>(k1)).len() > 0);
            assert(r1.filter(has_order::<T>(k1)) == r2.filter(has_order::<T>(k1)));
        }
        if k1 < k2 {
            lemma_sorted_keys_at_most_last::<T>(r1, k2);
            assert((has_order::<T>(k2))(r2.last()));
            assert(r2.filter(has_order::<T>(k2)).len() > 0);
            assert(r1.filter(has_order::<T>(k2)) == r2.filter(has_order::<T>(k2)));
        }
        assert(k1 == k2);
        let d1 = r1.drop_last();
        let d2 = r2.drop_last();
        assert(r1.filter(has_order::<T>(k1)) == r2.filter(has_order::<T>(k1)));
        assert(d1.filter(has_order::<T>(k1)).push(r1.last()) == d2.filter(has_order::<T>(k1)).push(
            r2.last(),
        ));
        assert((has_order::<T>(k1))(r1.last()));
        assert((has_order::<T>(k1))(r2.last()));
        let f1 = d1.filter(has_order::<T>(k1)).push(r1.last());
        let f2 = d2.filter(has_order::<T>(k1)).push(r2.last());
        assert(f1 == f2);
        assert(f1[f1.len() - 1] == r1.last());
        assert(f2[f2.len() - 1] == r2.last());
        assert(r1.last() == r2.last());
        assert(d1.filter(has_order::<T>(k1)) =~= d1.filter(has_order::<T>(k1)).push(
            r1.last(),
        ).drop_last());
        assert(d2.filter(has_order::<T>(k1)) =~= d2.filter(has_order::<T>(k1)).push(
            r2.last(),
        ).drop_last());
        assert forall|k: u32| #[trigger] d1.filter(has_order::<T>(k)) == d2.filter(has_order::<T>(k)) by {
            lemma_filter_last(r1, has_order::<T>(k));
            lemma_filter_last(r2, has_order::<T>(k));
            assert(r1.filter(has_order::<T>(k)) == r2.filter(has_order::<T>(k)));
        }
        assert(sorted_by_order::<T>(d1)) by {
            assert forall|i: int, j: int| 0 <= i <= j < d1.len() implies T::order_of(d1[i])
                <= T::order_of(d1[j]) by {
                assert(d1[i] == r1[i] && d1[j] == r1[j]);
            }
        }
        assert(sorted_by_order::<T>(d2)) by {
            assert forall|i: int, j: int| 0 <= i <= j < d2.len() implies T::order_of(d2[i])
                <= T::order_of(d2[j]) by {
                assert(d2[i] == r2[i] && d2[j] == r2[j]);
            }
        }
        lemma_sorted_groups_determine::<T>(d1, d2);
        assert(r1 =~= d1.push(r1.last()));
        assert(r2 =~= d2.push(r2.last()));
    }
}

/// Law: the order is fully determined: two orderings of the same tracks
/// that both satisfy `stably_ordered` are the same sequence.
pub proof fn law_stable_order_unique<T: StreamOrdered>(r1: Seq<T::V>, r2: Seq<T::V>, s: Seq<T::V>)
    requires
        stably_ordered::<T>(r1, s),
        stably_ordered::<T>(r2, s),
    ensures
        r1 == r2,
{
    lemma_sorted_groups_determine::<T>(r1, r2);
}

/// Law: tracks already in stream order stay as they are.
pub proof fn law_sorted_unchanged<T: StreamOrdered>(r: Seq<T::V>, s: Seq<T::V>)
    requires
        stably_ordered::<T>(r, s),
        sorted_by_order::<T>(s),
    ensures
        r == s,
{
    lemma_sorted_groups_determine::<T>(r, s);
}

proof fn lemma_views_push<T: View>(s: Seq<T>, x: T)
    ensures
        views(s.push(x)) == views(s).push(x@),
{
    assert(views(s.push(x)) =~= views(s).push(x@));
}

/// Whether `k` is at most the bound `last` (nothing is, when there is no bound).
pub open spec fn at_most(k: u32, last: Option<u32>) -> bool {
    match last {
        Some(l) => k <= l,
        None => false,
    }
}

spec fn measure(last: Option<u32>) -> int {
    match last {
        Some(l) => u32::MAX - l,
        None => u32::MAX + 1,
    }
}

/// The smallest stream order above `last` among the items, if any.
fn next_order<T: StreamOrdered>(v: &Vec<T>, last: Option<u32>) -> (r: Option<u32>)
    ensures
        match r {
            Some(m) => {
                &&& !at_most(m, last)
                &&& exists|j: int| 0 <= j < v.len() && T::order_of(#[trigger] v@[j]@) == m
                &&& forall|j: int|
                    0 <= j < v.len() && !at_most(T::order_of(v@[j]@), last) ==> m <= T::order_of(
                        #[trigger] v@[j]@,
                    )
            },
            None => forall|j: int| 0 <= j < v.len() ==> at_most(T::order_of(#[trigger] v@[j]@), last),
        },
{
    let mut best: Option<u32> = None;
    let mut i: usize = 0;
    while i < v.len()
        invariant
            i <= v.len(),
            match best {
                Some(m) => {
                    &&& !at_most(m, last)
                    &&& exists|j: int| 0 <= j < i && T::order_of(#[trigger] v@[j]@) == m
                    &&& forall|j: int|
                        0 <= j < i && !at_most(T::order_of(v@[j]@), last) ==> m <= T::order_of(
                            #[trigger] v@[j]@,
                        )
                },
                None => forall|j: int| 0 <= j < i ==> at_most(T::order_of(#[trigger] v@[j]@), last),
            },
        decreases v.len() - i,
    {
        let k = v[i].order();
        let above = match last {
            Some(l) => k > l,
            None => true,
        };
        if above {
            match best {
                Some(m) => {
                    if k < m {
                        best = Some(k);
                    }
                },
                None => {
                    best = Some(k);
                },
            }
        }
        i += 1;
    }
    best
}

/// The items in ascending stream order; items of equal stream order keep
/// their relative order.
pub fn sort_by_stream_order<T: StreamOrdered>(v: &Vec<T>) -> (r: Vec<T>)
    ensures
        stably_ordered::<T>(views(r@), views(v@)),
{
    let ghost vs = views(v@);
    let mut out: Vec<T> = Vec::new();
    let mut last: Option<u32> = None;
    loop
        invariant
            vs == views(v@),
            vs.len() == v.len(),
            sorted_by_order::<T>(views(out@)),
            last is None ==> out.len() == 0,
            forall|j: int|
                0 <= j < out.len() ==> at_most(T::order_of(#[trigger] views(out@)[j]), last),
            forall|k: u32|
                #[trigger] views(out@).filter(has_order::<T>(k)) == if at_most(k, last) {
                    vs.filter(has_order::<T>(k))
                } else {
                    Seq::empty()
                },
        decreases measure(last),
    {
        let next = next_order(v, last);
        match next {
            None => {
                assert forall|k: u32| #[trigger]
                    views(out@).filter(has_order::<T>(k)) == vs.filter(has_order::<T>(k)) by {
                    if !at_most(k, last) {
                        assert forall|i: int| 0 <= i < vs.len() implies !(has_order::<T>(k))(
                            #[trigger] vs[i],
                        ) by {
                            assert(vs[i] == v@[i]@);
                        }
                        lemma_filter_none(vs, has_order::<T>(k));
                    }
                }
                return out;
            },
            Some(m) => {
                let ghost out0 = views(out@);
                let mut i: usize = 0;
                while i < v.len()
                    invariant
                        vs == views(v@),
                        vs.len() == v.len(),
                        i <= v.len(),
                        views(out@) == out0 + vs.take(i as int).filter(has_order::<T>(m)),
                    decreases v.len() - i,
                {
                    let ghost before = views(out@);
                    assert(vs.take(i + 1) =~= vs.take(i as int).push(vs[i as int]));
                    proof {
                        vs.take(i as int).lemma_filter_push(vs[i as int], has_order::<T>(m));
                    }
                    if v[i].order() == m {
                        let d = v[i].duplicate();
                        proof {
                            lemma_views_push(out@, d);
                        }
                        out.push(d);
                        assert(views(out@) =~= before.push(vs[i as int]));
                    }
                    i += 1;
                }
                let ghost added = vs.filter(has_order::<T>(m));
                assert(vs.take(v.len() as int) =~= vs);
                assert(views(out@) == out0 + added);
                proof {
                    broadcast use vstd::seq_lib::group_filter_ensures;

                    assert forall|j: int| 0 <= j < added.len() implies T::order_of(
                        #[trigger] added[j],
                    ) == m by {
                        assert((has_order::<T>(m))(added[j]));
                    }
                    assert forall|k: u32| #[trigger]
                        views(out@).filter(has_order::<T>(k)) == if at_most(k, Some(m)) {
                            vs.filter(has_order::<T>(k))
                        } else {
                            Seq::empty()
                        } by {
                        Seq::filter_distributes_over_add(out0, added, has_order::<T>(k));
                        if k == m {
                            lemma_filter_filter_weaker(vs, has_order::<T>(m), has_order::<T>(k));
                        } else {
                            lemma_filter_filter_disjoint(
                                vs,
                                has_order::<T>(m),
                                has_order::<T>(k),
                            );
                            if k < m && !at_most(k, last) {
                                assert forall|i: int| 0 <= i < vs.len() implies !(has_order::<
                                    T,
                                >(k))(#[trigger] vs[i]) by {
                                    assert(vs[i] == v@[i]@);
                                }
                                lemma_filter_none(vs, has_order::<T>(k));
                            }
                        }
                        assert(out0.filter(has_order::<T>(k)) + Seq::<T::V>::empty() =~= out0.filter(
                            has_order::<T>(k),
                        ));
                    }
                    assert forall|a: int, b: int|
                        0 <= a <= b < views(out@).len() implies T::order_of(views(out@)[a])
                        <= T::order_of(views(out@)[b]) by {
                        if b >= out0.len() {
                            assert(views(out@)[b] == added[b - out0.len()]);
                            if a >= out0.len() {
                                assert(views(out@)[a] == added[a - out0.len()]);
                            } else {
                                assert(views(out@)[a] == out0[a]);
                            }
                        } else {
                            assert(views(out@)[a] == out0[a]);
                            assert(views(out@)[b] == out0[b]);
                        }
                    }
                    assert forall|j: int| 0 <= j < out.len() implies at_most(
                        T::order_of(#[trigger] views(out@)[j]),
                        Some(m),
                    ) by {
                        if j >= out0.len() {
                            assert(views(out@)[j] == added[j - out0.len()]);
                        } else {
                            assert(views(out@)[j] == out0[j]);
                        }
                    }
                }
                last = Some(m);
            },
        }
    }
}

} // verus!
