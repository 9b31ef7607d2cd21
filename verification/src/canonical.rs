//! The canonical order of a dependency set: ascending by namespace, with
//! dependencies that share a namespace left in the order in which they came.

use vstd::prelude::*;
use crate::dependency::{Dep, DepView, Deps, dep_views};
use crate::order::{
    lemma_ns_le_antisymmetric,
    lemma_ns_le_reflexive,
    lemma_ns_le_total,
    lemma_ns_le_transitive,
    namespace_le,
    ns_le,
};

verus! {

/// The test "this dependency answers to `ns`".
pub open spec fn has_namespace(ns: Seq<char>) -> spec_fn(DepView) -> bool {
    |d: DepView| d.user.ns == ns
}

/// The namespaces never descend.
pub open spec fn is_canonical(s: Seq<DepView>) -> bool {
    forall|i: int, j: int|
        #![trigger s[i], s[j]]
        0 <= i < j < s.len() ==> ns_le(s[i].user.ns, s[j].user.ns)
}

/// For every namespace, `r` and `s` hold the same dependencies under it, in
/// the same order. So `r` holds what `s` holds, each as often, and no two
/// dependencies of one namespace have changed places.
pub open spec fn same_groups(r: Seq<DepView>, s: Seq<DepView>) -> bool {
    forall|ns: Seq<char>| #[trigger]
        r.filter(has_namespace(ns)) == s.filter(has_namespace(ns))
}

/// `r` is `s` in canonical order.
pub open spec fn canonical_of(r: Seq<DepView>, s: Seq<DepView>) -> bool {
    is_canonical(r) && same_groups(r, s)
}

/// The canonical order of `s`. There is exactly one: see
/// [`lemma_canonical_exists`] and [`lemma_canonical_unique`].
pub open spec fn canonical(s: Seq<DepView>) -> Seq<DepView> {
    choose|r: Seq<DepView>| canonical_of(r, s)
}

/// Where a dependency of namespace `ns` goes into the canonical sequence
/// `r`: behind the last one that sorts at or before it.
pub open spec fn slot(r: Seq<DepView>, ns: Seq<char>) -> int
    decreases r.len(),
{
    if r.len() == 0 {
        0
    } else if ns_le(r.last().user.ns, ns) {
        r.len() as int
    } else {
        slot(r.drop_last(), ns)
    }
}

proof fn lemma_slot(r: Seq<DepView>, ns: Seq<char>)
    requires
        is_canonical(r),
    ensures
        0 <= slot(r, ns) <= r.len(),
        forall|i: int| 0 <= i < slot(r, ns) ==> ns_le(#[trigger] r[i].user.ns, ns),
        forall|i: int| slot(r, ns) <= i < r.len() ==> !ns_le(#[trigger] r[i].user.ns, ns),
    decreases r.len(),
{
    if r.len() == 0 {
    } else if ns_le(r.last().user.ns, ns) {
        assert forall|i: int| 0 <= i < r.len() implies ns_le(#[trigger] r[i].user.ns, ns) by {
            if i < r.len() - 1 {
                lemma_ns_le_transitive(r[i].user.ns, r.last().user.ns, ns);
            }
        }
    } else {
        let front = r.drop_last();
        lemma_drop_last_canonical(r);
        lemma_slot(front, ns);
        assert forall|i: int| slot(r, ns) <= i < r.len() implies !ns_le(
            #[trigger] r[i].user.ns,
            ns,
        ) by {
            if i < r.len() - 1 {
                assert(front[i] == r[i]);
            }
        }
        assert forall|i: int| 0 <= i < slot(r, ns) implies ns_le(#[trigger] r[i].user.ns, ns) by {
            assert(front[i] == r[i]);
        }
    }
}

/// Putting `x` into its slot keeps the order canonical, and adds `x` behind
/// the others of its namespace.
proof fn lemma_insert(r: Seq<DepView>, s: Seq<DepView>, x: DepView, at: int)
    requires
        canonical_of(r, s),
        0 <= at <= r.len(),
        forall|i: int| 0 <= i < at ==> ns_le(#[trigger] r[i].user.ns, x.user.ns),
        forall|i: int| at <= i < r.len() ==> !ns_le(#[trigger] r[i].user.ns, x.user.ns),
    ensures
        canonical_of(r.insert(at, x), s.push(x)),
{
    let grown = r.insert(at, x);
    assert forall|i: int, j: int| 0 <= i < j < grown.len() implies ns_le(
        grown[i].user.ns,
        grown[j].user.ns,
    ) by {
        if i <= at < j {
            lemma_ns_le_total(r[j - 1].user.ns, x.user.ns);
            if i < at {
                lemma_ns_le_transitive(r[i].user.ns, x.user.ns, r[j - 1].user.ns);
            }
        }
    }
    assert forall|ns: Seq<char>| #[trigger]
        grown.filter(has_namespace(ns)) == s.push(x).filter(has_namespace(ns)) by {
        let p = has_namespace(ns);
        let head = r.take(at);
        let tail = r.skip(at);
        assert(r =~= head + tail);
        Seq::filter_distributes_over_add(head, tail, p);
        Seq::filter_distributes_over_add(head.push(x), tail, p);
        head.lemma_filter_push(x, p);
        s.lemma_filter_push(x, p);
        if p(x) {
            assert(tail.all(|d: DepView| !p(d))) by {
                assert forall|i: int| 0 <= i < tail.len() implies !p(#[trigger] tail[i]) by {
                    lemma_ns_le_reflexive(x.user.ns);
                }
            }
            tail.lemma_all_neg_filter_empty(p);
        }
    }
}

/// Every sequence has a canonical order.
pub proof fn lemma_canonical_exists(s: Seq<DepView>)
    ensures
        canonical_of(canonical(s), s),
    decreases s.len(),
{
    if s.len() == 0 {
        assert(canonical_of(s, s));
    } else {
        let front = s.drop_last();
        lemma_canonical_exists(front);
        let r = canonical(front);
        lemma_slot(r, s.last().user.ns);
        lemma_insert(r, front, s.last(), slot(r, s.last().user.ns));
        assert(front.push(s.last()) =~= s);
    }
}

proof fn lemma_drop_last_canonical(r: Seq<DepView>)
    requires
        is_canonical(r),
        r.len() > 0,
    ensures
        is_canonical(r.drop_last()),
{
    let front = r.drop_last();
    assert forall|i: int, j: int| 0 <= i < j < front.len() implies ns_le(
        front[i].user.ns,
        front[j].user.ns,
    ) by {
        assert(front[i] == r[i] && front[j] == r[j]);
    }
}

/// In a canonical sequence nothing sorts behind the last element.
proof fn lemma_last_is_greatest(r: Seq<DepView>, i: int)
    requires
        is_canonical(r),
        0 <= i < r.len(),
    ensures
        ns_le(r[i].user.ns, r.last().user.ns),
{
    if i == r.len() - 1 {
        lemma_ns_le_reflexive(r[i].user.ns);
    }
}

/// A non-empty group has a member in the sequence.
proof fn lemma_group_member(r: Seq<DepView>, ns: Seq<char>) -> (i: int)
    requires
        r.filter(has_namespace(ns)).len() > 0,
    ensures
        0 <= i < r.len(),
        r[i].user.ns == ns,
{
    let p = has_namespace(ns);
    let member = r.filter(p)[0];
    r.lemma_filter_pred(p, 0);
    r.lemma_filter_contains_rev(p, member);
    choose|i: int| 0 <= i < r.len() && r[i] == member
}

/// Two canonical sequences with the same groups are the same sequence.
pub proof fn lemma_same_groups_unique(r1: Seq<DepView>, r2: Seq<DepView>)
    requires
        is_canonical(r1),
        is_canonical(r2),
        same_groups(r1, r2),
    ensures
        r1 == r2,
    decreases r1.len(),
{
    if r1.len() == 0 {
        if r2.len() > 0 {
            let p = has_namespace(r2[0].user.ns);
            r2.lemma_filter_contains(p, 0);
            r1.lemma_filter_len(p);
        }
    } else {
        let x = r1.last();
        let p = has_namespace(x.user.ns);
        assert(r1 =~= r1.drop_last().push(x));
        r1.drop_last().lemma_filter_push(x, p);
        r2.lemma_filter_len(p);
        let y = r2.last();
        let q = has_namespace(y.user.ns);
        assert(r2 =~= r2.drop_last().push(y));
        r2.drop_last().lemma_filter_push(y, q);
        assert(y.user.ns == x.user.ns) by {
            let i = lemma_group_member(r1, y.user.ns);
            lemma_last_is_greatest(r1, i);
            let j = lemma_group_member(r2, x.user.ns);
            lemma_last_is_greatest(r2, j);
            lemma_ns_le_antisymmetric(x.user.ns, y.user.ns);
        }
        assert(x == y) by {
            assert(r1.drop_last().filter(p).push(x).last() == x);
        }
        lemma_drop_last_canonical(r1);
        lemma_drop_last_canonical(r2);
        assert forall|ns: Seq<char>| #[trigger]
            r1.drop_last().filter(has_namespace(ns)) == r2.drop_last().filter(
                has_namespace(ns),
            ) by {
            let g = has_namespace(ns);
            r1.drop_last().lemma_filter_push(x, g);
            r2.drop_last().lemma_filter_push(y, g);
            if g(x) {
                assert(r1.drop_last().filter(g).push(x).drop_last() =~= r1.drop_last().filter(g));
            }
        }
        lemma_same_groups_unique(r1.drop_last(), r2.drop_last());
    }
}

/// A sequence has only one canonical order.
pub proof fn lemma_canonical_unique(r: Seq<DepView>, s: Seq<DepView>)
    requires
        canonical_of(r, s),
    ensures
        r == canonical(s),
{
    lemma_canonical_exists(s);
    let c = canonical(s);
    assert forall|ns: Seq<char>| #[trigger]
        r.filter(has_namespace(ns)) == c.filter(has_namespace(ns)) by {
        assert(r.filter(has_namespace(ns)) == s.filter(has_namespace(ns)));
    }
    lemma_same_groups_unique(r, c);
}

/// A sequence that is in canonical order already is its own canonical
/// order.
pub proof fn lemma_canonical_idempotent(s: Seq<DepView>)
    requires
        is_canonical(s),
    ensures
        canonical(s) == s,
{
    lemma_canonical_unique(s, s);
}

/// How often `v` occurs in the group of `ns`: as often as in the whole
/// sequence where `v` answers to `ns`, and not at all where it does not.
pub proof fn lemma_group_count(s: Seq<DepView>, ns: Seq<char>, v: DepView)
    ensures
        s.filter(has_namespace(ns)).to_multiset().count(v) == if v.user.ns == ns {
            s.to_multiset().count(v)
        } else {
            0
        },
    decreases s.len(),
{
    broadcast use vstd::seq_lib::group_to_multiset_ensures;

    let p = has_namespace(ns);
    if s.len() == 0 {
        s.lemma_filter_len(p);
    } else {
        let front = s.drop_last();
        let x = s.last();
        lemma_group_count(front, ns, v);
        assert(s =~= front.push(x));
        front.lemma_filter_push(x, p);
    }
}

/// Two sequences with the same groups hold the same dependencies, each as
/// often in the one as in the other.
pub proof fn lemma_same_groups_permutation(r: Seq<DepView>, s: Seq<DepView>)
    requires
        same_groups(r, s),
    ensures
        r.to_multiset() == s.to_multiset(),
        r.len() == s.len(),
{
    broadcast use vstd::seq_lib::group_to_multiset_ensures;

    assert forall|v: DepView| r.to_multiset().count(v) == s.to_multiset().count(v) by {
        lemma_group_count(r, v.user.ns, v);
        lemma_group_count(s, v.user.ns, v);
        assert(r.filter(has_namespace(v.user.ns)) == s.filter(has_namespace(v.user.ns)));
    }
    assert(r.len() == r.to_multiset().len() && s.len() == s.to_multiset().len());
}

/// The canonical order of a sequence holds what the sequence holds, each as
/// often: nothing is lost, added or repeated.
pub proof fn lemma_canonical_is_permutation(s: Seq<DepView>)
    ensures
        canonical(s).to_multiset() == s.to_multiset(),
        canonical(s).len() == s.len(),
{
    lemma_canonical_exists(s);
    lemma_same_groups_permutation(canonical(s), s);
}

/// No two dependencies of one namespace differ.
pub open spec fn namespaces_decide(s: Seq<DepView>) -> bool {
    forall|i: int, j: int|
        #![trigger s[i], s[j]]
        0 <= i < s.len() && 0 <= j < s.len() && s[i].user.ns == s[j].user.ns ==> s[i] == s[j]
}

/// Where the namespace decides the dependency, the canonical order of a
/// sequence is that of each of its rearrangements.
pub proof fn lemma_canonical_of_permutation(a: Seq<DepView>, b: Seq<DepView>)
    requires
        a.to_multiset() == b.to_multiset(),
        namespaces_decide(a),
    ensures
        canonical(a) == canonical(b),
{
    broadcast use vstd::seq_lib::group_to_multiset_ensures;

    assert forall|ns: Seq<char>| #[trigger]
        a.filter(has_namespace(ns)) == b.filter(has_namespace(ns)) by {
        let p = has_namespace(ns);
        let fa = a.filter(p);
        let fb = b.filter(p);
        assert forall|v: DepView| fa.to_multiset().count(v) == fb.to_multiset().count(v) by {
            lemma_group_count(a, ns, v);
            lemma_group_count(b, ns, v);
        }
        assert(fa.to_multiset() =~= fb.to_multiset());
        assert(fa.len() == fa.to_multiset().len() && fb.len() == fb.to_multiset().len());
        assert forall|i: int| 0 <= i < fa.len() implies fa[i] == fb[i] by {
            a.lemma_filter_pred(p, i);
            b.lemma_filter_pred(p, i);
            a.lemma_filter_contains_rev(p, fa[i]);
            assert(fb.to_multiset().count(fb[i]) > 0);
            a.lemma_filter_contains_rev(p, fb[i]);
            let m = choose|m: int| 0 <= m < a.len() && a[m] == fa[i];
            let n = choose|n: int| 0 <= n < a.len() && a[n] == fb[i];
            assert(a[m].user.ns == a[n].user.ns);
        }
    }
    lemma_canonical_exists(b);
    let c = canonical(b);
    assert forall|ns: Seq<char>| #[trigger]
        c.filter(has_namespace(ns)) == a.filter(has_namespace(ns)) by {
        assert(c.filter(has_namespace(ns)) == b.filter(has_namespace(ns)));
    }
    lemma_canonical_unique(c, a);
}

impl Deps {
    /// Whether the set is in canonical order.
    pub open spec fn is_sorted(&self) -> bool {
        is_canonical(self@)
    }

    /// Puts the set into canonical order.
    pub fn sort(self) -> (sorted: Deps)
        ensures
            sorted@ == canonical(self@),
            canonical_of(sorted@, self@),
    {
        let ghost given = self.0@;
        let mut sorted: Vec<Dep> = Vec::new();
        assert(dep_views(sorted@) =~= dep_views(given.take(0)));
        for dep in it: self.0
            invariant
                it.seq() == given,
                canonical_of(dep_views(sorted@), dep_views(given.take(it.index() as int))),
        {
            let mut at: usize = sorted.len();
            while at > 0 && !namespace_le(sorted[at - 1].user.ns.as_str(), dep.user.ns.as_str())
                invariant
                    at <= sorted@.len(),
                    forall|i: int|
                        at <= i < sorted@.len() ==> !ns_le(
                            #[trigger] dep_views(sorted@)[i].user.ns,
                            dep@.user.ns,
                        ),
                decreases at,
            {
                at -= 1;
            }
            proof {
                let r = dep_views(sorted@);
                assert forall|i: int| 0 <= i < at implies ns_le(
                    #[trigger] r[i].user.ns,
                    dep@.user.ns,
                ) by {
                    if i < at - 1 {
                        lemma_ns_le_transitive(
                            r[i].user.ns,
                            r[at as int - 1].user.ns,
                            dep@.user.ns,
                        );
                    }
                }
                lemma_insert(r, dep_views(given.take(it.index() as int)), dep@, at as int);
                assert(dep_views(given.take(it.index() as int)).push(dep@) =~= dep_views(
                    given.take(it.index() as int + 1),
                ));
                assert(dep_views(sorted@.insert(at as int, dep)) =~= r.insert(at as int, dep@));
            }
            sorted.insert(at, dep);
        }
        assert(given.take(given.len() as int) =~= given);
        proof {
            lemma_canonical_unique(dep_views(sorted@), dep_views(given));
        }
        Deps(sorted)
    }
}

} // verus!
