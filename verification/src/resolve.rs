//! Pairing the requested dependencies with the packages found at their
//! paths. Either every dependency is resolved, or none is.

use vstd::prelude::*;
use crate::canonical::{canonical, canonical_of, lemma_canonical_of_permutation, namespaces_decide};
use crate::dependency::{
    Dep,
    DepArgView,
    DepArgs,
    DepView,
    Deps,
    Package,
    PackageView,
    arg_views,
    dep_views,
};
use crate::failure::Failure;

verus! {

/// The view of a package that was found, or `None` where none was.
pub open spec fn found_view(found: Option<Package>) -> Option<PackageView> {
    match found {
        Some(package) => Some(package@),
        None => None,
    }
}

/// The views of what was found, by position.
pub open spec fn found_views(found: Seq<Option<Package>>) -> Seq<Option<PackageView>> {
    found.map_values(|one: Option<Package>| found_view(one))
}

/// A package was found for the dependency at position `i`.
pub open spec fn is_resolved(found: Seq<Option<PackageView>>, i: int) -> bool {
    0 <= i < found.len() && found[i] is Some
}

/// Each listed dependency with its package, in the order of the list.
pub open spec fn paired(specs: Seq<DepArgView>, found: Seq<Option<PackageView>>) -> Seq<DepView> {
    Seq::new(specs.len(), |i: int| DepView { user: specs[i], auto: found[i]->0 })
}

/// The view of what resolution returned.
pub open spec fn resolved_view(resolved: Result<Deps, Failure>) -> Result<Seq<DepView>, Failure> {
    match resolved {
        Ok(deps) => Ok(deps@),
        Err(failure) => Err(failure),
    }
}

/// Position `i` is the first of the list for which no package was found.
pub open spec fn is_first_unresolved(
    specs: Seq<DepArgView>,
    found: Seq<Option<PackageView>>,
    i: int,
) -> bool {
    &&& 0 <= i < specs.len()
    &&& !is_resolved(found, i)
    &&& forall|j: int| 0 <= j < i ==> is_resolved(found, j)
}

/// What resolution gives: the canonical order of the pairs where a package
/// was found for every dependency, else the position of the first
/// dependency without one.
pub open spec fn resolution(specs: Seq<DepArgView>, found: Seq<Option<PackageView>>) -> Result<
    Seq<DepView>,
    Failure,
> {
    if forall|i: int| 0 <= i < specs.len() ==> is_resolved(found, i) {
        Ok(canonical(paired(specs, found)))
    } else {
        Err(
            Failure::Resolution {
                index: (choose|i: int| is_first_unresolved(specs, found, i)) as usize,
            },
        )
    }
}

impl DepArgs {
    /// The paths at which the descriptors of the dependencies are to be
    /// looked up, in the order of the list.
    pub fn paths(&self) -> (paths: Vec<String>)
        ensures
            paths@.len() == self@.len(),
            forall|i: int| 0 <= i < paths@.len() ==> (#[trigger] paths@[i])@ == self@[i].path,
    {
        let mut paths: Vec<String> = Vec::new();
        let mut i: usize = 0;
        while i < self.0.len()
            invariant
                i <= self.0.len(),
                paths@.len() == i,
                forall|k: int| 0 <= k < i ==> (#[trigger] paths@[k])@ == self@[k].path,
            decreases self.0.len() - i,
        {
            paths.push(self.0[i].path.clone());
            i += 1;
        }
        paths
    }

    /// Pairs each dependency with the package found at its path and puts
    /// the pairs into canonical order. `found` holds, by position, the
    /// package of each dependency, or `None` where its descriptor could not
    /// be read; a position beyond the end of `found` counts as `None`. The
    /// first dependency without a package fails the whole resolution.
    pub fn read_metadata(self, found: Vec<Option<Package>>) -> (resolved: Result<Deps, Failure>)
        ensures
            resolved_view(resolved) == resolution(self@, found_views(found@)),
            resolved matches Ok(deps) ==> canonical_of(
                deps@,
                paired(self@, found_views(found@)),
            ),
    {
        let ghost specs = self@;
        let resolved = self.pair_up(&found);
        proof {
            lemma_resolution(specs, found_views(found@), resolved_view(resolved));
        }
        resolved
    }

    fn pair_up(self, found: &Vec<Option<Package>>) -> (resolved: Result<Deps, Failure>)
        ensures
            match resolved {
                Ok(deps) => {
                    &&& forall|i: int| 0 <= i < self@.len() ==> is_resolved(found_views(found@), i)
                    &&& deps@ == canonical(paired(self@, found_views(found@)))
                    &&& canonical_of(deps@, paired(self@, found_views(found@)))
                },
                Err(failure) => exists|i: usize|
                    {
                        &&& failure == (Failure::Resolution { index: i })
                        &&& is_first_unresolved(self@, found_views(found@), i as int)
                    },
            },
    {
        let ghost specs = self@;
        let ghost given = self.0@;
        let ghost packages = found_views(found@);
        let mut pairs: Vec<Dep> = Vec::new();
        let mut i: usize = 0;
        for spec in it: self.0
            invariant
                it.seq() == given,
                specs == self@,
                specs == arg_views(given),
                packages == found_views(found@),
                i == it.index(),
                pairs@.len() == i,
                dep_views(pairs@) == paired(specs, packages).take(i as int),
                forall|j: int| 0 <= j < i ==> is_resolved(packages, j),
        {
            if i >= found.len() {
                assert(is_first_unresolved(specs, packages, i as int));
                return Err(Failure::Resolution { index: i });
            }
            match &found[i] {
                None => {
                    assert(is_first_unresolved(specs, packages, i as int));
                    return Err(Failure::Resolution { index: i });
                },
                Some(package) => {
                    pairs.push(Dep { user: spec, auto: package.clone() });
                    assert(dep_views(pairs@) =~= paired(specs, packages).take(i as int + 1));
                },
            }
            i += 1;
        }
        assert(paired(specs, packages).take(i as int) =~= paired(specs, packages));
        Ok(Deps(pairs).sort())
    }
}

/// The dependency that a listed one becomes with the package at its path.
pub open spec fn pair_with(package_at: spec_fn(Seq<char>) -> Option<PackageView>) -> spec_fn(
    DepArgView,
) -> DepView {
    |spec: DepArgView| DepView { user: spec, auto: package_at(spec.path)->0 }
}

/// What is found for a list where `package_at` says what is found at each
/// path.
pub open spec fn found_for(
    specs: Seq<DepArgView>,
    package_at: spec_fn(Seq<char>) -> Option<PackageView>,
) -> Seq<Option<PackageView>> {
    specs.map_values(|spec: DepArgView| package_at(spec.path))
}

/// No two listed dependencies of one namespace differ.
pub open spec fn namespaces_tell_apart(specs: Seq<DepArgView>) -> bool {
    forall|i: int, j: int|
        #![trigger specs[i], specs[j]]
        0 <= i < specs.len() && 0 <= j < specs.len() && specs[i].ns == specs[j].ns ==> specs[i]
            == specs[j]
}

proof fn lemma_pairs_of_rearranged_list(
    a: Seq<DepArgView>,
    b: Seq<DepArgView>,
    pair: spec_fn(DepArgView) -> DepView,
)
    requires
        a.to_multiset() == b.to_multiset(),
    ensures
        a.map_values(pair).to_multiset() == b.map_values(pair).to_multiset(),
    decreases a.len(),
{
    broadcast use vstd::seq_lib::group_to_multiset_ensures;

    assert(a.len() == a.to_multiset().len() && b.len() == b.to_multiset().len());
    if a.len() == 0 {
    } else {
        let x = a.last();
        let front = a.drop_last();
        assert(a =~= front.push(x));
        assert(a.to_multiset().count(x) > 0);
        let at = choose|at: int| 0 <= at < b.len() && b[at] == x;
        let rest = b.remove(at);
        assert(front.to_multiset() =~= a.to_multiset().remove(x));
        lemma_pairs_of_rearranged_list(front, rest, pair);
        assert(a.map_values(pair) =~= front.map_values(pair).push(pair(x)));
        assert(b.map_values(pair) =~= rest.map_values(pair).insert(at, pair(x)));
    }
}

/// Resolution does not depend on the order of the list: where what is
/// found at a path is the same wherever the path is listed, and no two
/// listed dependencies of one namespace differ, two lists that hold the same
/// dependencies, each as often, are resolved or left unresolved together, and
/// resolved to the same set.
pub proof fn lemma_resolution_ignores_order(
    a: Seq<DepArgView>,
    b: Seq<DepArgView>,
    package_at: spec_fn(Seq<char>) -> Option<PackageView>,
)
    requires
        a.to_multiset() == b.to_multiset(),
        namespaces_tell_apart(a),
    ensures
        resolution(a, found_for(a, package_at)) is Ok <==> resolution(
            b,
            found_for(b, package_at),
        ) is Ok,
        resolution(a, found_for(a, package_at)) is Ok ==> resolution(a, found_for(a, package_at))
            == resolution(b, found_for(b, package_at)),
{
    broadcast use vstd::seq_lib::group_to_multiset_ensures;

    let found_a = found_for(a, package_at);
    let found_b = found_for(b, package_at);
    let all_a = forall|i: int| 0 <= i < a.len() ==> is_resolved(found_a, i);
    let all_b = forall|i: int| 0 <= i < b.len() ==> is_resolved(found_b, i);
    if all_a {
        assert forall|i: int| 0 <= i < b.len() implies is_resolved(found_b, i) by {
            assert(b.to_multiset().count(b[i]) > 0);
            let j = choose|j: int| 0 <= j < a.len() && a[j] == b[i];
            assert(is_resolved(found_a, j));
        }
    }
    if all_b {
        assert forall|i: int| 0 <= i < a.len() implies is_resolved(found_a, i) by {
            assert(a.to_multiset().count(a[i]) > 0);
            let j = choose|j: int| 0 <= j < b.len() && b[j] == a[i];
            assert(is_resolved(found_b, j));
        }
    }
    if all_a {
        let pair = pair_with(package_at);
        assert(paired(a, found_a) =~= a.map_values(pair));
        assert(paired(b, found_b) =~= b.map_values(pair));
        lemma_pairs_of_rearranged_list(a, b, pair);
        assert(namespaces_decide(paired(a, found_a))) by {
            let pairs = paired(a, found_a);
            assert forall|i: int, j: int|
                0 <= i < pairs.len() && 0 <= j < pairs.len() && pairs[i].user.ns
                    == pairs[j].user.ns implies pairs[i] == pairs[j] by {
                assert(a[i] == a[j]);
            }
        }
        lemma_canonical_of_permutation(paired(a, found_a), paired(b, found_b));
    }
}

proof fn lemma_resolution(
    specs: Seq<DepArgView>,
    found: Seq<Option<PackageView>>,
    resolved: Result<Seq<DepView>, Failure>,
)
    requires
        match resolved {
            Ok(deps) => {
                &&& forall|i: int| 0 <= i < specs.len() ==> is_resolved(found, i)
                &&& deps == canonical(paired(specs, found))
            },
            Err(failure) => exists|i: usize|
                {
                    &&& failure == (Failure::Resolution { index: i })
                    &&& is_first_unresolved(specs, found, i as int)
                },
        },
    ensures
        resolved == resolution(specs, found),
{
    if let Err(failure) = resolved {
        let i = choose|i: usize|
            {
                &&& failure == (Failure::Resolution { index: i })
                &&& is_first_unresolved(specs, found, i as int)
            };
        let k = choose|k: int| is_first_unresolved(specs, found, k);
        assert(is_first_unresolved(specs, found, i as int));
        assert(i == k) by {
            if i < k {
                assert(is_resolved(found, i as int));
            }
            if k < i {
                assert(is_resolved(found, k));
            }
        }
    }
}

} // verus!
