//! The dependency records and their mathematical views.

use vstd::prelude::*;
use vstd::std_specs::cmp::PartialEqSpecImpl;

verus! {

/// Name and version of a package, as its own descriptor states them.
#[derive(Debug)]
pub struct Package {
    pub name: String,
    pub version: String,
}

/// Mathematical value of a [`Package`].
pub struct PackageView {
    pub name: Seq<char>,
    pub version: Seq<char>,
}

impl View for Package {
    type V = PackageView;

    open spec fn view(&self) -> PackageView {
        PackageView { name: self.name@, version: self.version@ }
    }
}

impl Clone for Package {
    fn clone(&self) -> (copy: Self)
        ensures
            copy@ == self@,
    {
        Package { name: self.name.clone(), version: self.version.clone() }
    }
}

impl PartialEq for Package {
    fn eq(&self, other: &Self) -> (same: bool) {
        self.name == other.name && self.version == other.version
    }
}

impl Eq for Package {

}

impl PartialEqSpecImpl for Package {
    open spec fn obeys_eq_spec() -> bool {
        true
    }

    open spec fn eq_spec(&self, other: &Self) -> bool {
        self@ == other@
    }
}

/// One requested dependency: where the handler crate lives, which of its
/// types handles messages, and the namespace it answers to.
#[derive(Debug)]
pub struct DepArg {
    pub path: String,
    pub handler: String,
    pub ns: String,
}

/// Mathematical value of a [`DepArg`].
pub struct DepArgView {
    pub path: Seq<char>,
    pub handler: Seq<char>,
    pub ns: Seq<char>,
}

impl View for DepArg {
    type V = DepArgView;

    open spec fn view(&self) -> DepArgView {
        DepArgView { path: self.path@, handler: self.handler@, ns: self.ns@ }
    }
}

impl Clone for DepArg {
    fn clone(&self) -> (copy: Self)
        ensures
            copy@ == self@,
    {
        DepArg { path: self.path.clone(), handler: self.handler.clone(), ns: self.ns.clone() }
    }
}

impl PartialEq for DepArg {
    fn eq(&self, other: &Self) -> (same: bool) {
        self.path == other.path && self.handler == other.handler && self.ns == other.ns
    }
}

impl Eq for DepArg {

}

impl PartialEqSpecImpl for DepArg {
    open spec fn obeys_eq_spec() -> bool {
        true
    }

    open spec fn eq_spec(&self, other: &Self) -> bool {
        self@ == other@
    }
}

/// A requested dependency together with the package found at its path.
#[derive(Debug)]
pub struct Dep {
    pub user: DepArg,
    pub auto: Package,
}

/// Mathematical value of a [`Dep`].
pub struct DepView {
    pub user: DepArgView,
    pub auto: PackageView,
}

impl View for Dep {
    type V = DepView;

    open spec fn view(&self) -> DepView {
        DepView { user: self.user@, auto: self.auto@ }
    }
}

impl Clone for Dep {
    fn clone(&self) -> (copy: Self)
        ensures
            copy@ == self@,
    {
        Dep { user: self.user.clone(), auto: self.auto.clone() }
    }
}

impl PartialEq for Dep {
    fn eq(&self, other: &Self) -> (same: bool) {
        self.user == other.user && self.auto == other.auto
    }
}

impl Eq for Dep {

}

impl PartialEqSpecImpl for Dep {
    open spec fn obeys_eq_spec() -> bool {
        true
    }

    open spec fn eq_spec(&self, other: &Self) -> bool {
        self@ == other@
    }
}

/// The view of each record of a sequence, in the same order.
pub open spec fn arg_views(items: Seq<DepArg>) -> Seq<DepArgView> {
    items.map_values(|d: DepArg| d@)
}

/// The view of each record of a sequence, in the same order.
pub open spec fn dep_views(items: Seq<Dep>) -> Seq<DepView> {
    items.map_values(|d: Dep| d@)
}

/// The requested dependencies, in the order in which they were given.
#[derive(Debug)]
pub struct DepArgs(pub Vec<DepArg>);

impl View for DepArgs {
    type V = Seq<DepArgView>;

    open spec fn view(&self) -> Seq<DepArgView> {
        arg_views(self.0@)
    }
}

/// A set of resolved dependencies. Its order is the order of its aliases:
/// the dependency at position `i` is known as `dep<i>`.
#[derive(Debug)]
pub struct Deps(pub Vec<Dep>);

impl View for Deps {
    type V = Seq<DepView>;

    open spec fn view(&self) -> Seq<DepView> {
        dep_views(self.0@)
    }
}

impl Clone for Deps {
    fn clone(&self) -> (copy: Self)
        ensures
            copy@ == self@,
    {
        let mut items: Vec<Dep> = Vec::new();
        let mut i: usize = 0;
        while i < self.0.len()
            invariant
                i <= self.0.len(),
                dep_views(items@) == dep_views(self.0@).take(i as int),
            decreases self.0.len() - i,
        {
            let ghost before = items@;
            items.push(self.0[i].clone());
            assert(dep_views(items@) =~= dep_views(before).push(self.0@[i as int]@));
            i += 1;
        }
        Deps(items)
    }
}

impl PartialEq for Deps {
    fn eq(&self, other: &Self) -> (same: bool) {
        if self.0.len() != other.0.len() {
            return false;
        }
        let mut i: usize = 0;
        while i < self.0.len()
            invariant
                i <= self.0.len(),
                self.0.len() == other.0.len(),
                dep_views(self.0@).take(i as int) == dep_views(other.0@).take(i as int),
            decreases self.0.len() - i,
        {
            if !(self.0[i] == other.0[i]) {
                assert(self@[i as int] != other@[i as int]);
                return false;
            }
            i += 1;
        }
        assert(dep_views(self.0@).take(i as int) =~= dep_views(self.0@));
        assert(dep_views(other.0@).take(i as int) =~= dep_views(other.0@));
        true
    }
}

impl Eq for Deps {

}

impl PartialEqSpecImpl for Deps {
    open spec fn obeys_eq_spec() -> bool {
        true
    }

    open spec fn eq_spec(&self, other: &Self) -> bool {
        self@ == other@
    }
}

/// The entries are the dependencies in their order, each with its
/// position, what was requested, and the package that was found.
pub open spec fn is_numbering<'a>(
    entries: Seq<(usize, &'a DepArg, &'a Package)>,
    items: Seq<Dep>,
) -> bool {
    &&& entries.len() == items.len()
    &&& forall|i: int|
        0 <= i < entries.len() ==> {
            &&& (#[trigger] entries[i]).0 == i
            &&& *entries[i].1 == items[i].user
            &&& *entries[i].2 == items[i].auto
        }
}

impl Deps {
    /// Each dependency with its position: the number of its alias, what was
    /// requested, and the package that was found.
    pub fn iter(&self) -> (entries: Vec<(usize, &DepArg, &Package)>)
        ensures
            is_numbering(entries@, self.0@),
    {
        let mut entries: Vec<(usize, &DepArg, &Package)> = Vec::new();
        let mut i: usize = 0;
        while i < self.0.len()
            invariant
                i <= self.0.len(),
                is_numbering(entries@, self.0@.take(i as int)),
            decreases self.0.len() - i,
        {
            entries.push((i, &self.0[i].user, &self.0[i].auto));
            i += 1;
        }
        assert(self.0@.take(i as int) =~= self.0@);
        entries
    }
}

} // verus!
