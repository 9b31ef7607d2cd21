use gen_bin_project::dependency::{Dep, DepArg, Deps, Package};
use gen_bin_project::order::namespace_le;

fn dep(path: &str, handler: &str, ns: &str, name: &str) -> Dep {
    Dep {
        user: DepArg { path: path.to_string(), handler: handler.to_string(), ns: ns.to_string() },
        auto: Package { name: name.to_string(), version: "0.1.0".to_string() },
    }
}

fn namespaces(deps: &Deps) -> Vec<String> {
    deps.0.iter().map(|d| d.user.ns.clone()).collect()
}

fn paths(deps: &Deps) -> Vec<String> {
    deps.0.iter().map(|d| d.user.path.clone()).collect()
}

#[test]
fn beta_and_alpha_sort_to_alpha_then_beta() {
    let sorted = Deps(vec![dep("a", "H1", "beta", "pa"), dep("b", "H2", "alpha", "pb")]).sort();
    assert_eq!(namespaces(&sorted), vec!["alpha", "beta"]);
    assert_eq!(paths(&sorted), vec!["b", "a"]);
    assert_eq!(sorted.0[0], dep("b", "H2", "alpha", "pb"));
    assert_eq!(sorted.0[1], dep("a", "H1", "beta", "pa"));
}

#[test]
fn the_other_input_order_sorts_to_the_same_set() {
    let one = Deps(vec![dep("a", "H1", "beta", "pa"), dep("b", "H2", "alpha", "pb")]).sort();
    let other = Deps(vec![dep("b", "H2", "alpha", "pb"), dep("a", "H1", "beta", "pa")]).sort();
    assert_eq!(one, other);
}

#[test]
fn every_order_of_three_sorts_to_the_same_set() {
    let x = || dep("x", "X", "gamma", "px");
    let y = || dep("y", "Y", "alpha", "py");
    let z = || dep("z", "Z", "beta", "pz");
    let expected = Deps(vec![y(), z(), x()]);
    assert_eq!(Deps(vec![x(), y(), z()]).sort(), expected);
    assert_eq!(Deps(vec![x(), z(), y()]).sort(), expected);
    assert_eq!(Deps(vec![y(), x(), z()]).sort(), expected);
    assert_eq!(Deps(vec![y(), z(), x()]).sort(), expected);
    assert_eq!(Deps(vec![z(), x(), y()]).sort(), expected);
    assert_eq!(Deps(vec![z(), y(), x()]).sort(), expected);
}

#[test]
fn sorting_an_empty_set_gives_an_empty_set() {
    assert_eq!(Deps(Vec::new()).sort(), Deps(Vec::new()));
}

#[test]
fn sorting_a_sorted_set_changes_nothing() {
    let sorted = Deps(vec![dep("b", "H2", "alpha", "pb"), dep("a", "H1", "beta", "pa")]);
    let again = Deps(vec![dep("b", "H2", "alpha", "pb"), dep("a", "H1", "beta", "pa")]).sort();
    assert_eq!(again, sorted);
    assert_eq!(again.sort(), sorted);
}

#[test]
fn a_shared_namespace_keeps_the_input_order() {
    let sorted = Deps(vec![
        dep("late", "L", "zeta", "pl"),
        dep("first", "A", "same", "one-pkg"),
        dep("second", "B", "same", "two-pkg"),
        dep("third", "C", "same", "three-pkg"),
        dep("early", "E", "alpha", "pe"),
    ]).sort();
    assert_eq!(paths(&sorted), vec!["early", "first", "second", "third", "late"]);
}

#[test]
fn a_shared_namespace_in_the_other_order_stays_in_that_order() {
    let sorted = Deps(vec![
        dep("second", "B", "same", "two-pkg"),
        dep("first", "A", "same", "one-pkg"),
    ]).sort();
    assert_eq!(paths(&sorted), vec!["second", "first"]);
}

#[test]
fn sorting_keeps_every_dependency() {
    let sorted = Deps(vec![
        dep("1", "A", "d", "p"),
        dep("2", "B", "c", "p"),
        dep("3", "C", "b", "p"),
        dep("4", "D", "a", "p"),
        dep("5", "E", "c", "p"),
    ]).sort();
    assert_eq!(sorted.0.len(), 5);
    assert_eq!(namespaces(&sorted), vec!["a", "b", "c", "c", "d"]);
    assert_eq!(paths(&sorted), vec!["4", "3", "2", "5", "1"]);
}

#[test]
fn namespaces_compare_as_strings_do() {
    assert!(namespace_le("alpha", "beta"));
    assert!(!namespace_le("beta", "alpha"));
    assert!(namespace_le("alpha", "alpha"));
    assert!(namespace_le("", "a"));
    assert!(!namespace_le("a", ""));
    assert!(namespace_le("", ""));
    assert!(namespace_le("ab", "abc"));
    assert!(!namespace_le("abc", "ab"));
    assert!(namespace_le("Z", "a"));
    assert!(!namespace_le("a", "Z"));
    assert!(namespace_le("a10", "a9"));
    assert!(namespace_le("z", "\u{e9}"));
    assert!(namespace_le("\u{e9}", "\u{4e2d}"));
    assert!(!namespace_le("\u{1f600}", "\u{4e2d}"));
}

#[test]
fn namespace_order_agrees_with_the_order_of_str() {
    let samples = ["", "a", "A", "ab", "b", "alpha", "beta", "\u{e9}", "\u{4e2d}", "a\u{0}", "~"];
    for x in samples.iter() {
        for y in samples.iter() {
            assert_eq!(namespace_le(x, y), x <= y);
        }
    }
}

#[test]
fn iter_numbers_the_dependencies_by_position() {
    let deps = Deps(vec![dep("b", "H2", "alpha", "pb"), dep("a", "H1", "beta", "pa")]);
    let entries = deps.iter();
    assert_eq!(entries.len(), 2);
    assert_eq!(entries[0].0, 0);
    assert_eq!(entries[0].1.path, "b");
    assert_eq!(entries[0].2.name, "pb");
    assert_eq!(entries[1].0, 1);
    assert_eq!(entries[1].1.ns, "beta");
    assert_eq!(entries[1].2.name, "pa");
    assert!(Deps(Vec::new()).iter().is_empty());
}

#[test]
fn equality_looks_at_every_field() {
    let base = dep("a", "H", "ns", "p");
    assert_eq!(base, dep("a", "H", "ns", "p"));
    assert_ne!(base, dep("x", "H", "ns", "p"));
    assert_ne!(base, dep("a", "X", "ns", "p"));
    assert_ne!(base, dep("a", "H", "xx", "p"));
    assert_ne!(base, dep("a", "H", "ns", "x"));
    let mut other = dep("a", "H", "ns", "p");
    other.auto.version = "9.9.9".to_string();
    assert_ne!(base, other);
    assert_ne!(Deps(vec![dep("a", "H", "ns", "p")]), Deps(Vec::new()));
    assert_eq!(base.clone(), base);
    let set = Deps(vec![dep("a", "H", "ns", "p"), dep("b", "G", "nt", "q")]);
    assert_eq!(set.clone(), set);
}
