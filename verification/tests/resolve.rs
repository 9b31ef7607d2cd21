use gen_bin_project::dependency::{Dep, DepArg, DepArgs, Deps, Package};
use gen_bin_project::failure::Failure;

fn spec(path: &str, handler: &str, ns: &str) -> DepArg {
    DepArg { path: path.to_string(), handler: handler.to_string(), ns: ns.to_string() }
}

fn package(name: &str, version: &str) -> Package {
    Package { name: name.to_string(), version: version.to_string() }
}

#[test]
fn every_dependency_is_paired_with_its_package() {
    let specs = DepArgs(vec![spec("a", "H1", "beta"), spec("b", "H2", "alpha")]);
    let found = vec![Some(package("pkg-a", "1.0.0")), Some(package("pkg-b", "2.0.0"))];
    let deps = specs.read_metadata(found).unwrap();
    let expected = Deps(vec![
        Dep { user: spec("b", "H2", "alpha"), auto: package("pkg-b", "2.0.0") },
        Dep { user: spec("a", "H1", "beta"), auto: package("pkg-a", "1.0.0") },
    ]);
    assert_eq!(deps, expected);
}

#[test]
fn an_empty_list_resolves_to_an_empty_set() {
    assert_eq!(DepArgs(Vec::new()).read_metadata(Vec::new()).unwrap(), Deps(Vec::new()));
    let spare = vec![Some(package("unused", "1"))];
    assert_eq!(DepArgs(Vec::new()).read_metadata(spare).unwrap(), Deps(Vec::new()));
}

#[test]
fn one_missing_descriptor_fails_the_whole_resolution() {
    let specs = DepArgs(vec![spec("a", "A", "x"), spec("b", "B", "y"), spec("c", "C", "z")]);
    let found = vec![Some(package("pa", "1")), None, Some(package("pc", "1"))];
    assert_eq!(specs.read_metadata(found).unwrap_err(), Failure::Resolution { index: 1 });
}

#[test]
fn the_first_missing_descriptor_is_reported() {
    let specs = DepArgs(vec![spec("a", "A", "x"), spec("b", "B", "y"), spec("c", "C", "z")]);
    let found = vec![None, None, Some(package("pc", "1"))];
    assert_eq!(specs.read_metadata(found).unwrap_err(), Failure::Resolution { index: 0 });
    let specs = DepArgs(vec![spec("a", "A", "x"), spec("b", "B", "y"), spec("c", "C", "z")]);
    let found = vec![Some(package("pa", "1")), Some(package("pb", "1")), None];
    assert_eq!(specs.read_metadata(found).unwrap_err(), Failure::Resolution { index: 2 });
}

#[test]
fn a_descriptor_that_was_never_read_counts_as_missing() {
    let specs = DepArgs(vec![spec("a", "A", "x"), spec("b", "B", "y")]);
    let found = vec![Some(package("pa", "1"))];
    assert_eq!(specs.read_metadata(found).unwrap_err(), Failure::Resolution { index: 1 });
    let specs = DepArgs(vec![spec("a", "A", "x")]);
    assert_eq!(specs.read_metadata(Vec::new()).unwrap_err(), Failure::Resolution { index: 0 });
}

#[test]
fn a_list_cut_short_behind_the_failure_is_enough() {
    let specs = DepArgs(vec![spec("a", "A", "x"), spec("b", "B", "y"), spec("c", "C", "z")]);
    let found = vec![Some(package("pa", "1")), None];
    assert_eq!(specs.read_metadata(found).unwrap_err(), Failure::Resolution { index: 1 });
}

#[test]
fn duplicate_namespaces_are_accepted_in_input_order() {
    let specs = DepArgs(vec![spec("one", "A", "same"), spec("two", "B", "same")]);
    let found = vec![Some(package("one-pkg", "1")), Some(package("two-pkg", "1"))];
    let deps = specs.read_metadata(found).unwrap();
    assert_eq!(deps.0[0].user.path, "one");
    assert_eq!(deps.0[0].auto.name, "one-pkg");
    assert_eq!(deps.0[1].user.path, "two");
    assert_eq!(deps.0[1].auto.name, "two-pkg");
}

#[test]
fn paths_are_listed_in_input_order() {
    let specs = DepArgs(vec![spec("z", "A", "x"), spec("a", "B", "y"), spec("m", "C", "w")]);
    assert_eq!(specs.paths(), vec!["z", "a", "m"]);
    assert!(DepArgs(Vec::new()).paths().is_empty());
}

#[test]
fn a_stored_snapshot_is_read_in_canonical_order() {
    let stored = Deps(vec![
        Dep { user: spec("a", "H1", "beta"), auto: package("pa", "1") },
        Dep { user: spec("b", "H2", "alpha"), auto: package("pb", "1") },
    ]);
    let last = Deps::read_last(Some(stored)).unwrap();
    assert_eq!(last.0[0].user.ns, "alpha");
    assert_eq!(last.0[1].user.ns, "beta");
    assert!(Deps::read_last(None).is_none());
}

#[test]
fn a_snapshot_of_a_canonical_set_reads_back_as_that_set() {
    let specs = DepArgs(vec![spec("a", "H1", "beta"), spec("b", "H2", "alpha")]);
    let found = vec![Some(package("pa", "1")), Some(package("pb", "1"))];
    let deps = specs.read_metadata(found).unwrap();
    let last = Deps::read_last(Some(deps.clone())).unwrap();
    assert_eq!(last, deps);
}
