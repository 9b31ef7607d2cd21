use gen_bin_project::artifacts::{create_bin_content, Step};
use gen_bin_project::dependency::{Dep, DepArg, DepArgs, Deps, Package};
use gen_bin_project::failure::Failure;
use gen_bin_project::pipeline::{
    build, Action, Event, Pipeline, Stage, BUILD_ARGUMENTS, BUILD_PROGRAM,
};

fn spec(path: &str, handler: &str, ns: &str) -> DepArg {
    DepArg { path: path.to_string(), handler: handler.to_string(), ns: ns.to_string() }
}

fn package(name: &str) -> Package {
    Package { name: name.to_string(), version: "0.1.0".to_string() }
}

fn specs() -> DepArgs {
    DepArgs(vec![spec("a", "H1", "beta"), spec("b", "H2", "alpha")])
}

fn found() -> Vec<Option<Package>> {
    vec![Some(package("pa")), Some(package("pb"))]
}

fn resolved() -> Deps {
    Deps(vec![
        Dep { user: spec("b", "H2", "alpha"), auto: package("pb") },
        Dep { user: spec("a", "H1", "beta"), auto: package("pa") },
    ])
}

/// What surrounds an invocation in these tests, and what happened to it.
struct World {
    specs: Option<DepArgs>,
    found: Vec<Option<Package>>,
    snapshot: Option<Deps>,
    writable: bool,
    build: Option<bool>,
    recordable: bool,
    writes: usize,
    builds: usize,
    records: usize,
}

impl World {
    fn new(snapshot: Option<Deps>, build: Option<bool>) -> World {
        World {
            specs: Some(specs()),
            found: found(),
            snapshot,
            writable: true,
            build,
            recordable: true,
            writes: 0,
            builds: 0,
            records: 0,
        }
    }

    fn run(&mut self, check_changes: bool) -> Result<(), Failure> {
        let (mut state, mut action) = Pipeline::start(check_changes);
        for _ in 0..10 {
            let event = match action {
                Action::Load => Event::Specs(self.specs.as_ref().map(|s| DepArgs(s.0.clone()))),
                Action::Resolve(_) => Event::Packages(self.found.clone()),
                Action::ReadSnapshot => Event::Snapshot(self.snapshot.clone()),
                Action::Write(_) => {
                    self.writes += 1;
                    Event::Written(self.writable)
                }
                Action::RunBuild => {
                    self.builds += 1;
                    Event::Built(self.build)
                }
                Action::Record(deps) => {
                    self.records += 1;
                    if self.recordable {
                        self.snapshot = Some(deps);
                    }
                    Event::Recorded(self.recordable)
                }
                Action::Finish(result) => return result,
            };
            let step = build(state, event);
            state = step.0;
            action = step.1;
        }
        panic!("the invocation did not end");
    }
}

#[test]
fn an_invocation_starts_by_loading_the_list() {
    let (state, action) = Pipeline::start(true);
    assert!(state.check_changes);
    assert!(matches!(state.stage, Stage::Loading));
    assert!(matches!(action, Action::Load));
    let (state, _) = Pipeline::start(false);
    assert!(!state.check_changes);
}

#[test]
fn a_list_that_cannot_be_parsed_ends_with_a_format_failure() {
    let (state, _) = Pipeline::start(true);
    let (state, action) = build(state, Event::Specs(None));
    assert!(matches!(state.stage, Stage::Done));
    assert!(matches!(action, Action::Finish(Err(Failure::Format))));
}

#[test]
fn a_parsed_list_asks_for_the_packages_at_its_paths() {
    let (state, _) = Pipeline::start(false);
    let (state, action) = build(state, Event::Specs(Some(specs())));
    match state.stage {
        Stage::Resolving(list) => assert_eq!(list.0, specs().0),
        other => panic!("unexpected stage {:?}", other),
    }
    match action {
        Action::Resolve(paths) => assert_eq!(paths, vec!["a", "b"]),
        other => panic!("unexpected action {:?}", other),
    }
}

#[test]
fn an_unresolved_dependency_ends_with_a_resolution_failure() {
    let state = Pipeline { check_changes: true, stage: Stage::Resolving(specs()) };
    let (state, action) = build(state, Event::Packages(vec![Some(package("pa")), None]));
    assert!(matches!(state.stage, Stage::Done));
    assert!(matches!(action, Action::Finish(Err(Failure::Resolution { index: 1 }))));
}

#[test]
fn with_change_checking_resolution_asks_for_the_snapshot() {
    let state = Pipeline { check_changes: true, stage: Stage::Resolving(specs()) };
    let (state, action) = build(state, Event::Packages(found()));
    match state.stage {
        Stage::Comparing(deps) => assert_eq!(deps, resolved()),
        other => panic!("unexpected stage {:?}", other),
    }
    assert!(matches!(action, Action::ReadSnapshot));
}

#[test]
fn without_change_checking_resolution_goes_on_to_writing() {
    let state = Pipeline { check_changes: false, stage: Stage::Resolving(specs()) };
    let (state, action) = build(state, Event::Packages(found()));
    match state.stage {
        Stage::Writing(deps) => assert_eq!(deps, resolved()),
        other => panic!("unexpected stage {:?}", other),
    }
    match action {
        Action::Write(steps) => {
            assert_eq!(steps.len(), 4);
            match &steps[1] {
                Step::WriteFile { path, content } => {
                    assert_eq!(path, "Cargo.toml");
                    assert_eq!(content, &resolved().bin_cargo_toml());
                }
                other => panic!("unexpected step {:?}", other),
            }
        }
        other => panic!("unexpected action {:?}", other),
    }
}

#[test]
fn an_unchanged_snapshot_ends_the_invocation() {
    let state = Pipeline { check_changes: true, stage: Stage::Comparing(resolved()) };
    let (state, action) = build(state, Event::Snapshot(Some(resolved())));
    assert!(matches!(state.stage, Stage::Done));
    assert!(matches!(action, Action::Finish(Ok(()))));
}

#[test]
fn a_snapshot_stored_in_another_order_counts_as_unchanged() {
    let stored = Deps(vec![
        Dep { user: spec("a", "H1", "beta"), auto: package("pa") },
        Dep { user: spec("b", "H2", "alpha"), auto: package("pb") },
    ]);
    let state = Pipeline { check_changes: true, stage: Stage::Comparing(resolved()) };
    let (_, action) = build(state, Event::Snapshot(Some(stored)));
    assert!(matches!(action, Action::Finish(Ok(()))));
}

#[test]
fn a_missing_snapshot_goes_on_to_writing() {
    let state = Pipeline { check_changes: true, stage: Stage::Comparing(resolved()) };
    let (state, action) = build(state, Event::Snapshot(None));
    assert!(matches!(state.stage, Stage::Writing(_)));
    assert!(matches!(action, Action::Write(_)));
}

#[test]
fn a_snapshot_that_differs_in_one_field_goes_on_to_writing() {
    let mut stored = resolved();
    stored.0[1].auto.version = "0.2.0".to_string();
    let state = Pipeline { check_changes: true, stage: Stage::Comparing(resolved()) };
    let (_, action) = build(state, Event::Snapshot(Some(stored)));
    assert!(matches!(action, Action::Write(_)));
    let mut stored = resolved();
    stored.0.pop();
    let state = Pipeline { check_changes: true, stage: Stage::Comparing(resolved()) };
    let (_, action) = build(state, Event::Snapshot(Some(stored)));
    assert!(matches!(action, Action::Write(_)));
}

#[test]
fn written_artifacts_are_built() {
    let state = Pipeline { check_changes: true, stage: Stage::Writing(resolved()) };
    let (state, action) = build(state, Event::Written(true));
    assert!(matches!(state.stage, Stage::Building(_)));
    assert!(matches!(action, Action::RunBuild));
}

#[test]
fn artifacts_that_cannot_be_written_end_with_an_io_failure() {
    let state = Pipeline { check_changes: true, stage: Stage::Writing(resolved()) };
    let (state, action) = build(state, Event::Written(false));
    assert!(matches!(state.stage, Stage::Done));
    assert!(matches!(action, Action::Finish(Err(Failure::Io))));
}

#[test]
fn a_successful_build_records_the_set() {
    let state = Pipeline { check_changes: false, stage: Stage::Building(resolved()) };
    let (state, action) = build(state, Event::Built(Some(true)));
    assert!(matches!(state.stage, Stage::Recording));
    match action {
        Action::Record(deps) => assert_eq!(deps, resolved()),
        other => panic!("unexpected action {:?}", other),
    }
}

#[test]
fn a_failed_build_ends_with_success_and_records_nothing() {
    let state = Pipeline { check_changes: false, stage: Stage::Building(resolved()) };
    let (state, action) = build(state, Event::Built(Some(false)));
    assert!(matches!(state.stage, Stage::Done));
    assert!(matches!(action, Action::Finish(Ok(()))));
}

#[test]
fn a_build_that_cannot_be_started_ends_with_a_build_failure() {
    let state = Pipeline { check_changes: false, stage: Stage::Building(resolved()) };
    let (state, action) = build(state, Event::Built(None));
    assert!(matches!(state.stage, Stage::Done));
    assert!(matches!(action, Action::Finish(Err(Failure::Build))));
}

#[test]
fn a_recorded_snapshot_ends_with_success() {
    let state = Pipeline { check_changes: false, stage: Stage::Recording };
    let (state, action) = build(state, Event::Recorded(true));
    assert!(matches!(state.stage, Stage::Done));
    assert!(matches!(action, Action::Finish(Ok(()))));
}

#[test]
fn a_snapshot_that_cannot_be_written_ends_with_an_io_failure() {
    let state = Pipeline { check_changes: false, stage: Stage::Recording };
    let (_, action) = build(state, Event::Recorded(false));
    assert!(matches!(action, Action::Finish(Err(Failure::Io))));
}

#[test]
fn a_report_out_of_turn_ends_the_invocation() {
    let (state, _) = Pipeline::start(true);
    let (state, action) = build(state, Event::Written(true));
    assert!(matches!(state.stage, Stage::Done));
    assert!(matches!(action, Action::Finish(Err(Failure::OutOfTurn))));
    let (_, action) = build(state, Event::Specs(Some(specs())));
    assert!(matches!(action, Action::Finish(Err(Failure::OutOfTurn))));
    let state = Pipeline { check_changes: false, stage: Stage::Recording };
    let (_, action) = build(state, Event::Built(Some(true)));
    assert!(matches!(action, Action::Finish(Err(Failure::OutOfTurn))));
    let state = Pipeline { check_changes: false, stage: Stage::Building(resolved()) };
    let (_, action) = build(state, Event::Recorded(true));
    assert!(matches!(action, Action::Finish(Err(Failure::OutOfTurn))));
}

#[test]
fn the_first_invocation_writes_builds_and_records() {
    let mut world = World::new(None, Some(true));
    assert_eq!(world.run(true), Ok(()));
    assert_eq!((world.writes, world.builds, world.records), (1, 1, 1));
    assert_eq!(world.snapshot, Some(resolved()));
}

#[test]
fn a_second_invocation_over_an_unchanged_set_does_nothing() {
    let mut world = World::new(None, Some(true));
    assert_eq!(world.run(true), Ok(()));
    assert_eq!(world.run(true), Ok(()));
    assert_eq!((world.writes, world.builds, world.records), (1, 1, 1));
    assert_eq!(world.snapshot, Some(resolved()));
}

#[test]
fn a_second_invocation_over_the_list_in_another_order_does_nothing() {
    let mut world = World::new(None, Some(true));
    assert_eq!(world.run(true), Ok(()));
    world.specs = Some(DepArgs(vec![spec("b", "H2", "alpha"), spec("a", "H1", "beta")]));
    world.found = vec![Some(package("pb")), Some(package("pa"))];
    assert_eq!(world.run(true), Ok(()));
    assert_eq!((world.writes, world.builds, world.records), (1, 1, 1));
}

#[test]
fn without_change_checking_an_unchanged_set_is_built_again() {
    let mut world = World::new(None, Some(true));
    assert_eq!(world.run(false), Ok(()));
    assert_eq!(world.run(false), Ok(()));
    assert_eq!((world.writes, world.builds, world.records), (2, 2, 2));
}

#[test]
fn a_failed_build_is_retried_by_the_next_invocation() {
    let mut world = World::new(None, Some(false));
    assert_eq!(world.run(true), Ok(()));
    assert_eq!((world.writes, world.builds, world.records), (1, 1, 0));
    assert_eq!(world.snapshot, None);
    assert_eq!(world.run(true), Ok(()));
    assert_eq!((world.writes, world.builds, world.records), (2, 2, 0));
    world.build = Some(true);
    assert_eq!(world.run(true), Ok(()));
    assert_eq!((world.writes, world.builds, world.records), (3, 3, 1));
    assert_eq!(world.run(true), Ok(()));
    assert_eq!((world.writes, world.builds, world.records), (3, 3, 1));
}

#[test]
fn a_failed_build_keeps_the_older_snapshot() {
    let older = Deps(vec![Dep { user: spec("old", "H", "old"), auto: package("po") }]);
    let mut world = World::new(Some(older.clone()), Some(false));
    assert_eq!(world.run(true), Ok(()));
    assert_eq!((world.writes, world.builds, world.records), (1, 1, 0));
    assert_eq!(world.snapshot, Some(older));
    assert_eq!(world.run(true), Ok(()));
    assert_eq!((world.writes, world.builds, world.records), (2, 2, 0));
}

#[test]
fn a_failed_build_over_a_matching_snapshot_is_skipped_by_a_checking_invocation() {
    let mut world = World::new(Some(resolved()), Some(false));
    assert_eq!(world.run(false), Ok(()));
    assert_eq!((world.writes, world.builds, world.records), (1, 1, 0));
    assert_eq!(world.snapshot, Some(resolved()));
    assert_eq!(world.run(true), Ok(()));
    assert_eq!((world.writes, world.builds, world.records), (1, 1, 0));
    assert_eq!(world.run(false), Ok(()));
    assert_eq!((world.writes, world.builds, world.records), (2, 2, 0));
}

#[test]
fn a_changed_set_is_built_again() {
    let mut world = World::new(None, Some(true));
    assert_eq!(world.run(true), Ok(()));
    world.found = vec![Some(package("pa")), Some(package("renamed"))];
    assert_eq!(world.run(true), Ok(()));
    assert_eq!((world.writes, world.builds, world.records), (2, 2, 2));
}

#[test]
fn an_empty_list_is_still_built() {
    let mut world = World::new(None, Some(true));
    world.specs = Some(DepArgs(Vec::new()));
    world.found = Vec::new();
    assert_eq!(world.run(true), Ok(()));
    assert_eq!((world.writes, world.builds, world.records), (1, 1, 1));
    assert_eq!(world.snapshot, Some(Deps(Vec::new())));
    assert_eq!(world.run(true), Ok(()));
    assert_eq!((world.writes, world.builds, world.records), (1, 1, 1));
}

#[test]
fn failures_before_the_build_leave_everything_as_it_is() {
    let mut world = World::new(None, Some(true));
    world.specs = None;
    assert_eq!(world.run(true), Err(Failure::Format));
    assert_eq!((world.writes, world.builds, world.records), (0, 0, 0));
    let mut world = World::new(None, Some(true));
    world.found = vec![None];
    assert_eq!(world.run(true), Err(Failure::Resolution { index: 0 }));
    assert_eq!((world.writes, world.builds, world.records), (0, 0, 0));
    assert_eq!(world.snapshot, None);
}

#[test]
fn failures_of_the_surroundings_are_reported() {
    let mut world = World::new(None, Some(true));
    world.writable = false;
    assert_eq!(world.run(false), Err(Failure::Io));
    assert_eq!((world.writes, world.builds, world.records), (1, 0, 0));
    let mut world = World::new(None, None);
    assert_eq!(world.run(false), Err(Failure::Build));
    assert_eq!((world.writes, world.builds, world.records), (1, 1, 0));
    let mut world = World::new(None, Some(true));
    world.recordable = false;
    assert_eq!(world.run(false), Err(Failure::Io));
    assert_eq!((world.writes, world.builds, world.records), (1, 1, 1));
    assert_eq!(world.snapshot, None);
}

#[test]
fn artifacts_are_laid_down_in_order() {
    let deps = resolved();
    let steps = create_bin_content(&deps);
    assert_eq!(steps.len(), 4);
    match &steps[0] {
        Step::MakeDir { path } => assert_eq!(path, ""),
        other => panic!("unexpected step {:?}", other),
    }
    match &steps[1] {
        Step::WriteFile { path, content } => {
            assert_eq!(path, "Cargo.toml");
            assert_eq!(content, &deps.bin_cargo_toml());
        }
        other => panic!("unexpected step {:?}", other),
    }
    match &steps[2] {
        Step::MakeDir { path } => assert_eq!(path, "src"),
        other => panic!("unexpected step {:?}", other),
    }
    match &steps[3] {
        Step::WriteFile { path, content } => {
            assert_eq!(path, "src/main.rs");
            assert_eq!(content, &deps.bin_main_rs());
        }
        other => panic!("unexpected step {:?}", other),
    }
}

#[test]
fn the_build_command_is_an_optimised_cargo_build() {
    assert_eq!(BUILD_PROGRAM, "cargo");
    assert_eq!(BUILD_ARGUMENTS, ["build", "--release"]);
}
