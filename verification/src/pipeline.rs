//! The decisions of one invocation. The caller does the outside work:
//! [`Pipeline::start`] and [`build`] say what to do next, and the caller
//! reports back what came of it.

use vstd::prelude::*;
use crate::artifacts::{Step, StepView, bin_content, create_bin_content, step_views};
use crate::dependency::{DepArgView, DepArgs, DepView, Deps, Package, PackageView};
use crate::failure::Failure;
use crate::resolve::{found_views, resolution};
use crate::snapshot::{last_deps, stored_view};

verus! {

/// How far an invocation has come, and what it carries along.
#[derive(Debug)]
pub enum Stage {
    /// Waiting for the list of requested dependencies.
    Loading,
    /// Waiting for the packages of the listed dependencies.
    Resolving(DepArgs),
    /// Waiting for the snapshot of the last successful build.
    Comparing(Deps),
    /// Waiting for the artifacts to be written.
    Writing(Deps),
    /// Waiting for the build command to end.
    Building(Deps),
    /// Waiting for the new snapshot to be written.
    Recording,
    /// Nothing is left to do.
    Done,
}

/// Mathematical value of a [`Stage`].
pub enum StageView {
    Loading,
    Resolving(Seq<DepArgView>),
    Comparing(Seq<DepView>),
    Writing(Seq<DepView>),
    Building(Seq<DepView>),
    Recording,
    Done,
}

impl View for Stage {
    type V = StageView;

    open spec fn view(&self) -> StageView {
        match self {
            Stage::Loading => StageView::Loading,
            Stage::Resolving(specs) => StageView::Resolving(specs@),
            Stage::Comparing(deps) => StageView::Comparing(deps@),
            Stage::Writing(deps) => StageView::Writing(deps@),
            Stage::Building(deps) => StageView::Building(deps@),
            Stage::Recording => StageView::Recording,
            Stage::Done => StageView::Done,
        }
    }
}

/// One invocation under way.
#[derive(Debug)]
pub struct Pipeline {
    /// Whether an unchanged dependency set ends the invocation early.
    pub check_changes: bool,
    pub stage: Stage,
}

/// Mathematical value of a [`Pipeline`].
pub struct PipelineView {
    pub check_changes: bool,
    pub stage: StageView,
}

impl View for Pipeline {
    type V = PipelineView;

    open spec fn view(&self) -> PipelineView {
        PipelineView { check_changes: self.check_changes, stage: self.stage@ }
    }
}

/// What the caller reports back.
#[derive(Debug)]
pub enum Event {
    /// The list of requested dependencies, or `None` where it could not be
    /// parsed.
    Specs(Option<DepArgs>),
    /// By position, the package of each listed dependency, or `None` where
    /// its descriptor could not be read.
    Packages(Vec<Option<Package>>),
    /// The stored snapshot, or `None` where there is none or it could not
    /// be parsed.
    Snapshot(Option<Deps>),
    /// Whether every step of laying down the artifacts succeeded.
    Written(bool),
    /// Whether the build command succeeded, or `None` where it could not be
    /// started.
    Built(Option<bool>),
    /// Whether the new snapshot was written.
    Recorded(bool),
}

/// Mathematical value of an [`Event`].
pub enum EventView {
    Specs(Option<Seq<DepArgView>>),
    Packages(Seq<Option<PackageView>>),
    Snapshot(Option<Seq<DepView>>),
    Written(bool),
    Built(Option<bool>),
    Recorded(bool),
}

/// The view of a list that may be missing.
pub open spec fn specs_view(specs: Option<DepArgs>) -> Option<Seq<DepArgView>> {
    match specs {
        Some(list) => Some(list@),
        None => None,
    }
}

impl View for Event {
    type V = EventView;

    open spec fn view(&self) -> EventView {
        match self {
            Event::Specs(specs) => EventView::Specs(specs_view(*specs)),
            Event::Packages(found) => EventView::Packages(found_views(found@)),
            Event::Snapshot(stored) => EventView::Snapshot(stored_view(*stored)),
            Event::Written(done) => EventView::Written(*done),
            Event::Built(exit) => EventView::Built(*exit),
            Event::Recorded(done) => EventView::Recorded(*done),
        }
    }
}

/// The program that builds the dispatcher project.
pub const BUILD_PROGRAM: &'static str = "cargo";

/// The arguments that the build program is run with: an optimised build.
pub const BUILD_ARGUMENTS: [&'static str; 2] = ["build", "--release"];

/// What the caller is to do next.
#[derive(Debug)]
pub enum Action {
    /// Parse the list of requested dependencies and report
    /// [`Event::Specs`].
    Load,
    /// Read the package descriptor at each of these paths, in this order and
    /// up to the first that fails, and report [`Event::Packages`].
    Resolve(Vec<String>),
    /// Read the stored snapshot and report [`Event::Snapshot`].
    ReadSnapshot,
    /// Take these steps in the target directory, up to the first that
    /// fails, and report [`Event::Written`].
    Write(Vec<Step>),
    /// Run [`BUILD_PROGRAM`] with [`BUILD_ARGUMENTS`] in the target
    /// directory, wait for it, and report [`Event::Built`].
    RunBuild,
    /// Store this set as the snapshot and report [`Event::Recorded`].
    Record(Deps),
    /// End the invocation with this result.
    Finish(Result<(), Failure>),
}

/// Mathematical value of an [`Action`].
pub enum ActionView {
    Load,
    Resolve(Seq<Seq<char>>),
    ReadSnapshot,
    Write(Seq<StepView>),
    RunBuild,
    Record(Seq<DepView>),
    Finish(Result<(), Failure>),
}

/// The view of each path, in the same order.
pub open spec fn path_views(paths: Seq<String>) -> Seq<Seq<char>> {
    paths.map_values(|path: String| path@)
}

impl View for Action {
    type V = ActionView;

    open spec fn view(&self) -> ActionView {
        match self {
            Action::Load => ActionView::Load,
            Action::Resolve(paths) => ActionView::Resolve(path_views(paths@)),
            Action::ReadSnapshot => ActionView::ReadSnapshot,
            Action::Write(steps) => ActionView::Write(step_views(steps@)),
            Action::RunBuild => ActionView::RunBuild,
            Action::Record(deps) => ActionView::Record(deps@),
            Action::Finish(result) => ActionView::Finish(*result),
        }
    }
}

/// The paths of the listed dependencies, in the order of the list.
pub open spec fn paths_of(specs: Seq<DepArgView>) -> Seq<Seq<char>> {
    specs.map_values(|spec: DepArgView| spec.path)
}

/// The invocation in a stage, and what the caller is to do in it.
pub open spec fn step_to(check_changes: bool, stage: StageView, action: ActionView) -> (
    PipelineView,
    ActionView,
) {
    (PipelineView { check_changes, stage }, action)
}

/// The invocation at its end, with the result to end on.
pub open spec fn finished(check_changes: bool, result: Result<(), Failure>) -> (
    PipelineView,
    ActionView,
) {
    step_to(check_changes, StageView::Done, ActionView::Finish(result))
}

/// The invocation on its way to writing the artifacts of `deps`.
pub open spec fn writing(check_changes: bool, deps: Seq<DepView>) -> (PipelineView, ActionView) {
    step_to(check_changes, StageView::Writing(deps), ActionView::Write(bin_content(deps)))
}

/// The rule of the invocation: where it goes from `state` when the caller
/// reports `event`, and what the caller is to do then.
///
/// A list that cannot be parsed, a dependency without a package, a step of
/// laying down the artifacts that fails, a build command that cannot be
/// started and a snapshot that cannot be written each end the invocation
/// with their failure. With change-checking, a snapshot that holds the
/// resolved set ends it with success before anything is written. A build
/// command that fails ends it with success too, and without a new
/// snapshot. A report that the stage was not waiting for ends it with
/// [`Failure::OutOfTurn`].
pub open spec fn next(state: PipelineView, event: EventView) -> (PipelineView, ActionView) {
    let check = state.check_changes;
    match (state.stage, event) {
        (StageView::Loading, EventView::Specs(Some(specs))) => step_to(
            check,
            StageView::Resolving(specs),
            ActionView::Resolve(paths_of(specs)),
        ),
        (StageView::Loading, EventView::Specs(None)) => finished(check, Err(Failure::Format)),
        (StageView::Resolving(specs), EventView::Packages(found)) => match resolution(
            specs,
            found,
        ) {
            Ok(deps) => if check {
                step_to(check, StageView::Comparing(deps), ActionView::ReadSnapshot)
            } else {
                writing(check, deps)
            },
            Err(failure) => finished(check, Err(failure)),
        },
        (StageView::Comparing(deps), EventView::Snapshot(stored)) => if last_deps(stored) == Some(
            deps,
        ) {
            finished(check, Ok(()))
        } else {
            writing(check, deps)
        },
        (StageView::Writing(deps), EventView::Written(done)) => if done {
            step_to(check, StageView::Building(deps), ActionView::RunBuild)
        } else {
            finished(check, Err(Failure::Io))
        },
        (StageView::Building(deps), EventView::Built(Some(succeeded))) => if succeeded {
            step_to(check, StageView::Recording, ActionView::Record(deps))
        } else {
            finished(check, Ok(()))
        },
        (StageView::Building(deps), EventView::Built(None)) => finished(check, Err(Failure::Build)),
        (StageView::Recording, EventView::Recorded(done)) => if done {
            finished(check, Ok(()))
        } else {
            finished(check, Err(Failure::Io))
        },
        _ => finished(check, Err(Failure::OutOfTurn)),
    }
}

/// The invocation before anything has happened.
pub open spec fn initial(check_changes: bool) -> PipelineView {
    PipelineView { check_changes, stage: StageView::Loading }
}

fn finish(check_changes: bool, result: Result<(), Failure>) -> (step: (Pipeline, Action))
    ensures
        (step.0@, step.1@) == finished(check_changes, result),
{
    (Pipeline { check_changes, stage: Stage::Done }, Action::Finish(result))
}

fn write(check_changes: bool, deps: Deps) -> (step: (Pipeline, Action))
    ensures
        (step.0@, step.1@) == writing(check_changes, deps@),
{
    let steps = create_bin_content(&deps);
    (Pipeline { check_changes, stage: Stage::Writing(deps) }, Action::Write(steps))
}

impl Pipeline {
    /// Begins an invocation: the first thing to do is to load the list of
    /// requested dependencies.
    pub fn start(check_changes: bool) -> (step: (Pipeline, Action))
        ensures
            step.0@ == initial(check_changes),
            step.1@ == ActionView::Load,
    {
        (Pipeline { check_changes, stage: Stage::Loading }, Action::Load)
    }
}

/// Takes the invocation one step further: from `state` and what the caller
/// reports to the next state and what the caller is to do next, as
/// [`next`] says.
pub fn build(state: Pipeline, event: Event) -> (step: (Pipeline, Action))
    ensures
        (step.0@, step.1@) == next(state@, event@),
{
    let check_changes = state.check_changes;
    match (state.stage, event) {
        (Stage::Loading, Event::Specs(Some(specs))) => {
            let paths = specs.paths();
            assert(path_views(paths@) =~= paths_of(specs@));
            (Pipeline { check_changes, stage: Stage::Resolving(specs) }, Action::Resolve(paths))
        },
        (Stage::Loading, Event::Specs(None)) => finish(check_changes, Err(Failure::Format)),
        (Stage::Resolving(specs), Event::Packages(found)) => {
            match specs.read_metadata(found) {
                Ok(deps) => {
                    if check_changes {
                        (
                            Pipeline { check_changes, stage: Stage::Comparing(deps) },
                            Action::ReadSnapshot,
                        )
                    } else {
                        write(check_changes, deps)
                    }
                },
                Err(failure) => finish(check_changes, Err(failure)),
            }
        },
        (Stage::Comparing(deps), Event::Snapshot(stored)) => {
            let unchanged = match Deps::read_last(stored) {
                Some(last) => last == deps,
                None => false,
            };
            if unchanged {
                finish(check_changes, Ok(()))
            } else {
                write(check_changes, deps)
            }
        },
        (Stage::Writing(deps), Event::Written(done)) => {
            if done {
                (Pipeline { check_changes, stage: Stage::Building(deps) }, Action::RunBuild)
            } else {
                finish(check_changes, Err(Failure::Io))
            }
        },
        (Stage::Building(deps), Event::Built(Some(succeeded))) => {
            if succeeded {
                (Pipeline { check_changes, stage: Stage::Recording }, Action::Record(deps))
            } else {
                finish(check_changes, Ok(()))
            }
        },
        (Stage::Building(_), Event::Built(None)) => finish(check_changes, Err(Failure::Build)),
        (Stage::Recording, Event::Recorded(done)) => {
            if done {
                finish(check_changes, Ok(()))
            } else {
                finish(check_changes, Err(Failure::Io))
            }
        },
        _ => finish(check_changes, Err(Failure::OutOfTurn)),
    }
}

} // verus!
