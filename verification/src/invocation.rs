//! An invocation as a whole: the actions it takes when the caller performs
//! each of them and reports back, and what that means for the invocation
//! after it.

use vstd::prelude::*;
use crate::artifacts::bin_content;
use crate::canonical::{is_canonical, lemma_canonical_exists};
use crate::dependency::{DepArgView, DepView, PackageView};
use crate::failure::Failure;
use crate::pipeline::{ActionView, EventView, PipelineView, StageView, initial, next, paths_of};
use crate::resolve::{paired, resolution};
use crate::snapshot::{last_deps, lemma_snapshot_reads_back};

verus! {

/// What an invocation finds around it: what its actions come to.
pub struct Surroundings {
    /// The list of requested dependencies, or `None` where it cannot be
    /// parsed.
    pub specs: Option<Seq<DepArgView>>,
    /// By position, the package at the path of each listed dependency.
    pub packages: Seq<Option<PackageView>>,
    /// The stored snapshot.
    pub snapshot: Option<Seq<DepView>>,
    /// Whether the artifacts can be written.
    pub writable: bool,
    /// Whether the build command succeeds, or `None` where it cannot be
    /// started.
    pub build: Option<bool>,
    /// Whether a snapshot can be written.
    pub recordable: bool,
}

/// What the caller reports after an action.
pub open spec fn report(action: ActionView, around: Surroundings) -> EventView {
    match action {
        ActionView::Load => EventView::Specs(around.specs),
        ActionView::Resolve(_) => EventView::Packages(around.packages),
        ActionView::ReadSnapshot => EventView::Snapshot(around.snapshot),
        ActionView::Write(_) => EventView::Written(around.writable),
        ActionView::RunBuild => EventView::Built(around.build),
        ActionView::Record(_) => EventView::Recorded(around.recordable),
        ActionView::Finish(_) => EventView::Recorded(false),
    }
}

/// The actions from `action` on, up to the one that ends the invocation,
/// and no more than `limit` of them after the first.
#[verifier::opaque]
pub open spec fn course(
    state: PipelineView,
    action: ActionView,
    around: Surroundings,
    limit: nat,
) -> Seq<ActionView>
    decreases limit,
{
    if limit == 0 || action is Finish {
        seq![action]
    } else {
        let step = next(state, report(action, around));
        seq![action] + course(step.0, step.1, around, (limit - 1) as nat)
    }
}

/// The actions of a whole invocation. No invocation takes more than seven.
pub open spec fn invocation(check_changes: bool, around: Surroundings) -> Seq<ActionView> {
    course(initial(check_changes), ActionView::Load, around, 6)
}

/// The action is among those taken.
pub open spec fn occurs(actions: Seq<ActionView>, action: ActionView) -> bool {
    exists|i: int| 0 <= i < actions.len() && actions[i] == action
}

/// Nothing was written and nothing was built.
pub open spec fn leaves_all_as_it_is(actions: Seq<ActionView>) -> bool {
    forall|i: int|
        0 <= i < actions.len() ==> !((#[trigger] actions[i]) is Write) && !(actions[i] is RunBuild)
            && !(actions[i] is Record)
}

/// The set that the invocation asked to record, if it asked for one.
pub open spec fn recorded(actions: Seq<ActionView>) -> Option<Seq<DepView>> {
    if exists|i: int| 0 <= i < actions.len() && (#[trigger] actions[i]) is Record {
        let i = choose|i: int| 0 <= i < actions.len() && (#[trigger] actions[i]) is Record;
        Some(actions[i]->Record_0)
    } else {
        None
    }
}

/// The snapshot that is stored when the invocation has ended: the set that
/// the invocation recorded, where it recorded one and that could be
/// written, else the snapshot that was there before.
pub open spec fn snapshot_after(actions: Seq<ActionView>, around: Surroundings) -> Option<
    Seq<DepView>,
> {
    match recorded(actions) {
        Some(deps) => if around.recordable {
            Some(deps)
        } else {
            around.snapshot
        },
        None => around.snapshot,
    }
}

/// The dependency set that the surroundings resolve to.
pub open spec fn resolves_to(around: Surroundings, deps: Seq<DepView>) -> bool {
    around.specs matches Some(specs) && resolution(specs, around.packages) == Ok::<
        Seq<DepView>,
        Failure,
    >(deps)
}

/// The actions from writing the artifacts on.
pub open spec fn build_course(around: Surroundings, deps: Seq<DepView>) -> Seq<ActionView> {
    let written = seq![ActionView::Write(bin_content(deps))];
    if !around.writable {
        written.push(ActionView::Finish(Err(Failure::Io)))
    } else {
        let built = written.push(ActionView::RunBuild);
        match around.build {
            None => built.push(ActionView::Finish(Err(Failure::Build))),
            Some(false) => built.push(ActionView::Finish(Ok(()))),
            Some(true) => built.push(ActionView::Record(deps)).push(
                ActionView::Finish(
                    if around.recordable {
                        Ok(())
                    } else {
                        Err(Failure::Io)
                    },
                ),
            ),
        }
    }
}

/// Whether the invocation ends early: change-checking is on and the
/// snapshot holds the resolved set.
pub open spec fn is_skipped(check_changes: bool, around: Surroundings, deps: Seq<DepView>) -> bool {
    check_changes && last_deps(around.snapshot) == Some(deps)
}

/// The actions of an invocation that resolves its dependencies to `deps`.
pub open spec fn resolved_course(
    check_changes: bool,
    around: Surroundings,
    deps: Seq<DepView>,
) -> Seq<ActionView> {
    let opening = seq![ActionView::Load, ActionView::Resolve(paths_of(around.specs->0))];
    let compared = if check_changes {
        opening.push(ActionView::ReadSnapshot)
    } else {
        opening
    };
    if is_skipped(check_changes, around, deps) {
        compared.push(ActionView::Finish(Ok(())))
    } else {
        compared + build_course(around, deps)
    }
}

proof fn lemma_build_course(
    check_changes: bool,
    around: Surroundings,
    deps: Seq<DepView>,
    limit: nat,
)
    requires
        limit >= 3,
    ensures
        course(
            PipelineView { check_changes, stage: StageView::Writing(deps) },
            ActionView::Write(bin_content(deps)),
            around,
            limit,
        ) == build_course(around, deps),
{
    reveal_with_fuel(course, 4);
}

proof fn lemma_course_unfolds(
    state: PipelineView,
    action: ActionView,
    around: Surroundings,
    limit: nat,
)
    requires
        limit > 0,
        !(action is Finish),
    ensures
        course(state, action, around, limit) == seq![action] + course(
            next(state, report(action, around)).0,
            next(state, report(action, around)).1,
            around,
            (limit - 1) as nat,
        ),
{
    reveal(course);
}

proof fn lemma_course_ends(
    state: PipelineView,
    result: Result<(), Failure>,
    around: Surroundings,
    limit: nat,
)
    ensures
        course(state, ActionView::Finish(result), around, limit) == seq![
            ActionView::Finish(result),
        ],
{
    reveal(course);
}

proof fn lemma_compared_course(
    check_changes: bool,
    around: Surroundings,
    deps: Seq<DepView>,
    limit: nat,
)
    requires
        limit >= 4,
        check_changes,
    ensures
        course(
            PipelineView { check_changes, stage: StageView::Comparing(deps) },
            ActionView::ReadSnapshot,
            around,
            limit,
        ) == if is_skipped(check_changes, around, deps) {
            seq![ActionView::ReadSnapshot, ActionView::Finish(Ok(()))]
        } else {
            seq![ActionView::ReadSnapshot] + build_course(around, deps)
        },
{
    let comparing = PipelineView { check_changes, stage: StageView::Comparing(deps) };
    lemma_course_unfolds(comparing, ActionView::ReadSnapshot, around, limit);
    if is_skipped(check_changes, around, deps) {
        lemma_course_ends(
            PipelineView { check_changes, stage: StageView::Done },
            Ok(()),
            around,
            (limit - 1) as nat,
        );
    } else {
        lemma_build_course(check_changes, around, deps, (limit - 1) as nat);
    }
}

proof fn lemma_resolved_course(
    check_changes: bool,
    around: Surroundings,
    specs: Seq<DepArgView>,
    deps: Seq<DepView>,
    limit: nat,
)
    requires
        limit >= 5,
        resolution(specs, around.packages) == Ok::<Seq<DepView>, Failure>(deps),
    ensures
        course(
            PipelineView { check_changes, stage: StageView::Resolving(specs) },
            ActionView::Resolve(paths_of(specs)),
            around,
            limit,
        ) == seq![ActionView::Resolve(paths_of(specs))] + if check_changes {
            if is_skipped(check_changes, around, deps) {
                seq![ActionView::ReadSnapshot, ActionView::Finish(Ok(()))]
            } else {
                seq![ActionView::ReadSnapshot] + build_course(around, deps)
            }
        } else {
            build_course(around, deps)
        },
{
    let resolving = PipelineView { check_changes, stage: StageView::Resolving(specs) };
    lemma_course_unfolds(resolving, ActionView::Resolve(paths_of(specs)), around, limit);
    if check_changes {
        lemma_compared_course(check_changes, around, deps, (limit - 1) as nat);
    } else {
        lemma_build_course(check_changes, around, deps, (limit - 1) as nat);
    }
}

/// The course of an invocation that resolves its dependencies, in full.
pub proof fn lemma_invocation(check_changes: bool, around: Surroundings, deps: Seq<DepView>)
    requires
        resolves_to(around, deps),
    ensures
        invocation(check_changes, around) == resolved_course(check_changes, around, deps),
{
    let specs = around.specs->0;
    lemma_course_unfolds(initial(check_changes), ActionView::Load, around, 6);
    lemma_resolved_course(check_changes, around, specs, deps, 5);
}

/// The course of an invocation that does not get as far as a resolved set:
/// it ends on the failure, and has written and built nothing.
pub proof fn lemma_unresolved_invocation(check_changes: bool, around: Surroundings)
    requires
        around.specs matches Some(specs) ==> resolution(specs, around.packages) is Err,
    ensures
        invocation(check_changes, around) == match around.specs {
            None => seq![ActionView::Load, ActionView::Finish(Err(Failure::Format))],
            Some(specs) => seq![
                ActionView::Load,
                ActionView::Resolve(paths_of(specs)),
                ActionView::Finish(Err(resolution(specs, around.packages)->Err_0)),
            ],
        },
        leaves_all_as_it_is(invocation(check_changes, around)),
        snapshot_after(invocation(check_changes, around), around) == around.snapshot,
{
    let done = PipelineView { check_changes, stage: StageView::Done };
    lemma_course_unfolds(initial(check_changes), ActionView::Load, around, 6);
    match around.specs {
        None => {
            lemma_course_ends(done, Err(Failure::Format), around, 5);
        },
        Some(specs) => {
            let failure = resolution(specs, around.packages)->Err_0;
            let resolving = PipelineView { check_changes, stage: StageView::Resolving(specs) };
            lemma_course_unfolds(resolving, ActionView::Resolve(paths_of(specs)), around, 5);
            lemma_course_ends(done, Err(failure), around, 4);
        },
    }
}

/// Every invocation comes to its end: the last of its actions, and no
/// other, ends it.
pub proof fn lemma_invocation_ends(check_changes: bool, around: Surroundings)
    ensures
        invocation(check_changes, around).last() is Finish,
        forall|i: int|
            0 <= i < invocation(check_changes, around).len() - 1 ==> !((
            #[trigger] invocation(check_changes, around)[i]) is Finish),
{
    if around.specs is Some && resolution(around.specs->0, around.packages) is Ok {
        let deps = resolution(around.specs->0, around.packages)->Ok_0;
        lemma_invocation(check_changes, around, deps);
    } else {
        lemma_unresolved_invocation(check_changes, around);
    }
}

/// The snapshot changes only where the build command succeeded: then, and
/// where it could be written, it holds the resolved set. In every other
/// case, and so after every failure, it is what it was.
pub proof fn lemma_snapshot_follows_success(check_changes: bool, around: Surroundings)
    ensures
        snapshot_after(invocation(check_changes, around), around) == if around.specs is Some
            && resolution(around.specs->0, around.packages) is Ok && !is_skipped(
            check_changes,
            around,
            resolution(around.specs->0, around.packages)->Ok_0,
        ) && around.writable && around.build == Some(true) && around.recordable {
            Some(resolution(around.specs->0, around.packages)->Ok_0)
        } else {
            around.snapshot
        },
{
    let actions = invocation(check_changes, around);
    if around.specs is Some && resolution(around.specs->0, around.packages) is Ok {
        let deps = resolution(around.specs->0, around.packages)->Ok_0;
        lemma_invocation(check_changes, around, deps);
        if !is_skipped(check_changes, around, deps) && around.writable && around.build == Some(
            true,
        ) {
            assert(actions[actions.len() - 2] == ActionView::Record(deps));
            assert(recorded(actions) == Some(deps));
        } else {
            assert(recorded(actions) is None) by {
                if exists|i: int| 0 <= i < actions.len() && (#[trigger] actions[i]) is Record {
                    let i = choose|i: int|
                        0 <= i < actions.len() && (#[trigger] actions[i]) is Record;
                    assert(actions[i] is Record);
                }
            }
        }
    } else {
        lemma_unresolved_invocation(check_changes, around);
    }
}

/// The set that an invocation resolves its dependencies to is in canonical
/// order.
pub proof fn lemma_resolved_set_is_canonical(around: Surroundings, deps: Seq<DepView>)
    requires
        resolves_to(around, deps),
    ensures
        is_canonical(deps),
        last_deps(Some(deps)) == Some(deps),
{
    lemma_canonical_exists(paired(around.specs->0, around.packages));
    lemma_snapshot_reads_back(deps);
}

/// With change-checking, an invocation that finds its resolved set in the
/// snapshot ends with success after reading the snapshot: it writes
/// nothing, builds nothing, and leaves the snapshot as it is.
pub proof fn lemma_unchanged_set_is_skipped(around: Surroundings, deps: Seq<DepView>)
    requires
        resolves_to(around, deps),
        last_deps(around.snapshot) == Some(deps),
    ensures
        invocation(true, around) == seq![
            ActionView::Load,
            ActionView::Resolve(paths_of(around.specs->0)),
            ActionView::ReadSnapshot,
            ActionView::Finish(Ok(())),
        ],
        leaves_all_as_it_is(invocation(true, around)),
        snapshot_after(invocation(true, around), around) == around.snapshot,
{
    lemma_invocation(true, around, deps);
}

/// After an invocation whose build succeeded and whose snapshot was
/// written, the snapshot holds the resolved set. So the next invocation
/// over the same dependencies, with change-checking, writes nothing and
/// builds nothing.
pub proof fn lemma_second_invocation_is_skipped(
    first_check: bool,
    around: Surroundings,
    later: Surroundings,
    deps: Seq<DepView>,
)
    requires
        resolves_to(around, deps),
        around.writable,
        around.build == Some(true),
        around.recordable,
        later.specs == around.specs,
        later.packages == around.packages,
        later.snapshot == snapshot_after(invocation(first_check, around), around),
    ensures
        last_deps(later.snapshot) == Some(deps),
        leaves_all_as_it_is(invocation(true, later)),
        snapshot_after(invocation(true, later), later) == later.snapshot,
{
    lemma_snapshot_follows_success(first_check, around);
    lemma_resolved_set_is_canonical(around, deps);
    lemma_unchanged_set_is_skipped(later, deps);
}

/// An invocation whose build command fails leaves the snapshot as it was.
/// So the next invocation over the same dependencies writes the artifacts
/// again, and where they can be written runs the build command again.
///
/// This holds unless the snapshot held the resolved set before the build
/// that failed, which only an invocation without change-checking builds
/// over, and the next invocation checks for changes: that one ends early.
pub proof fn lemma_failed_build_is_retried(
    first_check: bool,
    around: Surroundings,
    later_check: bool,
    later: Surroundings,
    deps: Seq<DepView>,
)
    requires
        resolves_to(around, deps),
        occurs(invocation(first_check, around), ActionView::RunBuild),
        around.build == Some(false),
        later.specs == around.specs,
        later.packages == around.packages,
        later.snapshot == snapshot_after(invocation(first_check, around), around),
        !(later_check && last_deps(around.snapshot) == Some(deps)),
    ensures
        snapshot_after(invocation(first_check, around), around) == around.snapshot,
        occurs(invocation(later_check, later), ActionView::Write(bin_content(deps))),
        later.writable ==> occurs(invocation(later_check, later), ActionView::RunBuild),
{
    lemma_snapshot_follows_success(first_check, around);
    lemma_invocation(later_check, later, deps);
    let second = invocation(later_check, later);
    let at = if later_check {
        3int
    } else {
        2int
    };
    assert(second[at] == ActionView::Write(bin_content(deps)));
    if later.writable {
        assert(second[at + 1] == ActionView::RunBuild);
    }
}

} // verus!
