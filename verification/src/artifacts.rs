//! The files of the dispatcher project and the order in which they are
//! laid down in the target directory.

use vstd::prelude::*;
use crate::canonical::{canonical, lemma_canonical_of_permutation, namespaces_decide};
use crate::dependency::{DepArgView, DepView, Deps, PackageView};
use crate::entry_point::entry_point_text;
use crate::manifest::manifest_text;
use crate::resolve::{found_for, lemma_resolution_ignores_order, namespaces_tell_apart, resolution};

verus! {

/// Where the manifest goes, seen from the target directory.
pub const MANIFEST_FILE: &'static str = "Cargo.toml";

/// The directory of the sources, seen from the target directory.
pub const SOURCE_DIR: &'static str = "src";

/// Where the entry point goes, seen from the target directory.
pub const ENTRY_POINT_FILE: &'static str = "src/main.rs";

/// Where the snapshot of the last successful build is kept, seen from the
/// target directory.
pub const SNAPSHOT_FILE: &'static str = "last-deps.json";

/// One change to the target directory. Paths are relative to it; the empty
/// path is the directory itself.
#[derive(Debug)]
pub enum Step {
    /// Create the directory unless it is there.
    MakeDir { path: String },
    /// Write the file, in place of what it held.
    WriteFile { path: String, content: String },
}

/// Mathematical value of a [`Step`].
pub enum StepView {
    MakeDir { path: Seq<char> },
    WriteFile { path: Seq<char>, content: Seq<char> },
}

impl View for Step {
    type V = StepView;

    open spec fn view(&self) -> StepView {
        match self {
            Step::MakeDir { path } => StepView::MakeDir { path: path@ },
            Step::WriteFile { path, content } => StepView::WriteFile {
                path: path@,
                content: content@,
            },
        }
    }
}

/// The view of each step, in the same order.
pub open spec fn step_views(steps: Seq<Step>) -> Seq<StepView> {
    steps.map_values(|step: Step| step@)
}

/// What is laid down for a dependency set: the target directory, the
/// manifest in it, the source directory, and the entry point in that.
pub open spec fn bin_content(deps: Seq<DepView>) -> Seq<StepView> {
    seq![
        StepView::MakeDir { path: ""@ },
        StepView::WriteFile { path: MANIFEST_FILE@, content: manifest_text(deps) },
        StepView::MakeDir { path: SOURCE_DIR@ },
        StepView::WriteFile { path: ENTRY_POINT_FILE@, content: entry_point_text(deps) },
    ]
}

/// The steps that lay down the dispatcher project for a dependency set, in
/// the order in which they are to be taken. A step that fails ends the
/// laying down: the steps behind it are not taken.
pub fn create_bin_content(deps: &Deps) -> (steps: Vec<Step>)
    ensures
        step_views(steps@) == bin_content(deps@),
{
    let mut steps: Vec<Step> = Vec::new();
    steps.push(Step::MakeDir { path: String::from_str("") });
    steps.push(
        Step::WriteFile { path: String::from_str(MANIFEST_FILE), content: deps.bin_cargo_toml() },
    );
    steps.push(Step::MakeDir { path: String::from_str(SOURCE_DIR) });
    steps.push(
        Step::WriteFile { path: String::from_str(ENTRY_POINT_FILE), content: deps.bin_main_rs() },
    );
    steps
}

/// The artifacts do not depend on the order in which the dependencies were
/// listed: two lists that hold the same dependencies, each as often, have
/// the same manifest and the same entry point once each is put into
/// canonical order. This needs that no two dependencies of one namespace
/// differ: two that do keep the order in which they were listed.
pub proof fn lemma_artifacts_ignore_order(a: Seq<DepView>, b: Seq<DepView>)
    requires
        a.to_multiset() == b.to_multiset(),
        namespaces_decide(a),
    ensures
        manifest_text(canonical(a)) == manifest_text(canonical(b)),
        entry_point_text(canonical(a)) == entry_point_text(canonical(b)),
        bin_content(canonical(a)) == bin_content(canonical(b)),
{
    lemma_canonical_of_permutation(a, b);
}

/// The artifacts do not depend on the order of the list of requested
/// dependencies: where what is found at a path is the same wherever the
/// path is listed, and no two listed dependencies of one namespace differ,
/// a list that is resolved and any rearrangement of it give the same
/// manifest and the same entry point.
pub proof fn lemma_artifacts_ignore_list_order(
    a: Seq<DepArgView>,
    b: Seq<DepArgView>,
    package_at: spec_fn(Seq<char>) -> Option<PackageView>,
)
    requires
        a.to_multiset() == b.to_multiset(),
        namespaces_tell_apart(a),
        resolution(a, found_for(a, package_at)) is Ok,
    ensures
        resolution(b, found_for(b, package_at)) is Ok,
        manifest_text(resolution(a, found_for(a, package_at))->Ok_0) == manifest_text(
            resolution(b, found_for(b, package_at))->Ok_0,
        ),
        entry_point_text(resolution(a, found_for(a, package_at))->Ok_0) == entry_point_text(
            resolution(b, found_for(b, package_at))->Ok_0,
        ),
        bin_content(resolution(a, found_for(a, package_at))->Ok_0) == bin_content(
            resolution(b, found_for(b, package_at))->Ok_0,
        ),
{
    lemma_resolution_ignores_order(a, b, package_at);
}

} // verus!
