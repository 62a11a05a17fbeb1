//! The steps of one build run: what follows the build for a platform, which
//! copies package its artifacts, which crates are built, and whether the
//! result is deployed to a game.

use vstd::prelude::*;
use crate::platform::{PlatformConfig, PlatformView};
use crate::text::str_eq;

verus! {

/// How the build for one platform ended.
#[derive(Debug, Clone, Copy, PartialEq, Eq, Structural)]
pub enum BuildOutcome {
    /// The build command could not be started.
    NotStarted,
    /// The build ran and failed.
    Failed,
    /// The build ran and succeeded.
    Succeeded,
}

/// What the run does once the build for a platform has ended.
#[derive(Debug, Clone, Copy, PartialEq, Eq, Structural)]
pub enum AfterBuild {
    /// Stop the whole run with an error.
    Abort,
    /// Report the failure and go on with the next platform.
    ReportFailure,
    /// Package the artifacts, then report success.
    Package,
    /// Report success.
    ReportSuccess,
}

/// The step after a platform's build: a build that cannot be started ends
/// the run, a failed one is reported and skipped, a successful one is
/// packaged when a distribution directory is in use.
pub fn after_build(outcome: BuildOutcome, packaging: bool) -> (r: AfterBuild)
    ensures
        outcome == BuildOutcome::NotStarted ==> r == AfterBuild::Abort,
        outcome == BuildOutcome::Failed ==> r == AfterBuild::ReportFailure,
        outcome == BuildOutcome::Succeeded && packaging ==> r == AfterBuild::Package,
        outcome == BuildOutcome::Succeeded && !packaging ==> r == AfterBuild::ReportSuccess,
{
    match outcome {
        BuildOutcome::NotStarted => AfterBuild::Abort,
        BuildOutcome::Failed => AfterBuild::ReportFailure,
        BuildOutcome::Succeeded => {
            if packaging {
                AfterBuild::Package
            } else {
                AfterBuild::ReportSuccess
            }
        },
    }
}

/// A directory that packaging copies into.
#[derive(Debug, Clone, Copy, PartialEq, Eq, Structural)]
pub enum CopyDir {
    /// The platform's folder under the distribution's `lib/`.
    Lib,
    /// The distribution's `python-packages/`.
    Packages,
    /// The build's own release directory.
    Release,
}

/// One copy of the built binary: where to, under which name, and whether a
/// failed copy ends the run.
pub struct ArtifactCopy {
    pub dir: CopyDir,
    pub name: String,
    pub must_succeed: bool,
}

impl View for ArtifactCopy {
    type V = (CopyDir, Seq<char>, bool);

    open spec fn view(&self) -> (CopyDir, Seq<char>, bool) {
        (self.dir, self.name@, self.must_succeed)
    }
}

/// The views of a list of copies.
pub open spec fn copy_views(v: Seq<ArtifactCopy>) -> Seq<(CopyDir, Seq<char>, bool)> {
    v.map_values(|c: ArtifactCopy| c@)
}

/// The copies that package crate `c`, whose binary was found under the name
/// `found`, for platform `p`: the plain library into `lib/` and
/// `python-packages/`, the Python module into the release directory (unless
/// the binary already has that name; a failure there is ignored) and into
/// `lib/`, and the ABI-tagged module into `python-packages/`.
pub open spec fn copy_plan_spec(p: PlatformView, c: Seq<char>, found: Seq<char>) -> Seq<
    (CopyDir, Seq<char>, bool),
> {
    let library = p.lib_prefix + c + p.lib_ext;
    let module = c + p.py_ext;
    let abi = c + "."@ + p.py_abi_suffix;
    seq![(CopyDir::Lib, library, true), (CopyDir::Packages, library, true)] + (if found == module {
        Seq::empty()
    } else {
        seq![(CopyDir::Release, module, false)]
    }) + seq![(CopyDir::Lib, module, true), (CopyDir::Packages, abi, true)]
}

/// Packaging always puts the Python module `c + py_ext` into `lib/`, the
/// plain library into `lib/` and `python-packages/`, and the ABI-tagged module
/// into `python-packages/`, each as a copy that must succeed; it adds a copy
/// into the release directory exactly when the binary was found under another
/// name than the module's, and that copy is the module, allowed to fail.
pub proof fn lemma_packaging_places_every_artifact(p: PlatformView, c: Seq<char>, f: Seq<char>)
    ensures
        copy_plan_spec(p, c, f).contains((CopyDir::Lib, c + p.py_ext, true)),
        copy_plan_spec(p, c, f).contains((CopyDir::Lib, p.lib_prefix + c + p.lib_ext, true)),
        copy_plan_spec(p, c, f).contains((CopyDir::Packages, p.lib_prefix + c + p.lib_ext, true)),
        copy_plan_spec(p, c, f).contains((CopyDir::Packages, c + "."@ + p.py_abi_suffix, true)),
        (exists|k: int|
            0 <= k < copy_plan_spec(p, c, f).len() && (#[trigger] copy_plan_spec(p, c, f)[k]).0
                == CopyDir::Release) <==> f != c + p.py_ext,
        forall|k: int|
            0 <= k < copy_plan_spec(p, c, f).len() && (#[trigger] copy_plan_spec(p, c, f)[k]).0
                == CopyDir::Release ==> copy_plan_spec(p, c, f)[k] == (
                CopyDir::Release,
                c + p.py_ext,
                false,
            ),
        copy_plan_spec(p, c, f).len() == (if f == c + p.py_ext { 4int } else { 5int }),
{
    let plan = copy_plan_spec(p, c, f);
    let library = p.lib_prefix + c + p.lib_ext;
    let module = c + p.py_ext;
    let abi = c + "."@ + p.py_abi_suffix;
    if f == module {
        assert(plan =~= seq![
            (CopyDir::Lib, library, true),
            (CopyDir::Packages, library, true),
            (CopyDir::Lib, module, true),
            (CopyDir::Packages, abi, true),
        ]);
        assert(plan[2] == (CopyDir::Lib, module, true));
        assert(plan[3] == (CopyDir::Packages, abi, true));
    } else {
        assert(plan =~= seq![
            (CopyDir::Lib, library, true),
            (CopyDir::Packages, library, true),
            (CopyDir::Release, module, false),
            (CopyDir::Lib, module, true),
            (CopyDir::Packages, abi, true),
        ]);
        assert(plan[2].0 == CopyDir::Release);
        assert(plan[3] == (CopyDir::Lib, module, true));
        assert(plan[4] == (CopyDir::Packages, abi, true));
    }
    assert(plan[0] == (CopyDir::Lib, library, true));
    assert(plan[1] == (CopyDir::Packages, library, true));
}

/// The copies that package crate `crate_name`, whose binary was found under
/// the name `found_binary`, for platform `p`, in order.
pub fn artifact_copies(p: &PlatformConfig, crate_name: &str, found_binary: &str) -> (r: Vec<
    ArtifactCopy,
>)
    ensures
        copy_views(r@) == copy_plan_spec(p@, crate_name@, found_binary@),
{
    let names = crate::platform::artifact_names(p, crate_name);
    let mut r: Vec<ArtifactCopy> = Vec::new();
    r.push(ArtifactCopy { dir: CopyDir::Lib, name: names.library.clone(), must_succeed: true });
    r.push(ArtifactCopy { dir: CopyDir::Packages, name: names.library, must_succeed: true });
    if !str_eq(found_binary, names.python_module.as_str()) {
        r.push(
            ArtifactCopy {
                dir: CopyDir::Release,
                name: names.python_module.clone(),
                must_succeed: false,
            },
        );
    }
    r.push(ArtifactCopy { dir: CopyDir::Lib, name: names.python_module, must_succeed: true });
    r.push(ArtifactCopy { dir: CopyDir::Packages, name: names.abi_module, must_succeed: true });
    assert(copy_views(r@) =~= copy_plan_spec(p@, crate_name@, found_binary@));
    r
}

/// Whether the distribution is copied into a game: only when one was
/// packaged and a game folder is given (`game_exists` is `None` when none
/// is) that exists.
pub fn should_deploy(packaging: bool, game_exists: Option<bool>) -> (r: bool)
    ensures
        r == (packaging && game_exists == Some(true)),
{
    match game_exists {
        Some(true) => packaging,
        _ => false,
    }
}

/// Where the crates to build come from.
pub enum CrateSource {
    /// The crates named on the command line.
    Given(Vec<String>),
    /// The crates found by reading the project's manifests.
    Discover,
}

/// The crates named on the command line, or, when none are, the discovered
/// ones.
pub fn crate_source(cli: Vec<String>) -> (r: CrateSource)
    ensures
        cli@.len() > 0 ==> (r matches CrateSource::Given(v) && v@ == cli@),
        cli@.len() == 0 ==> r is Discover,
{
    if cli.len() > 0 {
        CrateSource::Given(cli)
    } else {
        CrateSource::Discover
    }
}

} // verus!
