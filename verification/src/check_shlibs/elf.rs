//! Where the libraries of an ELF object are looked for.
//!
//! An ELF object names its libraries without a directory and brings a list
//! of directories to search. Each library is looked for in three rounds,
//! each exhausted before the next: under the staging root in every
//! run-path directory, then in every run-path directory itself, which lies
//! below the cross-build root where one is set, then in every system
//! directory.

use crate::check_shlibs::resolve::{
    candidates, requirements, Candidate, CandidateView, Requirement, RequirementView, Stage,
};
use crate::context::{ContextView, ValidationContext};
use crate::object::{ObjectNeeds, ObjectView};
use crate::paths::{join, joined, strip_root, unrooted};
use crate::text::views;
use vstd::prelude::*;

verus! {

/// Where `library` lies under the staging root, for the run-path directory
/// `dir`.
pub open spec fn staged_path(destdir: Seq<char>, dir: Seq<char>, library: Seq<char>) -> Seq<char> {
    joined(joined(destdir, unrooted(dir)), library)
}

/// Where `library` lies in the run-path directory `dir`. Where a cross-build
/// root is set the directory is taken below it, as it is taken below the
/// staging root.
pub open spec fn installed_path(
    cross_destdir: Option<Seq<char>>,
    dir: Seq<char>,
    library: Seq<char>,
) -> Seq<char> {
    match cross_destdir {
        Some(root) => joined(joined(root, unrooted(dir)), library),
        None => joined(dir, library),
    }
}

/// The staged places of `library`, one for each run-path directory.
pub open spec fn staged_candidates(
    destdir: Seq<char>,
    runpaths: Seq<Seq<char>>,
    library: Seq<char>,
) -> Seq<CandidateView> {
    Seq::new(
        runpaths.len(),
        |i: int|
            CandidateView {
                path: staged_path(destdir, runpaths[i], library),
                stage: Stage::Staged,
            },
    )
}

/// The installed places of `library`, one for each run-path directory.
pub open spec fn installed_candidates(
    cross_destdir: Option<Seq<char>>,
    runpaths: Seq<Seq<char>>,
    library: Seq<char>,
) -> Seq<CandidateView> {
    Seq::new(
        runpaths.len(),
        |i: int|
            CandidateView {
                path: installed_path(cross_destdir, runpaths[i], library),
                stage: Stage::Installed,
            },
    )
}

/// The places of `library` in the system directories, one for each.
pub open spec fn system_candidates(system_paths: Seq<Seq<char>>, library: Seq<char>) -> Seq<
    CandidateView,
> {
    Seq::new(
        system_paths.len(),
        |i: int| CandidateView { path: joined(system_paths[i], library), stage: Stage::System },
    )
}

/// All places where `library` is looked for, in the order in which they are
/// tried.
pub open spec fn elf_candidates(
    ctx: ContextView,
    runpaths: Seq<Seq<char>>,
    library: Seq<char>,
) -> Seq<CandidateView> {
    staged_candidates(ctx.destdir, runpaths, library) + installed_candidates(
        ctx.cross_destdir,
        runpaths,
        library,
    ) + system_candidates(ctx.system_paths, library)
}

/// The requirements of an ELF object: one for each library it names.
pub open spec fn elf_requirements(needs: ObjectNeeds, ctx: ContextView) -> Seq<RequirementView> {
    Seq::new(
        needs.required_libraries.len(),
        |i: int|
            RequirementView {
                name: needs.required_libraries[i],
                candidates: elf_candidates(ctx, needs.runpaths, needs.required_libraries[i]),
            },
    )
}

/// Composes the places where `library` is looked for.
pub fn candidates_of(ctx: &ValidationContext, runpaths: &Vec<String>, library: &str) -> (out: Vec<
    Candidate,
>)
    ensures
        candidates(out@) == elf_candidates(ctx@, views(runpaths@), library@),
{
    let ghost dirs = views(runpaths@);
    let ghost staged = staged_candidates(ctx@.destdir, dirs, library@);
    let ghost installed = installed_candidates(ctx@.cross_destdir, dirs, library@);
    let ghost system = system_candidates(ctx@.system_paths, library@);
    let mut out: Vec<Candidate> = Vec::new();
    let mut i: usize = 0;
    while i < runpaths.len()
        invariant
            i <= runpaths.len(),
            dirs == views(runpaths@),
            staged == staged_candidates(ctx@.destdir, dirs, library@),
            candidates(out@) =~= staged.take(i as int),
        decreases runpaths.len() - i,
    {
        let relative = strip_root(runpaths[i].as_str());
        let under = join(ctx.destdir.as_str(), relative.as_str());
        let path = join(under.as_str(), library);
        let ghost before = candidates(out@);
        out.push(Candidate { path, stage: Stage::Staged });
        proof {
            assert(dirs[i as int] == runpaths@[i as int]@);
            assert(candidates(out@) =~= before.push(staged[i as int]));
            assert(staged.take(i + 1) =~= staged.take(i as int).push(staged[i as int]));
        }
        i += 1;
    }
    assert(staged.take(i as int) =~= staged);
    let mut j: usize = 0;
    while j < runpaths.len()
        invariant
            j <= runpaths.len(),
            dirs == views(runpaths@),
            installed == installed_candidates(ctx@.cross_destdir, dirs, library@),
            candidates(out@) =~= staged + installed.take(j as int),
        decreases runpaths.len() - j,
    {
        let path = match &ctx.cross_destdir {
            Some(root) => {
                let relative = strip_root(runpaths[j].as_str());
                let under = join(root.as_str(), relative.as_str());
                join(under.as_str(), library)
            },
            None => join(runpaths[j].as_str(), library),
        };
        let ghost before = candidates(out@);
        out.push(Candidate { path, stage: Stage::Installed });
        proof {
            assert(dirs[j as int] == runpaths@[j as int]@);
            assert(candidates(out@) =~= before.push(installed[j as int]));
            assert(installed.take(j + 1) =~= installed.take(j as int).push(installed[j as int]));
        }
        j += 1;
    }
    assert(installed.take(j as int) =~= installed);
    let mut k: usize = 0;
    while k < ctx.system_paths.len()
        invariant
            k <= ctx.system_paths.len(),
            system == system_candidates(ctx@.system_paths, library@),
            candidates(out@) =~= staged + installed + system.take(k as int),
        decreases ctx.system_paths.len() - k,
    {
        let path = join(ctx.system_paths[k].as_str(), library);
        let ghost before = candidates(out@);
        out.push(Candidate { path, stage: Stage::System });
        proof {
            assert(ctx@.system_paths[k as int] == ctx.system_paths@[k as int]@);
            assert(candidates(out@) =~= before.push(system[k as int]));
            assert(system.take(k + 1) =~= system.take(k as int).push(system[k as int]));
        }
        k += 1;
    }
    assert(system.take(k as int) =~= system);
    out
}

/// Composes the requirements of an ELF object.
pub fn requirements_of(view: &ObjectView, ctx: &ValidationContext) -> (out: Vec<Requirement>)
    ensures
        requirements(out@) == elf_requirements(view@, ctx@),
{
    let ghost all = elf_requirements(view@, ctx@);
    let mut out: Vec<Requirement> = Vec::new();
    let mut i: usize = 0;
    while i < view.required_libraries.len()
        invariant
            i <= view.required_libraries.len(),
            all == elf_requirements(view@, ctx@),
            requirements(out@) =~= all.take(i as int),
        decreases view.required_libraries.len() - i,
    {
        let library = &view.required_libraries[i];
        let places = candidates_of(ctx, &view.runpaths, library.as_str());
        let ghost before = requirements(out@);
        out.push(Requirement { name: library.clone(), candidates: places });
        proof {
            assert(view@.required_libraries[i as int] == library@);
            assert(requirements(out@) =~= before.push(all[i as int]));
            assert(all.take(i + 1) =~= all.take(i as int).push(all[i as int]));
        }
        i += 1;
    }
    assert(all.take(i as int) =~= all);
    out
}

} // verus!
