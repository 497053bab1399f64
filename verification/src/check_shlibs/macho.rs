//! Where the libraries of a Mach-O object are looked for.
//!
//! A Mach-O object names each library by its full path. The first entry of
//! its list is the object's own name and is not a requirement. Each other
//! library is looked for under the staging root, then where its path says.

use crate::check_shlibs::resolve::{
    candidates, requirements, Candidate, CandidateView, Requirement, RequirementView, Stage,
};
use crate::context::{ContextView, ValidationContext};
use crate::object::{ObjectNeeds, ObjectView};
use crate::paths::{join, joined, strip_root, unrooted};
use crate::text::{chars_of, starts_with};
use vstd::prelude::*;

verus! {

/// Whether `library` lies in one of the directories of the system's own
/// libraries, whose files need not exist on disk.
pub open spec fn is_system_library(library: Seq<char>) -> bool {
    "/System/Library"@.is_prefix_of(library) || "/usr/lib"@.is_prefix_of(library)
}

/// Whether the reference `library` is passed over.
pub open spec fn is_skipped(ctx: ContextView, library: Seq<char>) -> bool {
    ctx.skip_system_libs && is_system_library(library)
}

/// The places where `library` is looked for: under the staging root, then
/// at its own path.
pub open spec fn macho_candidates(ctx: ContextView, library: Seq<char>) -> Seq<CandidateView> {
    seq![
        CandidateView { path: joined(ctx.destdir, unrooted(library)), stage: Stage::Staged },
        CandidateView { path: library, stage: Stage::Installed },
    ]
}

/// The requirements that the references `libraries` give: one for each that
/// is not passed over.
pub open spec fn requirements_among(libraries: Seq<Seq<char>>, ctx: ContextView) -> Seq<
    RequirementView,
>
    decreases libraries.len(),
{
    if libraries.len() == 0 {
        Seq::empty()
    } else {
        let before = requirements_among(libraries.drop_last(), ctx);
        let library = libraries.last();
        if is_skipped(ctx, library) {
            before
        } else {
            before.push(
                RequirementView { name: library, candidates: macho_candidates(ctx, library) },
            )
        }
    }
}

/// The requirements of a Mach-O object: those that its references give,
/// the first reference left out.
pub open spec fn macho_requirements(needs: ObjectNeeds, ctx: ContextView) -> Seq<RequirementView> {
    if needs.required_libraries.len() == 0 {
        Seq::empty()
    } else {
        requirements_among(needs.required_libraries.drop_first(), ctx)
    }
}

/// Whether `library` lies in one of the directories of the system's own
/// libraries.
pub fn in_system_directory(library: &str) -> (r: bool)
    ensures
        r == is_system_library(library@),
{
    let chars = chars_of(library);
    starts_with(&chars, &chars_of("/System/Library")) || starts_with(&chars, &chars_of("/usr/lib"))
}

/// Composes the places where `library` is looked for.
pub fn candidates_of(ctx: &ValidationContext, library: &str) -> (out: Vec<Candidate>)
    ensures
        candidates(out@) == macho_candidates(ctx@, library@),
{
    let relative = strip_root(library);
    let staged = join(ctx.destdir.as_str(), relative.as_str());
    let mut out: Vec<Candidate> = Vec::new();
    out.push(Candidate { path: staged, stage: Stage::Staged });
    out.push(Candidate { path: library.to_owned(), stage: Stage::Installed });
    assert(candidates(out@) =~= macho_candidates(ctx@, library@));
    out
}

/// Composes the requirements of a Mach-O object.
pub fn requirements_of(view: &ObjectView, ctx: &ValidationContext) -> (out: Vec<Requirement>)
    ensures
        requirements(out@) == macho_requirements(view@, ctx@),
{
    let mut out: Vec<Requirement> = Vec::new();
    if view.required_libraries.len() == 0 {
        assert(requirements(out@) =~= Seq::<RequirementView>::empty());
        return out;
    }
    let ghost rest = view@.required_libraries.drop_first();
    let mut i: usize = 1;
    assert(rest.take(0) =~= Seq::<Seq<char>>::empty());
    assert(requirements(out@) =~= requirements_among(rest.take(0), ctx@));
    while i < view.required_libraries.len()
        invariant
            1 <= i <= view.required_libraries.len(),
            rest == view@.required_libraries.drop_first(),
            requirements(out@) == requirements_among(rest.take(i - 1), ctx@),
        decreases view.required_libraries.len() - i,
    {
        let library = &view.required_libraries[i];
        let ghost before = requirements(out@);
        proof {
            assert(rest.take(i as int).drop_last() =~= rest.take(i - 1));
            assert(rest.take(i as int).last() == library@);
        }
        if !(ctx.skip_system_libs && in_system_directory(library.as_str())) {
            let places = candidates_of(ctx, library.as_str());
            out.push(Requirement { name: library.clone(), candidates: places });
            assert(requirements(out@) =~= before.push(
                RequirementView { name: library@, candidates: macho_candidates(ctx@, library@) },
            ));
        }
        i += 1;
    }
    assert(rest.take(i - 1) =~= rest);
    out
}

} // verus!
