//! What holds of every check, whatever the objects, the context and the
//! file system are.

use crate::check_shlibs::elf::{
    elf_candidates, installed_candidates, installed_path, staged_candidates, staged_path,
};
use crate::check_shlibs::macho::macho_requirements;
use crate::check_shlibs::ownership::ownership_findings;
use crate::check_shlibs::policy::{extra_findings, policy_findings, toxic_findings, ObjectFormat};
use crate::check_shlibs::resolve::{
    answered_by, any_consults, asked_owner, asked_owners, consults, first_hit, lemma_hit_from,
    lemma_hit_is_stable, lemma_report_is_stable, owned_hit, present, report,
    requirement_findings, resolved, settled, RequirementView, StateView,
};
use crate::context::{ContextView, DependencyView};
use crate::diagnostic::{lines, Finding};
use crate::object::ObjectNeeds;
use crate::paths::has_prefix;
use crate::pattern::regex_matches;
use vstd::prelude::*;

verus! {

/// A staged copy takes precedence. Where a library exists under the staging
/// root for one of the object's run-path directories, its requirement is
/// satisfied and nothing is reported for it, whatever exists elsewhere and
/// whoever owns it.
pub proof fn lemma_staged_takes_precedence(
    object: Seq<char>,
    library: Seq<char>,
    runpaths: Seq<Seq<char>>,
    dir: int,
    ctx: ContextView,
    known: Map<Seq<char>, bool>,
    owners: Map<Seq<char>, Option<Seq<char>>>,
)
    requires
        0 <= dir < runpaths.len(),
        present(known, staged_path(ctx.destdir, runpaths[dir], library)),
    ensures
        requirement_findings(
            object,
            RequirementView { name: library, candidates: elf_candidates(ctx, runpaths, library) },
            ctx,
            ObjectFormat::Elf,
            known,
            owners,
        ) == Seq::<Finding>::empty(),
{
    let places = elf_candidates(ctx, runpaths, library);
    let staged = staged_candidates(ctx.destdir, runpaths, library);
    assert(places[dir] == staged[dir]);
    lemma_hit_from(places, 0, known);
    let at = first_hit(places, known)->0;
    assert(first_hit(places, known) is Some);
    assert(at <= dir);
    assert(places[at] == staged[at]);
}

/// A library that is installed where the object asks for it is validated
/// there. Where no staged copy exists and the first run-path directory
/// that holds the library is `runpaths[dir]`, taken below the cross-build
/// root where one is set, the library resolves to its path in that
/// directory: exactly the findings of the path policy and of the ownership
/// check for that path are reported, and the library is not missing.
pub proof fn lemma_installed_library_is_validated(
    object: Seq<char>,
    library: Seq<char>,
    runpaths: Seq<Seq<char>>,
    dir: int,
    ctx: ContextView,
    known: Map<Seq<char>, bool>,
    owners: Map<Seq<char>, Option<Seq<char>>>,
)
    requires
        0 <= dir < runpaths.len(),
        forall|i: int|
            0 <= i < runpaths.len() ==> !present(
                known,
                #[trigger] staged_path(ctx.destdir, runpaths[i], library),
            ),
        forall|i: int|
            0 <= i < dir ==> !present(
                known,
                #[trigger] installed_path(ctx.cross_destdir, runpaths[i], library),
            ),
        present(known, installed_path(ctx.cross_destdir, runpaths[dir], library)),
    ensures
        requirement_findings(
            object,
            RequirementView { name: library, candidates: elf_candidates(ctx, runpaths, library) },
            ctx,
            ObjectFormat::Elf,
            known,
            owners,
        ) == policy_findings(
            object,
            installed_path(ctx.cross_destdir, runpaths[dir], library),
            ctx,
            ObjectFormat::Elf,
        ) + ownership_findings(
            object,
            installed_path(ctx.cross_destdir, runpaths[dir], library),
            owners,
            ctx.declared_dependencies,
        ),
{
    let places = elf_candidates(ctx, runpaths, library);
    let staged = staged_candidates(ctx.destdir, runpaths, library);
    let installed = installed_candidates(ctx.cross_destdir, runpaths, library);
    let n = runpaths.len() as int;
    assert forall|j: int| 0 <= j < n + dir implies !present(known, (#[trigger] places[j]).path) by {
        if j < n {
            assert(places[j] == staged[j]);
            assert(places[j].path == staged_path(ctx.destdir, runpaths[j], library));
        } else {
            assert(places[j] == installed[j - n]);
            assert(places[j].path == installed_path(
                ctx.cross_destdir,
                runpaths[j - n],
                library,
            ));
        }
    }
    assert(places[n + dir] == installed[dir]);
    lemma_hit_from(places, 0, known);
    assert(first_hit(places, known) == Some(n + dir));
}

/// A leak of the work directory is reported exactly once. The findings of
/// the path policy for a library under the work directory begin with that
/// finding and hold no second one, whatever else they hold.
pub proof fn lemma_workdir_leak_reported_once(
    object: Seq<char>,
    library: Seq<char>,
    ctx: ContextView,
    format: ObjectFormat,
)
    requires
        has_prefix(library, ctx.wrkdir),
    ensures
        policy_findings(object, library, ctx, format).len() >= 1,
        policy_findings(object, library, ctx, format)[0] == (Finding::WorkDir { object, library }),
        forall|i: int|
            1 <= i < policy_findings(object, library, ctx, format).len() ==> !(
            #[trigger] policy_findings(object, library, ctx, format)[i] is WorkDir),
{
    lemma_extra_findings_kind(object, library, ctx.extra_wrkref_dirs);
    lemma_toxic_findings_kind(object, library, ctx.toxic_patterns);
}

/// Without a leak of the work directory the path policy reports none.
pub proof fn lemma_workdir_leak_reported_only_for_leaks(
    object: Seq<char>,
    library: Seq<char>,
    ctx: ContextView,
    format: ObjectFormat,
)
    requires
        !has_prefix(library, ctx.wrkdir),
    ensures
        forall|i: int|
            0 <= i < policy_findings(object, library, ctx, format).len() ==> !(
            #[trigger] policy_findings(object, library, ctx, format)[i] is WorkDir),
{
    lemma_extra_findings_kind(object, library, ctx.extra_wrkref_dirs);
    lemma_toxic_findings_kind(object, library, ctx.toxic_patterns);
}

proof fn lemma_extra_findings_kind(object: Seq<char>, library: Seq<char>, dirs: Seq<Seq<char>>)
    ensures
        forall|i: int|
            0 <= i < extra_findings(object, library, dirs).len() ==> #[trigger] extra_findings(
                object,
                library,
                dirs,
            )[i] is ExtraWorkRef,
    decreases dirs.len(),
{
    if dirs.len() > 0 {
        lemma_extra_findings_kind(object, library, dirs.drop_last());
    }
}

proof fn lemma_toxic_findings_kind(object: Seq<char>, library: Seq<char>, patterns: Seq<Seq<char>>)
    ensures
        forall|i: int|
            0 <= i < toxic_findings(object, library, patterns).len() ==> #[trigger] toxic_findings(
                object,
                library,
                patterns,
            )[i] is Toxic,
    decreases patterns.len(),
{
    if patterns.len() > 0 {
        lemma_toxic_findings_kind(object, library, patterns.drop_last());
    }
}

/// The findings for the first `n` patterns are the first findings for all
/// patterns.
proof fn lemma_toxic_findings_grow(
    object: Seq<char>,
    library: Seq<char>,
    patterns: Seq<Seq<char>>,
    n: int,
)
    requires
        0 <= n <= patterns.len(),
    ensures
        toxic_findings(object, library, patterns.take(n)).is_prefix_of(
            toxic_findings(object, library, patterns),
        ),
    decreases patterns.len() - n,
{
    if n == patterns.len() {
        assert(patterns.take(n) =~= patterns);
    } else {
        lemma_toxic_findings_grow(object, library, patterns, n + 1);
        assert(patterns.take(n + 1).drop_last() =~= patterns.take(n));
    }
}

/// Forbidden patterns are independent. Each pattern that matches in the
/// library path has a finding of its own: its place among the findings is
/// the number of findings for the patterns before it. So two patterns that
/// match give two findings, in the order of the patterns.
pub proof fn lemma_toxic_patterns_are_independent(
    object: Seq<char>,
    library: Seq<char>,
    patterns: Seq<Seq<char>>,
    first: int,
    second: int,
)
    requires
        0 <= first < second < patterns.len(),
        regex_matches(patterns[first], library),
        regex_matches(patterns[second], library),
    ensures
        ({
            let all = toxic_findings(object, library, patterns);
            let a = toxic_findings(object, library, patterns.take(first)).len() as int;
            let b = toxic_findings(object, library, patterns.take(second)).len() as int;
            &&& 0 <= a < b < all.len()
            &&& all[a] == (Finding::Toxic { object, library, pattern: patterns[first] })
            &&& all[b] == (Finding::Toxic { object, library, pattern: patterns[second] })
        }),
{
    let all = toxic_findings(object, library, patterns);
    lemma_toxic_finding_place(object, library, patterns, first);
    lemma_toxic_finding_place(object, library, patterns, second);
    let upto = patterns.take(second);
    assert(upto.take(first + 1) =~= patterns.take(first + 1));
    lemma_toxic_findings_grow(object, library, upto, first + 1);
    assert(patterns.take(first + 1).drop_last() =~= patterns.take(first));
}

proof fn lemma_toxic_finding_place(
    object: Seq<char>,
    library: Seq<char>,
    patterns: Seq<Seq<char>>,
    at: int,
)
    requires
        0 <= at < patterns.len(),
        regex_matches(patterns[at], library),
    ensures
        ({
            let all = toxic_findings(object, library, patterns);
            let place = toxic_findings(object, library, patterns.take(at)).len() as int;
            &&& place < all.len()
            &&& all[place] == (Finding::Toxic { object, library, pattern: patterns[at] })
        }),
{
    lemma_toxic_findings_grow(object, library, patterns, at + 1);
    assert(patterns.take(at + 1).drop_last() =~= patterns.take(at));
    let upto = toxic_findings(object, library, patterns.take(at + 1));
    let place = toxic_findings(object, library, patterns.take(at)).len() as int;
    assert(upto[place] == (Finding::Toxic { object, library, pattern: patterns[at] }));
    assert(toxic_findings(object, library, patterns).subrange(0, upto.len() as int)[place]
        == upto[place]);
}

/// A path that the ownership index does not know is not owned: the
/// ownership check holds nothing against it.
pub proof fn lemma_unknown_path_is_silent(
    object: Seq<char>,
    library: Seq<char>,
    index: Map<Seq<char>, Option<Seq<char>>>,
    deps: Seq<DependencyView>,
)
    requires
        !index.contains_key(library),
    ensures
        ownership_findings(object, library, index, deps) == Seq::<Finding>::empty(),
{
}

/// A path that no package owns passes the ownership check.
pub proof fn lemma_unowned_path_is_silent(
    object: Seq<char>,
    library: Seq<char>,
    index: Map<Seq<char>, Option<Seq<char>>>,
    deps: Seq<DependencyView>,
)
    requires
        index.contains_key(library),
        index[library] is None,
    ensures
        ownership_findings(object, library, index, deps) == Seq::<Finding>::empty(),
{
}

/// An owner that is not declared at all is passed over in silence.
pub proof fn lemma_undeclared_owner_is_silent(
    object: Seq<char>,
    library: Seq<char>,
    package: Seq<char>,
    index: Map<Seq<char>, Option<Seq<char>>>,
    deps: Seq<DependencyView>,
)
    requires
        index.contains_key(library),
        index[library] == Some(package),
        forall|i: int| 0 <= i < deps.len() ==> (#[trigger] deps[i]).package != package,
    ensures
        ownership_findings(object, library, index, deps) == Seq::<Finding>::empty(),
{
}

/// An owner that is declared as needed at run time passes, whatever else
/// is declared of it.
pub proof fn lemma_runtime_owner_is_accepted(
    object: Seq<char>,
    library: Seq<char>,
    package: Seq<char>,
    index: Map<Seq<char>, Option<Seq<char>>>,
    deps: Seq<DependencyView>,
    entry: int,
)
    requires
        index.contains_key(library),
        index[library] == Some(package),
        0 <= entry < deps.len(),
        deps[entry].package == package,
        deps[entry].kind.is_runtime(),
    ensures
        ownership_findings(object, library, index, deps) == Seq::<Finding>::empty(),
{
}

/// An owner that is declared, but nowhere as needed at run time, is
/// reported exactly once.
pub proof fn lemma_wrong_kind_is_reported_once(
    object: Seq<char>,
    library: Seq<char>,
    package: Seq<char>,
    index: Map<Seq<char>, Option<Seq<char>>>,
    deps: Seq<DependencyView>,
    entry: int,
)
    requires
        index.contains_key(library),
        index[library] == Some(package),
        0 <= entry < deps.len(),
        deps[entry].package == package,
        forall|i: int|
            0 <= i < deps.len() && (#[trigger] deps[i]).package == package
                ==> !deps[i].kind.is_runtime(),
    ensures
        ownership_findings(object, library, index, deps) == seq![
            Finding::NotRuntimeDependency { object, library, package },
        ],
{
}

/// A library that exists at none of the places it is looked for is
/// reported as missing exactly once, however many places there are, and
/// nothing else is reported for it.
pub proof fn lemma_missing_is_reported_once(
    object: Seq<char>,
    req: RequirementView,
    ctx: ContextView,
    format: ObjectFormat,
    known: Map<Seq<char>, bool>,
    owners: Map<Seq<char>, Option<Seq<char>>>,
)
    requires
        forall|j: int|
            0 <= j < req.candidates.len() ==> !present(known, (#[trigger] req.candidates[j]).path),
    ensures
        requirement_findings(object, req, ctx, format, known, owners) == seq![
            Finding::Missing { object, library: req.name },
        ],
{
    lemma_hit_from(req.candidates, 0, known);
}

/// A library that exists at one of the places it is looked for is not
/// reported as missing.
pub proof fn lemma_found_is_not_missing(
    object: Seq<char>,
    req: RequirementView,
    ctx: ContextView,
    format: ObjectFormat,
    known: Map<Seq<char>, bool>,
    owners: Map<Seq<char>, Option<Seq<char>>>,
    place: int,
)
    requires
        0 <= place < req.candidates.len(),
        present(known, req.candidates[place].path),
    ensures
        forall|i: int|
            0 <= i < requirement_findings(object, req, ctx, format, known, owners).len() ==> !(
            #[trigger] requirement_findings(object, req, ctx, format, known, owners)[i]
                is Missing),
{
    lemma_hit_from(req.candidates, 0, known);
    let at = first_hit(req.candidates, known)->0;
    let path = req.candidates[at].path;
    lemma_extra_findings_kind(object, path, ctx.extra_wrkref_dirs);
    lemma_toxic_findings_kind(object, path, ctx.toxic_patterns);
}

/// The first reference of a Mach-O object is the object's own name and
/// never a requirement: whatever it says, the requirements are the same,
/// and so is all that is reported, under any caches.
pub proof fn lemma_macho_first_reference_is_skipped(
    object: Seq<char>,
    needs: ObjectNeeds,
    other: Seq<char>,
    ctx: ContextView,
    known: Map<Seq<char>, bool>,
    owners: Map<Seq<char>, Option<Seq<char>>>,
)
    requires
        needs.required_libraries.len() > 0,
    ensures
        ({
            let changed = ObjectNeeds {
                required_libraries: needs.required_libraries.update(0, other),
                runpaths: needs.runpaths,
            };
            &&& macho_requirements(changed, ctx) == macho_requirements(needs, ctx)
            &&& report(
                object,
                macho_requirements(changed, ctx),
                ctx,
                ObjectFormat::MachO,
                known,
                owners,
            ) == report(
                object,
                macho_requirements(needs, ctx),
                ctx,
                ObjectFormat::MachO,
                known,
                owners,
            )
        }),
{
    assert(needs.required_libraries.update(0, other).drop_first()
        =~= needs.required_libraries.drop_first());
}

/// A Mach-O object that names only itself requires nothing.
pub proof fn lemma_macho_self_alone_requires_nothing(needs: ObjectNeeds, ctx: ContextView)
    requires
        needs.required_libraries.len() <= 1,
    ensures
        macho_requirements(needs, ctx) == Seq::<RequirementView>::empty(),
{
    if needs.required_libraries.len() == 1 {
        assert(needs.required_libraries.drop_first() =~= Seq::<Seq<char>>::empty());
    }
}

/// The ownership checks of requirements whose paths the index knows leave
/// the index as it is.
proof fn lemma_asked_owners_known<L: Fn() -> Option<String>>(
    load: &L,
    before: Map<Seq<char>, Option<Seq<char>>>,
    after: Map<Seq<char>, Option<Seq<char>>>,
    reqs: Seq<RequirementView>,
    known: Map<Seq<char>, bool>,
)
    requires
        asked_owners(load, before, after, reqs, known),
        forall|i: int|
            0 <= i < reqs.len() ==> (owned_hit(#[trigger] reqs[i], known) matches Some(path)
                ==> before.contains_key(path)),
    ensures
        after == before,
    decreases reqs.len(),
{
    if reqs.len() > 0 {
        let front = reqs.drop_last();
        let between = choose|between: Map<Seq<char>, Option<Seq<char>>>|
            asked_owners(load, before, between, front, known) && #[trigger] asked_owner(
                load,
                between,
                after,
                owned_hit(reqs.last(), known),
            );
        assert forall|i: int| 0 <= i < front.len() implies (owned_hit(
            #[trigger] front[i],
            known,
        ) matches Some(path) ==> before.contains_key(path)) by {
            assert(front[i] == reqs[i]);
        }
        lemma_asked_owners_known(load, before, between, front, known);
        assert(between == before);
        let last = reqs[reqs.len() - 1];
        match owned_hit(last, known) {
            Some(path) => {
                assert(before.contains_key(path));
                assert(before != Map::<Seq<char>, Option<Seq<char>>>::empty());
            },
            None => {},
        }
    }
}

/// A second run is the first run over again. Where the same requirements
/// are resolved twice and the second run starts with the caches that the
/// first run left, the second run reports exactly what the first reported
/// and leaves the caches as it found them, whatever the file system and
/// the package database answer by then.
pub proof fn lemma_second_run_reports_the_same<P: Fn(&str) -> bool, L: Fn() -> Option<String>>(
    object: Seq<char>,
    reqs: Seq<RequirementView>,
    ctx: ContextView,
    format: ObjectFormat,
    start: StateView,
    between: StateView,
    end: StateView,
    first_report: Seq<Finding>,
    second_report: Seq<Finding>,
    first_probe: &P,
    second_probe: &P,
    first_load: &L,
    second_load: &L,
)
    requires
        resolved(object, reqs, ctx, format, start, between, first_report, first_probe, first_load),
        resolved(object, reqs, ctx, format, between, end, second_report, second_probe, second_load),
    ensures
        second_report == first_report,
        lines(second_report) == lines(first_report),
        end == between,
{
    lemma_report_is_stable(
        object,
        reqs,
        ctx,
        format,
        between.existence,
        between.ownership,
        end.existence,
        end.ownership,
    );
    assert forall|i: int| 0 <= i < reqs.len() implies first_hit(
        (#[trigger] reqs[i]).candidates,
        end.existence,
    ) == first_hit(reqs[i].candidates, between.existence) by {
        assert(settled(reqs[i], between.existence, between.ownership));
        lemma_hit_from(reqs[i].candidates, 0, between.existence);
        lemma_hit_is_stable(reqs[i].candidates, 0, between.existence, end.existence);
    }
    assert forall|p: Seq<char>|
        end.existence.contains_key(p) implies between.existence.contains_key(p) by {
        if !between.existence.contains_key(p) {
            assert(any_consults(reqs, end.existence, p));
            let i = choose|i: int|
                0 <= i < reqs.len() && consults((#[trigger] reqs[i]).candidates, end.existence, p);
            assert(settled(reqs[i], between.existence, between.ownership));
            assert(consults(reqs[i].candidates, between.existence, p));
        }
    }
    assert(end.existence =~= between.existence);
    assert forall|i: int| 0 <= i < reqs.len() implies (owned_hit(
        #[trigger] reqs[i],
        end.existence,
    ) matches Some(path) ==> between.ownership.contains_key(path)) by {
        assert(settled(reqs[i], between.existence, between.ownership));
    }
    lemma_asked_owners_known(second_load, between.ownership, end.ownership, reqs, end.existence);
}

/// Whether every answer that `known` holds is the answer of the file
/// system that holds exactly the paths of `disk`.
pub open spec fn agrees_with(known: Map<Seq<char>, bool>, disk: Set<Seq<char>>) -> bool {
    forall|p: Seq<char>| #[trigger] known.contains_key(p) ==> known[p] == disk.contains(p)
}

/// What an existence cache holds that knows the whole of `disk`.
pub open spec fn whole_of(disk: Set<Seq<char>>) -> Map<Seq<char>, bool> {
    Map::total(|p: Seq<char>| disk.contains(p))
}

/// The existence cache does not show. Where the cache agrees with the file
/// system before a run and `probe` answers as the file system does, the
/// cache agrees with it afterwards, and the run reports what it would
/// report had it asked the file system for every path.
pub proof fn lemma_cache_does_not_show<P: Fn(&str) -> bool, L: Fn() -> Option<String>>(
    object: Seq<char>,
    reqs: Seq<RequirementView>,
    ctx: ContextView,
    format: ObjectFormat,
    before: StateView,
    after: StateView,
    out: Seq<Finding>,
    probe: &P,
    load: &L,
    disk: Set<Seq<char>>,
)
    requires
        resolved(object, reqs, ctx, format, before, after, out, probe, load),
        agrees_with(before.existence, disk),
        forall|asked: &str, present: bool|
            call_ensures(probe, (asked,), present) ==> present == disk.contains(asked@),
    ensures
        agrees_with(after.existence, disk),
        out == report(object, reqs, ctx, format, whole_of(disk), after.ownership),
{
    assert forall|p: Seq<char>| #[trigger]
        after.existence.contains_key(p) implies after.existence[p] == disk.contains(p) by {
        if before.existence.contains_key(p) {
            assert(after.existence[p] == before.existence[p]);
        } else {
            assert(answered_by(probe, p, after.existence[p]));
        }
    }
    assert(after.existence.submap_of(whole_of(disk)));
    lemma_report_is_stable(
        object,
        reqs,
        ctx,
        format,
        after.existence,
        after.ownership,
        whole_of(disk),
        after.ownership,
    );
}

} // verus!
