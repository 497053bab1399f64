//! The ownership validator: a library that an installed package owns must
//! belong to a package that is declared as needed at run time.

use crate::cache::{loaded, owner_view, recorded, OwnershipIndex};
use crate::context::{dependencies, DeclaredDependency, DependencyView, ValidationContext};
use crate::diagnostic::{findings, Diagnostic, Finding};
use crate::text::lines;
use vstd::prelude::*;

verus! {

/// Whether some declared dependency names `package`.
pub open spec fn declares(deps: Seq<DependencyView>, package: Seq<char>) -> bool {
    exists|i: int| 0 <= i < deps.len() && (#[trigger] deps[i]).package == package
}

/// Whether some declared dependency names `package` as needed at run time.
pub open spec fn declares_runtime(deps: Seq<DependencyView>, package: Seq<char>) -> bool {
    exists|i: int|
        0 <= i < deps.len() && (#[trigger] deps[i]).package == package
            && deps[i].kind.is_runtime()
}

/// What is held against a library that `owner` owns: nothing where no
/// package owns it, nothing where the owner is not declared at all, nothing
/// where it is declared as needed at run time, and otherwise one finding.
pub open spec fn owner_findings(
    object: Seq<char>,
    library: Seq<char>,
    owner: Option<Seq<char>>,
    deps: Seq<DependencyView>,
) -> Seq<Finding> {
    match owner {
        Some(package) => if declares(deps, package) && !declares_runtime(deps, package) {
            seq![Finding::NotRuntimeDependency { object, library, package }]
        } else {
            Seq::empty()
        },
        None => Seq::empty(),
    }
}

/// What the ownership check holds against a resolved library path, given
/// what the index knows. A path that the index does not know is not owned.
pub open spec fn ownership_findings(
    object: Seq<char>,
    library: Seq<char>,
    index: Map<Seq<char>, Option<Seq<char>>>,
    deps: Seq<DependencyView>,
) -> Seq<Finding> {
    if index.contains_key(library) {
        owner_findings(object, library, index[library], deps)
    } else {
        Seq::empty()
    }
}

/// The index that the answer of the package database gives: what its dump
/// holds, or nothing where it gave no dump.
pub open spec fn answered(dump: Option<Seq<char>>) -> Map<Seq<char>, Option<Seq<char>>> {
    match dump {
        Some(text) => loaded(Map::empty(), lines(text)),
        None => Map::empty(),
    }
}

/// The text of a dump, as contracts speak of it.
pub open spec fn dump_view(dump: Option<String>) -> Option<Seq<char>> {
    match dump {
        Some(text) => Some(text@),
        None => None,
    }
}

/// Whether the declared dependencies name `package`, and whether one of
/// them names it as needed at run time.
pub fn declared_as(deps: &Vec<DeclaredDependency>, package: &str) -> (r: (bool, bool))
    ensures
        r.0 == declares(dependencies(deps@), package@),
        r.1 == declares_runtime(dependencies(deps@), package@),
{
    let name = package.to_owned();
    let mut declared = false;
    let mut runtime = false;
    let mut i: usize = 0;
    while i < deps.len()
        invariant
            i <= deps.len(),
            name@ == package@,
            declared == declares(dependencies(deps@).take(i as int), package@),
            runtime == declares_runtime(dependencies(deps@).take(i as int), package@),
        decreases deps.len() - i,
    {
        let ghost before = dependencies(deps@).take(i as int);
        let ghost after = dependencies(deps@).take(i + 1);
        assert(after[i as int] == deps@[i as int]@);
        assert(forall|j: int| 0 <= j < i ==> before[j] == after[j]);
        if deps[i].package == name {
            declared = true;
            if deps[i].kind.is_runtime() {
                runtime = true;
            }
        }
        i += 1;
    }
    assert(dependencies(deps@).take(i as int) =~= dependencies(deps@));
    (declared, runtime)
}

/// Judges a library whose owner is known: `owner` is the package that owns
/// it, if any does.
pub fn judge_owner(
    object: &str,
    library: &str,
    owner: Option<String>,
    ctx: &ValidationContext,
) -> (out: Vec<Diagnostic>)
    ensures
        findings(out@) == owner_findings(
            object@,
            library@,
            owner_view(owner),
            ctx@.declared_dependencies,
        ),
{
    let mut out: Vec<Diagnostic> = Vec::new();
    match owner {
        Some(package) => {
            let (declared, runtime) = declared_as(&ctx.declared_dependencies, package.as_str());
            if declared && !runtime {
                out.push(
                    Diagnostic::NotRuntimeDependency {
                        object: object.to_owned(),
                        library: library.to_owned(),
                        package,
                    },
                );
            }
        },
        None => {},
    }
    assert(findings(out@) =~= owner_findings(
        object@,
        library@,
        owner_view(owner),
        ctx@.declared_dependencies,
    ));
    out
}

/// Checks that the package owning the resolved path `library`, if there is
/// one, is a declared runtime dependency.
///
/// An index that holds nothing was not filled yet: `load` is then asked for
/// the dump of the package database and the index reads it. A path that the
/// index does not know after that is recorded as owned by no package.
pub fn check_pkg<L: Fn() -> Option<String>>(
    object: &str,
    library: &str,
    ctx: &ValidationContext,
    index: &mut OwnershipIndex,
    load: &L,
) -> (out: Vec<Diagnostic>)
    requires
        call_requires(load, ()),
    ensures
        findings(out@) == ownership_findings(
            object@,
            library@,
            final(index)@,
            ctx@.declared_dependencies,
        ),
        final(index)@.contains_key(library@),
        old(index)@.submap_of(final(index)@),
        old(index)@ != Map::<Seq<char>, Option<Seq<char>>>::empty() ==> final(index)@ == recorded(
            old(index)@,
            library@,
            None,
        ),
        old(index)@ == Map::<Seq<char>, Option<Seq<char>>>::empty() ==> exists|
            dump: Option<String>,
        |
            call_ensures(load, (), dump) && final(index)@ == recorded(
                answered(dump_view(dump)),
                library@,
                None,
            ),
{
    if index.is_empty() {
        let dump = load();
        match &dump {
            Some(text) => {
                index.populate(text.as_str());
            },
            None => {},
        }
        assert(index@ == answered(dump_view(dump)));
        let owner = lookup_or_disown(index, library);
        assert(call_ensures(load, (), dump) && index@ == recorded(
            answered(dump_view(dump)),
            library@,
            None,
        ));
        judge_owner(object, library, owner, ctx)
    } else {
        let owner = lookup_or_disown(index, library);
        judge_owner(object, library, owner, ctx)
    }
}

/// The owner that the index names for `path`. A path that the index does
/// not know is recorded as owned by no package.
pub fn lookup_or_disown(index: &mut OwnershipIndex, path: &str) -> (owner: Option<String>)
    ensures
        final(index)@ == recorded(old(index)@, path@, None),
        final(index)@[path@] == owner_view(owner),
{
    match index.lookup(path) {
        Some(owner) => owner,
        None => {
            index.record(path, None);
            None
        },
    }
}

} // verus!
