//! Resolution: finding the first place where a required library exists, and
//! judging what was found there.

use crate::cache::{recorded, ExistenceCache, OwnershipIndex};
use crate::check_shlibs::ownership::{answered, check_pkg, dump_view, ownership_findings};
use crate::check_shlibs::policy::{check_shlib, policy_findings, ObjectFormat};
use crate::context::{ContextView, ValidationContext};
use crate::diagnostic::{findings, Diagnostic, Finding};
use vstd::prelude::*;

verus! {

/// What finding a library at a location entails.
#[derive(Debug, Clone, Copy, PartialEq, Eq, Structural)]
pub enum Stage {
    /// Under the staging root: the package's own library, not installed yet.
    /// It satisfies the requirement and is not judged.
    Staged,
    /// Where the object asks for it: judged by the path policy and by
    /// ownership.
    Installed,
    /// In one of the platform's directories: judged by the path policy only.
    System,
}

/// A place to look for a library, as contracts speak of it.
pub struct CandidateView {
    pub path: Seq<char>,
    pub stage: Stage,
}

/// A place to look for a library.
#[derive(Debug, Clone, PartialEq, Eq)]
pub struct Candidate {
    pub path: String,
    pub stage: Stage,
}

impl View for Candidate {
    type V = CandidateView;

    open spec fn view(&self) -> CandidateView {
        CandidateView { path: self.path@, stage: self.stage }
    }
}

/// The views of a list of candidates, in order.
pub open spec fn candidates(list: Seq<Candidate>) -> Seq<CandidateView> {
    list.map_values(|c: Candidate| c@)
}

/// A library that an object requires, as contracts speak of it.
pub struct RequirementView {
    pub name: Seq<char>,
    pub candidates: Seq<CandidateView>,
}

/// A library that an object requires: the name that the object gives it, and
/// the places to look for it, in the order in which they are tried.
#[derive(Debug, Clone, PartialEq, Eq)]
pub struct Requirement {
    pub name: String,
    pub candidates: Vec<Candidate>,
}

impl View for Requirement {
    type V = RequirementView;

    open spec fn view(&self) -> RequirementView {
        RequirementView { name: self.name@, candidates: candidates(self.candidates@) }
    }
}

/// The views of a list of requirements, in order.
pub open spec fn requirements(list: Seq<Requirement>) -> Seq<RequirementView> {
    list.map_values(|r: Requirement| r@)
}

/// Whether `path` is known to exist.
pub open spec fn present(known: Map<Seq<char>, bool>, path: Seq<char>) -> bool {
    known.contains_key(path) && known[path]
}

/// The index of the first candidate at or after `from` that is known to
/// exist.
pub open spec fn hit_from(
    list: Seq<CandidateView>,
    from: int,
    known: Map<Seq<char>, bool>,
) -> Option<int>
    decreases list.len() - from,
{
    if from >= list.len() {
        None
    } else if present(known, list[from].path) {
        Some(from)
    } else {
        hit_from(list, from + 1, known)
    }
}

/// The index of the first candidate that is known to exist.
pub open spec fn first_hit(list: Seq<CandidateView>, known: Map<Seq<char>, bool>) -> Option<int> {
    hit_from(list, 0, known)
}

/// How many candidates a search looks at: all up to and including the first
/// that exists, or all of them where none exists.
pub open spec fn consulted(list: Seq<CandidateView>, known: Map<Seq<char>, bool>) -> int {
    match first_hit(list, known) {
        Some(at) => at + 1,
        None => list.len() as int,
    }
}

/// Whether a search for one of `list` looks at `path`.
pub open spec fn consults(
    list: Seq<CandidateView>,
    known: Map<Seq<char>, bool>,
    path: Seq<char>,
) -> bool {
    exists|j: int|
        0 <= j < consulted(list, known) && j < list.len() && (#[trigger] list[j]).path == path
}

/// Whether `known` holds an answer for every candidate that a search of
/// `list` looks at.
pub open spec fn searched(list: Seq<CandidateView>, known: Map<Seq<char>, bool>) -> bool {
    forall|j: int|
        0 <= j < consulted(list, known) && j < list.len() ==> known.contains_key(
            (#[trigger] list[j]).path,
        )
}

/// The path where the requirement was found and has to pass the ownership
/// check, if it was found at such a place.
pub open spec fn owned_hit(req: RequirementView, known: Map<Seq<char>, bool>) -> Option<
    Seq<char>,
> {
    match first_hit(req.candidates, known) {
        Some(at) => if req.candidates[at].stage == Stage::Installed {
            Some(req.candidates[at].path)
        } else {
            None
        },
        None => None,
    }
}

/// Whether the caches hold everything that resolving `req` asks of them.
pub open spec fn settled(
    req: RequirementView,
    known: Map<Seq<char>, bool>,
    owners: Map<Seq<char>, Option<Seq<char>>>,
) -> bool {
    &&& searched(req.candidates, known)
    &&& owned_hit(req, known) matches Some(path) ==> owners.contains_key(path)
}

/// What resolving one requirement reports, given what the caches hold.
///
/// The first candidate that exists decides: a staged one satisfies the
/// requirement without further checks, an installed one is judged by the
/// path policy and by ownership, one in a system directory by the path
/// policy alone. Where no candidate exists the library is missing, which is
/// reported once, under the name that the object gives it.
pub open spec fn requirement_findings(
    object: Seq<char>,
    req: RequirementView,
    ctx: ContextView,
    format: ObjectFormat,
    known: Map<Seq<char>, bool>,
    owners: Map<Seq<char>, Option<Seq<char>>>,
) -> Seq<Finding> {
    match first_hit(req.candidates, known) {
        None => seq![Finding::Missing { object, library: req.name }],
        Some(at) => {
            let found = req.candidates[at];
            match found.stage {
                Stage::Staged => Seq::empty(),
                Stage::Installed => policy_findings(object, found.path, ctx, format)
                    + ownership_findings(object, found.path, owners, ctx.declared_dependencies),
                Stage::System => policy_findings(object, found.path, ctx, format),
            }
        },
    }
}

/// What resolving a list of requirements reports, in the order of the list.
pub open spec fn report(
    object: Seq<char>,
    reqs: Seq<RequirementView>,
    ctx: ContextView,
    format: ObjectFormat,
    known: Map<Seq<char>, bool>,
    owners: Map<Seq<char>, Option<Seq<char>>>,
) -> Seq<Finding>
    decreases reqs.len(),
{
    if reqs.len() == 0 {
        Seq::empty()
    } else {
        report(object, reqs.drop_last(), ctx, format, known, owners) + requirement_findings(
            object,
            reqs.last(),
            ctx,
            format,
            known,
            owners,
        )
    }
}

/// Whether the caches hold everything that resolving each of `reqs` asks of
/// them.
pub open spec fn all_settled(
    reqs: Seq<RequirementView>,
    known: Map<Seq<char>, bool>,
    owners: Map<Seq<char>, Option<Seq<char>>>,
) -> bool {
    forall|i: int| 0 <= i < reqs.len() ==> settled(#[trigger] reqs[i], known, owners)
}

/// A search that found answers for all it looked at finds the same in any
/// cache that holds those answers and more.
pub proof fn lemma_hit_is_stable(
    list: Seq<CandidateView>,
    from: int,
    known: Map<Seq<char>, bool>,
    more: Map<Seq<char>, bool>,
)
    requires
        0 <= from,
        known.submap_of(more),
        forall|j: int|
            from <= j < list.len() && (hit_from(list, from, known) matches Some(at) ==> j <= at)
                ==> known.contains_key((#[trigger] list[j]).path),
    ensures
        hit_from(list, from, more) == hit_from(list, from, known),
    decreases list.len() - from,
{
    lemma_hit_from(list, from, known);
    if from < list.len() {
        assert(known.contains_key(list[from].path));
        if !present(known, list[from].path) {
            lemma_hit_is_stable(list, from + 1, known, more);
        }
    }
}

/// The first hit lies within the list, exists, and nothing before it does.
pub proof fn lemma_hit_from(list: Seq<CandidateView>, from: int, known: Map<Seq<char>, bool>)
    requires
        0 <= from,
    ensures
        match hit_from(list, from, known) {
            Some(at) => from <= at < list.len() && present(known, list[at].path) && forall|
                j: int,
            |
                from <= j < at ==> !present(known, (#[trigger] list[j]).path),
            None => forall|j: int|
                from <= j < list.len() ==> !present(known, (#[trigger] list[j]).path),
        },
    decreases list.len() - from,
{
    if from < list.len() && !present(known, list[from].path) {
        lemma_hit_from(list, from + 1, known);
    }
}

/// What a settled requirement reports does not change when the caches
/// learn more.
pub proof fn lemma_settled_is_stable(
    object: Seq<char>,
    req: RequirementView,
    ctx: ContextView,
    format: ObjectFormat,
    known: Map<Seq<char>, bool>,
    owners: Map<Seq<char>, Option<Seq<char>>>,
    more_known: Map<Seq<char>, bool>,
    more_owners: Map<Seq<char>, Option<Seq<char>>>,
)
    requires
        settled(req, known, owners),
        known.submap_of(more_known),
        owners.submap_of(more_owners),
    ensures
        first_hit(req.candidates, more_known) == first_hit(req.candidates, known),
        settled(req, more_known, more_owners),
        requirement_findings(object, req, ctx, format, more_known, more_owners)
            == requirement_findings(object, req, ctx, format, known, owners),
{
    lemma_hit_from(req.candidates, 0, known);
    lemma_hit_is_stable(req.candidates, 0, known, more_known);
}

/// What a list of settled requirements reports does not change when the
/// caches learn more.
pub proof fn lemma_report_is_stable(
    object: Seq<char>,
    reqs: Seq<RequirementView>,
    ctx: ContextView,
    format: ObjectFormat,
    known: Map<Seq<char>, bool>,
    owners: Map<Seq<char>, Option<Seq<char>>>,
    more_known: Map<Seq<char>, bool>,
    more_owners: Map<Seq<char>, Option<Seq<char>>>,
)
    requires
        all_settled(reqs, known, owners),
        known.submap_of(more_known),
        owners.submap_of(more_owners),
    ensures
        all_settled(reqs, more_known, more_owners),
        report(object, reqs, ctx, format, more_known, more_owners) == report(
            object,
            reqs,
            ctx,
            format,
            known,
            owners,
        ),
    decreases reqs.len(),
{
    assert forall|i: int| 0 <= i < reqs.len() implies settled(
        #[trigger] reqs[i],
        more_known,
        more_owners,
    ) by {
        lemma_settled_is_stable(
            object,
            reqs[i],
            ctx,
            format,
            known,
            owners,
            more_known,
            more_owners,
        );
    }
    if reqs.len() > 0 {
        let front = reqs.drop_last();
        assert forall|i: int| 0 <= i < front.len() implies settled(
            #[trigger] front[i],
            known,
            owners,
        ) by {
            assert(front[i] == reqs[i]);
        }
        lemma_report_is_stable(object, front, ctx, format, known, owners, more_known, more_owners);
        lemma_settled_is_stable(
            object,
            reqs.last(),
            ctx,
            format,
            known,
            owners,
            more_known,
            more_owners,
        );
    }
}

/// Whether `probe` can answer `present` when asked for `path`.
pub open spec fn answered_by<P: Fn(&str) -> bool>(
    probe: &P,
    path: Seq<char>,
    present: bool,
) -> bool {
    exists|asked: &str| asked@ == path && call_ensures(probe, (asked,), present)
}

/// Looks for the first of `list` that exists, asking the cache and, where
/// the cache does not know, `probe`. The search stops at the first hit.
pub fn first_existing<P: Fn(&str) -> bool>(
    list: &Vec<Candidate>,
    cache: &mut ExistenceCache,
    probe: &P,
) -> (hit: Option<usize>)
    requires
        forall|p: &str| call_requires(probe, (p,)),
    ensures
        match hit {
            Some(at) => first_hit(candidates(list@), final(cache)@) == Some(at as int),
            None => first_hit(candidates(list@), final(cache)@) is None,
        },
        searched(candidates(list@), final(cache)@),
        old(cache)@.submap_of(final(cache)@),
        forall|p: Seq<char>| #[trigger]
            final(cache)@.contains_key(p) <==> old(cache)@.contains_key(p) || consults(
                candidates(list@),
                final(cache)@,
                p,
            ),
        forall|p: Seq<char>|
            !old(cache)@.contains_key(p) && #[trigger] final(cache)@.contains_key(p)
                ==> answered_by(probe, p, final(cache)@[p]),
{
    let ghost all = candidates(list@);
    let mut i: usize = 0;
    while i < list.len()
        invariant
            i <= list.len(),
            all == candidates(list@),
            forall|p: &str| call_requires(probe, (p,)),
            old(cache)@.submap_of(cache@),
            forall|j: int|
                0 <= j < i ==> cache@.contains_key((#[trigger] all[j]).path)
                    && !cache@[all[j].path],
            forall|p: Seq<char>| #[trigger]
                cache@.contains_key(p) <==> old(cache)@.contains_key(p) || exists|j: int|
                    0 <= j < i && (#[trigger] all[j]).path == p,
            forall|p: Seq<char>|
                !old(cache)@.contains_key(p) && #[trigger] cache@.contains_key(p) ==> answered_by(
                    probe,
                    p,
                    cache@[p],
                ),
        decreases list.len() - i,
    {
        let ghost before = cache@;
        let path = list[i].path.as_str();
        assert(all[i as int].path == path@);
        let found = cache.is_present(path, probe);
        proof {
            assert(before.submap_of(cache@));
            vstd::map_lib::lemma_submap_of_trans(old(cache)@, before, cache@);
            assert forall|p: Seq<char>|
                !old(cache)@.contains_key(p) && #[trigger] cache@.contains_key(p)
                implies answered_by(probe, p, cache@[p]) by {
                if before.contains_key(p) {
                    assert(cache@[p] == before[p]);
                } else {
                    assert(p == path@);
                    assert(call_ensures(probe, (path,), found));
                }
            }
            assert forall|p: Seq<char>| #[trigger]
                cache@.contains_key(p) <==> old(cache)@.contains_key(p) || exists|j: int|
                    0 <= j < i + 1 && (#[trigger] all[j]).path == p by {
                if cache@.contains_key(p) && !old(cache)@.contains_key(p) {
                    if before.contains_key(p) {
                        let j = choose|j: int| 0 <= j < i && (#[trigger] all[j]).path == p;
                        assert(0 <= j < i + 1 && all[j].path == p);
                    } else {
                        assert(all[i as int].path == p);
                    }
                }
                if exists|j: int| 0 <= j < i + 1 && (#[trigger] all[j]).path == p {
                    let j = choose|j: int| 0 <= j < i + 1 && (#[trigger] all[j]).path == p;
                    if j < i {
                        assert(before.contains_key(p));
                    }
                }
            }
        }
        if found {
            proof {
                lemma_found(all, i as int, cache@);
            }
            return Some(i);
        }
        i += 1;
    }
    proof {
        lemma_not_found(all, cache@);
    }
    None
}

/// A candidate that exists, after none that does, is the first hit, and the
/// search looks at the candidates up to it.
proof fn lemma_found(list: Seq<CandidateView>, at: int, known: Map<Seq<char>, bool>)
    requires
        0 <= at < list.len(),
        present(known, list[at].path),
        forall|j: int|
            0 <= j < at ==> known.contains_key((#[trigger] list[j]).path) && !known[list[j].path],
    ensures
        first_hit(list, known) == Some(at),
        searched(list, known),
        forall|p: Seq<char>|
            consults(list, known, p) <==> exists|j: int|
                0 <= j < at + 1 && (#[trigger] list[j]).path == p,
{
    lemma_hit_at(list, 0, at, known);
}

proof fn lemma_hit_at(list: Seq<CandidateView>, from: int, at: int, known: Map<Seq<char>, bool>)
    requires
        0 <= from <= at < list.len(),
        present(known, list[at].path),
        forall|j: int| from <= j < at ==> !present(known, (#[trigger] list[j]).path),
    ensures
        hit_from(list, from, known) == Some(at),
    decreases at - from,
{
    if from < at {
        assert(!present(known, list[from].path));
        lemma_hit_at(list, from + 1, at, known);
    }
}

/// Where no candidate exists there is no hit, and the search looks at all
/// candidates.
proof fn lemma_not_found(list: Seq<CandidateView>, known: Map<Seq<char>, bool>)
    requires
        forall|j: int|
            0 <= j < list.len() ==> known.contains_key((#[trigger] list[j]).path)
                && !known[list[j].path],
    ensures
        first_hit(list, known) is None,
        searched(list, known),
        forall|p: Seq<char>|
            consults(list, known, p) <==> exists|j: int|
                0 <= j < list.len() && (#[trigger] list[j]).path == p,
{
    lemma_hit_from(list, 0, known);
}


/// What a run has learnt: which paths exist, and who owns which file. One
/// state serves all objects of a run.
pub struct CheckState {
    pub existence: ExistenceCache,
    pub ownership: OwnershipIndex,
}

impl CheckState {
    /// The state of a run that has learnt nothing yet.
    pub fn new() -> (state: CheckState)
        ensures
            state.existence@ == Map::<Seq<char>, bool>::empty(),
            state.ownership@ == Map::<Seq<char>, Option<Seq<char>>>::empty(),
    {
        CheckState { existence: ExistenceCache::new(), ownership: OwnershipIndex::new() }
    }
}

/// What a run has learnt, as contracts speak of it.
pub struct StateView {
    pub existence: Map<Seq<char>, bool>,
    pub ownership: Map<Seq<char>, Option<Seq<char>>>,
}

impl View for CheckState {
    type V = StateView;

    open spec fn view(&self) -> StateView {
        StateView { existence: self.existence@, ownership: self.ownership@ }
    }
}

/// How one ownership check changes the index. Without a path to check the
/// index stays as it is. Otherwise an index that holds nothing is first
/// filled from what `load` answers, and then the path is recorded as owned
/// by no package unless the index knows it.
pub open spec fn asked_owner<L: Fn() -> Option<String>>(
    load: &L,
    before: Map<Seq<char>, Option<Seq<char>>>,
    after: Map<Seq<char>, Option<Seq<char>>>,
    hit: Option<Seq<char>>,
) -> bool {
    match hit {
        None => after == before,
        Some(path) => if before == Map::<Seq<char>, Option<Seq<char>>>::empty() {
            exists|dump: Option<String>|
                call_ensures(load, (), dump) && after == recorded(
                    answered(dump_view(dump)),
                    path,
                    None,
                )
        } else {
            after == recorded(before, path, None)
        },
    }
}

/// How resolving `reqs` in order changes the index: one ownership check for
/// each requirement that was found where ownership matters.
pub open spec fn asked_owners<L: Fn() -> Option<String>>(
    load: &L,
    before: Map<Seq<char>, Option<Seq<char>>>,
    after: Map<Seq<char>, Option<Seq<char>>>,
    reqs: Seq<RequirementView>,
    known: Map<Seq<char>, bool>,
) -> bool
    decreases reqs.len(),
{
    if reqs.len() == 0 {
        after == before
    } else {
        exists|between: Map<Seq<char>, Option<Seq<char>>>|
            asked_owners(load, before, between, reqs.drop_last(), known) && #[trigger] asked_owner(
                load,
                between,
                after,
                owned_hit(reqs.last(), known),
            )
    }
}

/// Whether a search for one of `reqs` looks at `path`.
pub open spec fn any_consults(
    reqs: Seq<RequirementView>,
    known: Map<Seq<char>, bool>,
    path: Seq<char>,
) -> bool {
    exists|i: int| 0 <= i < reqs.len() && consults((#[trigger] reqs[i]).candidates, known, path)
}

/// Resolves one requirement of `object` and returns what is held against
/// it.
pub fn resolve<P: Fn(&str) -> bool, L: Fn() -> Option<String>>(
    object: &str,
    req: &Requirement,
    ctx: &ValidationContext,
    format: ObjectFormat,
    state: &mut CheckState,
    probe: &P,
    load: &L,
) -> (out: Vec<Diagnostic>)
    requires
        forall|p: &str| call_requires(probe, (p,)),
        call_requires(load, ()),
    ensures
        findings(out@) == requirement_findings(
            object@,
            req@,
            ctx@,
            format,
            final(state).existence@,
            final(state).ownership@,
        ),
        settled(req@, final(state).existence@, final(state).ownership@),
        old(state).existence@.submap_of(final(state).existence@),
        old(state).ownership@.submap_of(final(state).ownership@),
        forall|p: Seq<char>| #[trigger]
            final(state).existence@.contains_key(p) <==> old(state).existence@.contains_key(p)
                || consults(req@.candidates, final(state).existence@, p),
        forall|p: Seq<char>|
            !old(state).existence@.contains_key(p)
                && #[trigger] final(state).existence@.contains_key(p) ==> answered_by(
                probe,
                p,
                final(state).existence@[p],
            ),
        asked_owner(
            load,
            old(state).ownership@,
            final(state).ownership@,
            owned_hit(req@, final(state).existence@),
        ),
{
    let hit = first_existing(&req.candidates, &mut state.existence, probe);
    match hit {
        None => {
            let mut out: Vec<Diagnostic> = Vec::new();
            out.push(Diagnostic::Missing { object: object.to_owned(), library: req.name.clone() });
            assert(findings(out@) =~= seq![
                Finding::Missing { object: object@, library: req@.name },
            ]);
            out
        },
        Some(at) => {
            proof {
                lemma_hit_from(req@.candidates, 0, state.existence@);
            }
            let found = &req.candidates[at];
            assert(req@.candidates[at as int] == found@);
            match found.stage {
                Stage::Staged => {
                    let out: Vec<Diagnostic> = Vec::new();
                    assert(findings(out@) =~= Seq::<Finding>::empty());
                    out
                },
                Stage::Installed => {
                    let mut out = check_shlib(object, found.path.as_str(), ctx, format);
                    let owned = check_pkg(
                        object,
                        found.path.as_str(),
                        ctx,
                        &mut state.ownership,
                        load,
                    );
                    crate::diagnostic::extend(&mut out, owned);
                    out
                },
                Stage::System => check_shlib(object, found.path.as_str(), ctx, format),
            }
        },
    }
}

/// The ownership checks of settled requirements are the same in any cache
/// that knows more.
pub proof fn lemma_asked_owners_is_stable<L: Fn() -> Option<String>>(
    load: &L,
    before: Map<Seq<char>, Option<Seq<char>>>,
    after: Map<Seq<char>, Option<Seq<char>>>,
    reqs: Seq<RequirementView>,
    known: Map<Seq<char>, bool>,
    more: Map<Seq<char>, bool>,
)
    requires
        asked_owners(load, before, after, reqs, known),
        forall|i: int| 0 <= i < reqs.len() ==> searched((#[trigger] reqs[i]).candidates, known),
        known.submap_of(more),
    ensures
        asked_owners(load, before, after, reqs, more),
    decreases reqs.len(),
{
    if reqs.len() > 0 {
        let front = reqs.drop_last();
        let between = choose|between: Map<Seq<char>, Option<Seq<char>>>|
            asked_owners(load, before, between, front, known) && #[trigger] asked_owner(
                load,
                between,
                after,
                owned_hit(reqs.last(), known),
            );
        assert forall|i: int| 0 <= i < front.len() implies searched(
            (#[trigger] front[i]).candidates,
            known,
        ) by {
            assert(front[i] == reqs[i]);
        }
        lemma_asked_owners_is_stable(load, before, between, front, known, more);
        assert(searched(reqs[reqs.len() - 1].candidates, known));
        lemma_hit_from(reqs.last().candidates, 0, known);
        lemma_hit_is_stable(reqs.last().candidates, 0, known, more);
        assert(owned_hit(reqs.last(), more) == owned_hit(reqs.last(), known));
    }
}

/// The account of resolving `reqs` for `object`: what is reported and what
/// the caches hold afterwards.
///
/// The report is what the requirements give under the caches as they are
/// afterwards. The caches keep all they held before. The existence cache
/// gains exactly the paths that the searches looked at and did not know,
/// each with an answer of `probe`. The ownership index changes by one
/// ownership check for each requirement found where ownership matters.
pub open spec fn resolved<P: Fn(&str) -> bool, L: Fn() -> Option<String>>(
    object: Seq<char>,
    reqs: Seq<RequirementView>,
    ctx: ContextView,
    format: ObjectFormat,
    before: StateView,
    after: StateView,
    out: Seq<Finding>,
    probe: &P,
    load: &L,
) -> bool {
    &&& out == report(object, reqs, ctx, format, after.existence, after.ownership)
    &&& all_settled(reqs, after.existence, after.ownership)
    &&& before.existence.submap_of(after.existence)
    &&& before.ownership.submap_of(after.ownership)
    &&& forall|p: Seq<char>| #[trigger]
        after.existence.contains_key(p) <==> before.existence.contains_key(p) || any_consults(
            reqs,
            after.existence,
            p,
        )
    &&& forall|p: Seq<char>|
        !before.existence.contains_key(p) && #[trigger] after.existence.contains_key(p)
            ==> answered_by(probe, p, after.existence[p])
    &&& asked_owners(load, before.ownership, after.ownership, reqs, after.existence)
}

/// Resolves the requirements of `object` in order and returns what is held
/// against them, in that order.
pub fn check_requirements<P: Fn(&str) -> bool, L: Fn() -> Option<String>>(
    object: &str,
    reqs: &Vec<Requirement>,
    ctx: &ValidationContext,
    format: ObjectFormat,
    state: &mut CheckState,
    probe: &P,
    load: &L,
) -> (out: Vec<Diagnostic>)
    requires
        forall|p: &str| call_requires(probe, (p,)),
        call_requires(load, ()),
    ensures
        resolved(
            object@,
            requirements(reqs@),
            ctx@,
            format,
            old(state)@,
            final(state)@,
            findings(out@),
            probe,
            load,
        ),
{
    let ghost all = requirements(reqs@);
    let mut out: Vec<Diagnostic> = Vec::new();
    let mut i: usize = 0;
    assert(findings(out@) =~= Seq::<Finding>::empty());
    while i < reqs.len()
        invariant
            i <= reqs.len(),
            all == requirements(reqs@),
            forall|p: &str| call_requires(probe, (p,)),
            call_requires(load, ()),
            findings(out@) == report(
                object@,
                all.take(i as int),
                ctx@,
                format,
                state.existence@,
                state.ownership@,
            ),
            all_settled(all.take(i as int), state.existence@, state.ownership@),
            old(state).existence@.submap_of(state.existence@),
            old(state).ownership@.submap_of(state.ownership@),
            forall|p: Seq<char>| #[trigger]
                state.existence@.contains_key(p) <==> old(state).existence@.contains_key(p)
                    || any_consults(all.take(i as int), state.existence@, p),
            forall|p: Seq<char>|
                !old(state).existence@.contains_key(p) && #[trigger] state.existence@.contains_key(
                    p,
                ) ==> answered_by(probe, p, state.existence@[p]),
            asked_owners(
                load,
                old(state).ownership@,
                state.ownership@,
                all.take(i as int),
                state.existence@,
            ),
        decreases reqs.len() - i,
    {
        let ghost known = state.existence@;
        let ghost owners = state.ownership@;
        let ghost done = all.take(i as int);
        let ghost next = all.take(i + 1);
        let more = resolve(object, &reqs[i], ctx, format, state, probe, load);
        proof {
            let req = all[i as int];
            assert(req == reqs@[i as int]@);
            assert(next.drop_last() =~= done);
            assert(next.last() == req);
            lemma_report_is_stable(
                object@,
                done,
                ctx@,
                format,
                known,
                owners,
                state.existence@,
                state.ownership@,
            );
            assert forall|k: int| 0 <= k < next.len() implies settled(
                #[trigger] next[k],
                state.existence@,
                state.ownership@,
            ) by {
                if k < i {
                    assert(next[k] == done[k]);
                }
            }
            assert forall|k: int| 0 <= k < done.len() implies searched(
                (#[trigger] done[k]).candidates,
                known,
            ) by {
                assert(settled(done[k], known, owners));
            }
            lemma_asked_owners_is_stable(
                load,
                old(state).ownership@,
                owners,
                done,
                known,
                state.existence@,
            );
            assert(asked_owner(
                load,
                owners,
                state.ownership@,
                owned_hit(next.last(), state.existence@),
            ));
            assert(asked_owners(
                load,
                old(state).ownership@,
                state.ownership@,
                next,
                state.existence@,
            ));
            assert(next =~= done.push(req));
            assert forall|p: Seq<char>| #[trigger]
                state.existence@.contains_key(p) <==> old(state).existence@.contains_key(p)
                    || any_consults(next, state.existence@, p) by {
                lemma_consults_step(done, next, req, known, owners, state.existence@, p);
            }
            assert forall|p: Seq<char>|
                !old(state).existence@.contains_key(p) && #[trigger] state.existence@.contains_key(
                    p,
                ) implies answered_by(probe, p, state.existence@[p]) by {
                if known.contains_key(p) {
                    assert(state.existence@[p] == known[p]);
                }
            }
            vstd::map_lib::lemma_submap_of_trans(old(state).existence@, known, state.existence@);
            vstd::map_lib::lemma_submap_of_trans(old(state).ownership@, owners, state.ownership@);
        }
        crate::diagnostic::extend(&mut out, more);
        i += 1;
    }
    assert(all.take(i as int) =~= all);
    out
}

/// Which paths the searches look at, one requirement further: those of the
/// requirements before, which are settled, and those of the new one.
proof fn lemma_consults_step(
    done: Seq<RequirementView>,
    next: Seq<RequirementView>,
    req: RequirementView,
    known: Map<Seq<char>, bool>,
    owners: Map<Seq<char>, Option<Seq<char>>>,
    more: Map<Seq<char>, bool>,
    path: Seq<char>,
)
    requires
        next == done.push(req),
        all_settled(done, known, owners),
        known.submap_of(more),
    ensures
        any_consults(next, more, path) <==> any_consults(done, known, path) || consults(
            req.candidates,
            more,
            path,
        ),
{
    assert forall|i: int| 0 <= i < done.len() implies first_hit(
        (#[trigger] done[i]).candidates,
        more,
    ) == first_hit(done[i].candidates, known) by {
        assert(settled(done[i], known, owners));
        lemma_hit_from(done[i].candidates, 0, known);
        lemma_hit_is_stable(done[i].candidates, 0, known, more);
    }
    if any_consults(next, more, path) {
        let i = choose|i: int|
            0 <= i < next.len() && consults((#[trigger] next[i]).candidates, more, path);
        if i < done.len() {
            assert(next[i] == done[i]);
            assert(consults(done[i].candidates, known, path));
        } else {
            assert(next[i] == req);
        }
    }
    if any_consults(done, known, path) {
        let i = choose|i: int|
            0 <= i < done.len() && consults((#[trigger] done[i]).candidates, known, path);
        assert(next[i] == done[i]);
        assert(consults(next[i].candidates, more, path));
    }
    if consults(req.candidates, more, path) {
        assert(next[next.len() - 1] == req);
    }
}

} // verus!
