//! The path-policy validator: what a resolved library path must not be.

use crate::context::{sources, ContextView, ValidationContext};
use crate::diagnostic::{findings, Diagnostic, Finding};
use crate::paths::{has_prefix, is_under};
use crate::pattern::regex_matches;
use crate::text::views;
use vstd::prelude::*;

verus! {

/// The binary format of a checked object.
#[derive(Debug, Clone, Copy, PartialEq, Eq, Structural)]
pub enum ObjectFormat {
    Elf,
    MachO,
}

/// The finding for a library under the work directory, if it is there.
pub open spec fn wrkdir_findings(object: Seq<char>, library: Seq<char>, wrkdir: Seq<char>) -> Seq<
    Finding,
> {
    if has_prefix(library, wrkdir) {
        seq![Finding::WorkDir { object, library }]
    } else {
        Seq::empty()
    }
}

/// One finding for each of `dirs` that the library lies under, in the order
/// of `dirs`.
pub open spec fn extra_findings(object: Seq<char>, library: Seq<char>, dirs: Seq<Seq<char>>) -> Seq<
    Finding,
>
    decreases dirs.len(),
{
    if dirs.len() == 0 {
        Seq::empty()
    } else {
        let before = extra_findings(object, library, dirs.drop_last());
        if has_prefix(library, dirs.last()) {
            before.push(Finding::ExtraWorkRef { object, library, directory: dirs.last() })
        } else {
            before
        }
    }
}

/// One finding for each of `patterns` that matches in the library path, in
/// the order of `patterns`.
pub open spec fn toxic_findings(
    object: Seq<char>,
    library: Seq<char>,
    patterns: Seq<Seq<char>>,
) -> Seq<Finding>
    decreases patterns.len(),
{
    if patterns.len() == 0 {
        Seq::empty()
    } else {
        let before = toxic_findings(object, library, patterns.drop_last());
        if regex_matches(patterns.last(), library) {
            before.push(Finding::Toxic { object, library, pattern: patterns.last() })
        } else {
            before
        }
    }
}

/// The finding for a library path that is not absolute. Only ELF objects can
/// name one: a Mach-O reference is a full path by construction.
pub open spec fn relative_findings(
    object: Seq<char>,
    library: Seq<char>,
    format: ObjectFormat,
) -> Seq<Finding> {
    if format == ObjectFormat::Elf && !has_prefix(library, "/"@) {
        seq![Finding::Relative { object, library }]
    } else {
        Seq::empty()
    }
}

/// Everything the path policy holds against a resolved library path. The
/// four checks are independent: each reports whatever the others find.
pub open spec fn policy_findings(
    object: Seq<char>,
    library: Seq<char>,
    ctx: ContextView,
    format: ObjectFormat,
) -> Seq<Finding> {
    wrkdir_findings(object, library, ctx.wrkdir) + extra_findings(
        object,
        library,
        ctx.extra_wrkref_dirs,
    ) + toxic_findings(object, library, ctx.toxic_patterns) + relative_findings(
        object,
        library,
        format,
    )
}

/// Checks the resolved path `library` of a library that `object` requires
/// against the path policy, and returns every violation.
pub fn check_shlib(
    object: &str,
    library: &str,
    ctx: &ValidationContext,
    format: ObjectFormat,
) -> (out: Vec<Diagnostic>)
    ensures
        findings(out@) == policy_findings(object@, library@, ctx@, format),
{
    let mut out: Vec<Diagnostic> = Vec::new();
    if is_under(library, ctx.wrkdir.as_str()) {
        out.push(Diagnostic::WorkDir { object: object.to_owned(), library: library.to_owned() });
    }
    assert(findings(out@) =~= wrkdir_findings(object@, library@, ctx@.wrkdir));

    let ghost dirs = views(ctx.extra_wrkref_dirs@);
    let mut i: usize = 0;
    while i < ctx.extra_wrkref_dirs.len()
        invariant
            i <= ctx.extra_wrkref_dirs.len(),
            dirs == views(ctx.extra_wrkref_dirs@),
            findings(out@) == wrkdir_findings(object@, library@, ctx@.wrkdir) + extra_findings(
                object@,
                library@,
                dirs.take(i as int),
            ),
        decreases ctx.extra_wrkref_dirs.len() - i,
    {
        let dir = &ctx.extra_wrkref_dirs[i];
        let ghost before = findings(out@);
        proof {
            assert(dirs.take(i + 1).drop_last() =~= dirs.take(i as int));
            assert(dirs.take(i + 1).last() == dir@);
        }
        if is_under(library, dir.as_str()) {
            out.push(
                Diagnostic::ExtraWorkRef {
                    object: object.to_owned(),
                    library: library.to_owned(),
                    directory: dir.clone(),
                },
            );
            assert(findings(out@) =~= before.push(
                Finding::ExtraWorkRef { object: object@, library: library@, directory: dir@ },
            ));
        }
        i += 1;
        assert(findings(out@) =~= wrkdir_findings(object@, library@, ctx@.wrkdir) + extra_findings(
            object@,
            library@,
            dirs.take(i as int),
        ));
    }
    assert(dirs.take(i as int) =~= dirs);

    let ghost patterns = sources(ctx.toxic_patterns@);
    let ghost head = findings(out@);
    let mut k: usize = 0;
    while k < ctx.toxic_patterns.len()
        invariant
            k <= ctx.toxic_patterns.len(),
            patterns == sources(ctx.toxic_patterns@),
            findings(out@) == head + toxic_findings(object@, library@, patterns.take(k as int)),
        decreases ctx.toxic_patterns.len() - k,
    {
        let pattern = &ctx.toxic_patterns[k];
        let ghost before = findings(out@);
        proof {
            assert(patterns.take(k + 1).drop_last() =~= patterns.take(k as int));
            assert(patterns.take(k + 1).last() == pattern@);
        }
        if pattern.is_match(library) {
            out.push(
                Diagnostic::Toxic {
                    object: object.to_owned(),
                    library: library.to_owned(),
                    pattern: pattern.as_str().to_owned(),
                },
            );
            assert(findings(out@) =~= before.push(
                Finding::Toxic { object: object@, library: library@, pattern: pattern@ },
            ));
        }
        k += 1;
        assert(findings(out@) =~= head + toxic_findings(
            object@,
            library@,
            patterns.take(k as int),
        ));
    }
    assert(patterns.take(k as int) =~= patterns);

    let ghost body = findings(out@);
    match format {
        ObjectFormat::Elf => {
            if !is_under(library, "/") {
                out.push(
                    Diagnostic::Relative { object: object.to_owned(), library: library.to_owned() },
                );
            }
        },
        ObjectFormat::MachO => {},
    }
    assert(findings(out@) =~= body + relative_findings(object@, library@, format));
    out
}

} // verus!
