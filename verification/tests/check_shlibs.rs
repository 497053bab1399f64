use mktool::check_shlibs::elf;
use mktool::check_shlibs::macho;
use mktool::check_shlibs::ownership::{check_pkg, declared_as, judge_owner};
use mktool::check_shlibs::policy::{check_shlib, ObjectFormat};
use mktool::check_shlibs::resolve::{
    check_requirements, first_existing, resolve, Candidate, CheckState, Requirement, Stage,
};
use mktool::check_shlibs::CheckShlibs;
use mktool::context::{DeclaredDependency, DependencyKind, PackageAdmin, ValidationContext};
use mktool::diagnostic::Diagnostic;
use mktool::object::ObjectView;
use mktool::pattern::ToxicPattern;
use std::cell::RefCell;

const MUTT: &str = "/opt/pkg/bin/mutt";
const LIBFOO: &str = "/opt/pkg/lib/libfoo.so";
const STAGED_LIBFOO: &str = "/destdir/opt/pkg/lib/libfoo.so";

fn context(kinds: &[&str]) -> ValidationContext {
    ValidationContext {
        cross_destdir: None,
        destdir: "/destdir".to_string(),
        system_paths: vec!["/usr/lib".to_string()],
        wrkdir: "/wrk".to_string(),
        extra_wrkref_dirs: vec![],
        toxic_patterns: vec![],
        declared_dependencies: kinds
            .iter()
            .map(|kind| DeclaredDependency {
                kind: DependencyKind::from_word(kind),
                pattern: "libfoo-1.0".to_string(),
                package: "libfoo-1.0".to_string(),
            })
            .collect(),
        package_admin: PackageAdmin { command: "pkg_admin".to_string(), args: vec![] },
        skip_system_libs: false,
    }
}

fn object(libraries: &[&str], runpaths: &[&str]) -> ObjectView {
    ObjectView {
        required_libraries: libraries.iter().map(|s| s.to_string()).collect(),
        runpaths: runpaths.iter().map(|s| s.to_string()).collect(),
    }
}

fn mutt(library: &str) -> ObjectView {
    object(&[library], &["/opt/pkg/lib"])
}

fn lines(found: &[Diagnostic]) -> Vec<String> {
    found.iter().map(|d| d.to_line()).collect()
}

fn strings(list: &[&str]) -> Vec<String> {
    list.iter().map(|s| s.to_string()).collect()
}

fn dump() -> Option<String> {
    Some(format!("file: {} pkg: libfoo-1.0\n", LIBFOO))
}

/// Runs the check of one object against a file system that holds exactly
/// `files`, and returns the lines reported.
fn run(
    format: ObjectFormat,
    ctx: &ValidationContext,
    view: &ObjectView,
    state: &mut CheckState,
    files: &[&str],
) -> Vec<String> {
    let probe = |path: &str| files.contains(&path);
    let check = CheckShlibs::new(format);
    lines(&check.check_object(MUTT, view, ctx, state, &probe, &dump))
}

fn run_elf(ctx: &ValidationContext, view: &ObjectView, state: &mut CheckState) -> Vec<String> {
    run(ObjectFormat::Elf, ctx, view, state, &[LIBFOO])
}

#[test]
fn runtime_dependency_is_accepted() {
    let mut state = CheckState::new();
    let out = run_elf(&context(&["full"]), &mutt("libfoo.so"), &mut state);
    assert_eq!(out, Vec::<String>::new());
}

#[test]
fn indirect_runtime_dependency_is_accepted() {
    let mut state = CheckState::new();
    let out = run_elf(&context(&["indirect-full"]), &mutt("libfoo.so"), &mut state);
    assert_eq!(out, Vec::<String>::new());
}

#[test]
fn build_dependency_is_reported() {
    let mut state = CheckState::new();
    let out = run_elf(&context(&["build"]), &mutt("libfoo.so"), &mut state);
    assert_eq!(
        out,
        strings(&["/opt/pkg/bin/mutt: /opt/pkg/lib/libfoo.so: libfoo-1.0 is not a runtime dependency"])
    );
}

#[test]
fn build_and_runtime_dependency_is_accepted() {
    let mut state = CheckState::new();
    let out = run_elf(&context(&["build", "full"]), &mutt("libfoo.so"), &mut state);
    assert_eq!(out, Vec::<String>::new());
    let mut state = CheckState::new();
    let out = run_elf(&context(&["build", "test"]), &mutt("libfoo.so"), &mut state);
    assert_eq!(out.len(), 1);
}

#[test]
fn undeclared_owner_is_silent() {
    let mut state = CheckState::new();
    let out = run_elf(&context(&[]), &mutt("libfoo.so"), &mut state);
    assert_eq!(out, Vec::<String>::new());
}

#[test]
fn unresolved_library_is_missing_once() {
    let mut state = CheckState::new();
    let view = object(&["libbar.so"], &["/opt/pkg/lib", "/opt/other/lib"]);
    let out = run_elf(&context(&["full"]), &view, &mut state);
    assert_eq!(out, strings(&["/opt/pkg/bin/mutt: missing library: libbar.so"]));
}

#[test]
fn staged_copy_takes_precedence() {
    let mut state = CheckState::new();
    let out = run(
        ObjectFormat::Elf,
        &context(&["build"]),
        &mutt("libfoo.so"),
        &mut state,
        &[LIBFOO, STAGED_LIBFOO],
    );
    assert_eq!(out, Vec::<String>::new());
    /* The installed copy was never looked at, and nobody asked who owns it. */
    assert_eq!(state.existence.lookup(STAGED_LIBFOO), Some(true));
    assert_eq!(state.existence.lookup(LIBFOO), None);
    assert!(state.ownership.is_empty());
}

#[test]
fn staged_copy_in_a_later_directory_beats_an_installed_one_in_an_earlier() {
    let mut state = CheckState::new();
    let view = object(&["libfoo.so"], &["/opt/pkg/lib", "/opt/pkg/lib/foo"]);
    let out = run(
        ObjectFormat::Elf,
        &context(&["build"]),
        &view,
        &mut state,
        &[LIBFOO, "/destdir/opt/pkg/lib/foo/libfoo.so"],
    );
    assert_eq!(out, Vec::<String>::new());
}

#[test]
fn candidates_come_in_three_rounds() {
    let mut ctx = context(&[]);
    ctx.system_paths = strings(&["/lib", "/usr/lib"]);
    let places = elf::candidates_of(&ctx, &strings(&["/opt/pkg/lib", "rel"]), "libz.so");
    let expected = vec![
        ("/destdir/opt/pkg/lib/libz.so", Stage::Staged),
        ("/destdir/rel/libz.so", Stage::Staged),
        ("/opt/pkg/lib/libz.so", Stage::Installed),
        ("rel/libz.so", Stage::Installed),
        ("/lib/libz.so", Stage::System),
        ("/usr/lib/libz.so", Stage::System),
    ];
    let got: Vec<(&str, Stage)> = places.iter().map(|c| (c.path.as_str(), c.stage)).collect();
    assert_eq!(got, expected);
}

#[test]
fn cross_root_stands_in_front_of_run_path_directories() {
    let mut ctx = context(&[]);
    ctx.cross_destdir = Some("/cross".to_string());
    ctx.system_paths = vec![];
    let places = elf::candidates_of(&ctx, &strings(&["opt/lib", "/opt/lib"]), "libz.so");
    let got: Vec<&str> = places.iter().map(|c| c.path.as_str()).collect();
    assert_eq!(
        got,
        vec![
            "/destdir/opt/lib/libz.so",
            "/destdir/opt/lib/libz.so",
            "/cross/opt/lib/libz.so",
            "/cross/opt/lib/libz.so"
        ]
    );
}

#[test]
fn library_below_the_cross_root_is_found_and_validated() {
    let mut ctx = context(&["build"]);
    ctx.cross_destdir = Some("/cross".to_string());
    ctx.system_paths = vec![];
    let load = || Some("file: /cross/opt/pkg/lib/libfoo.so pkg: libfoo-1.0\n".to_string());
    let probe = |path: &str| path == "/cross/opt/pkg/lib/libfoo.so";
    let mut state = CheckState::new();
    let check = CheckShlibs::new(ObjectFormat::Elf);
    let out = lines(&check.check_object(MUTT, &mutt("libfoo.so"), &ctx, &mut state, &probe, &load));
    assert_eq!(
        out,
        strings(&[
            "/opt/pkg/bin/mutt: /cross/opt/pkg/lib/libfoo.so: libfoo-1.0 is not a runtime dependency"
        ])
    );
    assert_eq!(state.existence.lookup(LIBFOO), None);
    /* A library that exists only outside the cross root is missing. */
    let probe = |path: &str| path == LIBFOO;
    let mut state = CheckState::new();
    let out = lines(&check.check_object(MUTT, &mutt("libfoo.so"), &ctx, &mut state, &probe, &load));
    assert_eq!(out, strings(&["/opt/pkg/bin/mutt: missing library: libfoo.so"]));
}

#[test]
fn system_directory_hit_is_not_checked_for_ownership() {
    let mut state = CheckState::new();
    let calls = RefCell::new(0);
    let load = || {
        *calls.borrow_mut() += 1;
        Some("file: /usr/lib/libc.so pkg: libfoo-1.0\n".to_string())
    };
    let probe = |path: &str| path == "/usr/lib/libc.so";
    let check = CheckShlibs::new(ObjectFormat::Elf);
    let out = check.check_object(
        MUTT,
        &mutt("libc.so"),
        &context(&["build"]),
        &mut state,
        &probe,
        &load,
    );
    assert_eq!(out, vec![]);
    assert_eq!(*calls.borrow(), 0);
    assert!(state.ownership.is_empty());
}

#[test]
fn system_directory_hit_is_checked_against_the_path_policy() {
    let mut state = CheckState::new();
    let mut ctx = context(&[]);
    ctx.toxic_patterns = vec![ToxicPattern::new("^/usr/lib/libc").unwrap()];
    let out = run(ObjectFormat::Elf, &ctx, &mutt("libc.so"), &mut state, &["/usr/lib/libc.so"]);
    assert_eq!(
        out,
        strings(&["/opt/pkg/bin/mutt: resolved path /usr/lib/libc.so matches toxic ^/usr/lib/libc"])
    );
}

#[test]
fn work_directory_leak_is_reported_once_beside_other_findings() {
    let mut ctx = context(&[]);
    ctx.extra_wrkref_dirs = strings(&["/wrk", "/tmp", "/wrk/sub"]);
    ctx.toxic_patterns =
        vec![ToxicPattern::new("sub").unwrap(), ToxicPattern::new("nomatch").unwrap()];
    let out = lines(&check_shlib(MUTT, "/wrk/sub/libfoo.so", &ctx, ObjectFormat::Elf));
    assert_eq!(
        out,
        strings(&[
            "/opt/pkg/bin/mutt: path relative to WRKDIR: /wrk/sub/libfoo.so",
            "/opt/pkg/bin/mutt: rpath /wrk/sub/libfoo.so relative to CHECK_WRKREF_EXTRA_DIRS directory /wrk",
            "/opt/pkg/bin/mutt: rpath /wrk/sub/libfoo.so relative to CHECK_WRKREF_EXTRA_DIRS directory /wrk/sub",
            "/opt/pkg/bin/mutt: resolved path /wrk/sub/libfoo.so matches toxic sub",
        ])
    );
    let leaks = out.iter().filter(|l| l.contains("path relative to WRKDIR")).count();
    assert_eq!(leaks, 1);
}

#[test]
fn work_directory_is_matched_by_whole_components() {
    let ctx = context(&[]);
    assert_eq!(check_shlib(MUTT, "/wrkspace/libfoo.so", &ctx, ObjectFormat::Elf), vec![]);
    assert_eq!(check_shlib(MUTT, "/wrk", &ctx, ObjectFormat::Elf).len(), 1);
    assert_eq!(check_shlib(MUTT, "/wrk//libfoo.so", &ctx, ObjectFormat::Elf).len(), 1);
}

#[test]
fn two_toxic_patterns_give_two_lines() {
    let mut ctx = context(&[]);
    ctx.toxic_patterns = vec![
        ToxicPattern::new("libtoxic.so").unwrap(),
        ToxicPattern::new("^/usr").unwrap(),
        ToxicPattern::new("^/toxic").unwrap(),
    ];
    let out = lines(&check_shlib(MUTT, "/toxic/libtoxic.so", &ctx, ObjectFormat::Elf));
    assert_eq!(
        out,
        strings(&[
            "/opt/pkg/bin/mutt: resolved path /toxic/libtoxic.so matches toxic libtoxic.so",
            "/opt/pkg/bin/mutt: resolved path /toxic/libtoxic.so matches toxic ^/toxic",
        ])
    );
}

#[test]
fn relative_path_is_reported_for_elf_only() {
    let ctx = context(&[]);
    assert_eq!(
        lines(&check_shlib(MUTT, "lib/libfoo.so", &ctx, ObjectFormat::Elf)),
        strings(&["/opt/pkg/bin/mutt: relative library path: lib/libfoo.so"])
    );
    assert_eq!(check_shlib(MUTT, "lib/libfoo.so", &ctx, ObjectFormat::MachO), vec![]);
}

#[test]
fn test_shlib() {
    let mut ctx = context(&[]);
    ctx.wrkdir = "/wrk".to_string();
    ctx.toxic_patterns =
        vec![ToxicPattern::new("libtoxic.so").unwrap(), ToxicPattern::new("^/toxic").unwrap()];
    let obj = "/opt/pkg/bin/mutt";
    let passes =
        |lib: &str| -> bool { check_shlib(obj, lib, &ctx, ObjectFormat::Elf).is_empty() };
    /*
     * Library paths must be absolute.
     */
    assert_eq!(passes("libfoo.so"), false);
    /*
     * Library paths must avoid toxic paths.
     */
    assert_eq!(passes("/libtoxic.so"), false);
    assert_eq!(passes("/toxic/lib.so"), false);
    /*
     * Library paths must not start with WRKDIR
     */
    assert_eq!(passes("/wrk/libfoo.so"), false);
    /*
     * These should be fine.
     */
    assert_eq!(passes("/libfoo.so"), true);
    assert_eq!(passes("/libnottoxic.so"), true);
}

#[test]
fn toxic_pattern_must_compile() {
    assert!(ToxicPattern::new("foo(bar").is_none());
    assert!(ToxicPattern::new("\\w{1000}").is_none());
    let pattern = ToxicPattern::new("^lib[a-z]+\\.so$").unwrap();
    assert_eq!(pattern.as_str(), "^lib[a-z]+\\.so$");
    assert!(pattern.is_match("libfoo.so"));
    assert!(!pattern.is_match("libfoo.so.1"));
    assert!(!pattern.is_match("^lib[a-z]+\\.so$"));
}

#[test]
fn path_not_in_the_index_is_not_owned() {
    let mut state = CheckState::new();
    let load = || Some("file: /opt/pkg/lib/libother.so pkg: libfoo-1.0\n".to_string());
    let out = check_pkg(MUTT, LIBFOO, &context(&["build"]), &mut state.ownership, &load);
    assert_eq!(out, vec![]);
    /* The path is remembered as owned by nobody. */
    assert_eq!(state.ownership.lookup(LIBFOO), Some(None));
    assert_eq!(
        state.ownership.lookup("/opt/pkg/lib/libother.so"),
        Some(Some("libfoo-1.0".to_string()))
    );
}

#[test]
fn package_database_is_asked_once() {
    let calls = RefCell::new(0);
    let load = || {
        *calls.borrow_mut() += 1;
        None
    };
    let mut state = CheckState::new();
    let ctx = context(&["build"]);
    assert_eq!(check_pkg(MUTT, LIBFOO, &ctx, &mut state.ownership, &load), vec![]);
    assert_eq!(check_pkg(MUTT, LIBFOO, &ctx, &mut state.ownership, &load), vec![]);
    assert_eq!(check_pkg(MUTT, "/opt/pkg/lib/libz.so", &ctx, &mut state.ownership, &load), vec![]);
    assert_eq!(*calls.borrow(), 1);
}

#[test]
fn owner_is_judged_by_the_declared_kinds() {
    let ctx = context(&["build"]);
    assert_eq!(declared_as(&ctx.declared_dependencies, "libfoo-1.0"), (true, false));
    assert_eq!(declared_as(&ctx.declared_dependencies, "libfoo"), (false, false));
    let ctx = context(&["test", "indirect-full", "build"]);
    assert_eq!(declared_as(&ctx.declared_dependencies, "libfoo-1.0"), (true, true));
    assert_eq!(judge_owner(MUTT, LIBFOO, None, &context(&["build"])), vec![]);
    assert_eq!(
        judge_owner(MUTT, LIBFOO, Some("libfoo-1.0".to_string()), &context(&["build"])),
        vec![Diagnostic::NotRuntimeDependency {
            object: MUTT.to_string(),
            library: LIBFOO.to_string(),
            package: "libfoo-1.0".to_string(),
        }]
    );
    /* Only `full` and `indirect-full` are runtime kinds. */
    assert_eq!(
        judge_owner(MUTT, LIBFOO, Some("libfoo-1.0".to_string()), &context(&["implicit-full"]))
            .len(),
        1
    );
}

#[test]
fn second_run_reports_the_same() {
    let ctx = context(&["build"]);
    let view = object(&["libfoo.so", "libbar.so", "libc.so"], &["/opt/pkg/lib"]);
    let mut state = CheckState::new();
    let first = run(ObjectFormat::Elf, &ctx, &view, &mut state, &[LIBFOO, "/usr/lib/libc.so"]);
    assert_eq!(
        first,
        strings(&[
            "/opt/pkg/bin/mutt: /opt/pkg/lib/libfoo.so: libfoo-1.0 is not a runtime dependency",
            "/opt/pkg/bin/mutt: missing library: libbar.so",
        ])
    );
    /* By now the disk is empty and the package database gone. */
    let probe = |_: &str| -> bool { panic!("the cache knows every path") };
    let load = || -> Option<String> { panic!("the index is filled") };
    let check = CheckShlibs::new(ObjectFormat::Elf);
    let second = lines(&check.check_object(MUTT, &view, &ctx, &mut state, &probe, &load));
    assert_eq!(second, first);
}

#[test]
fn search_stops_at_the_first_hit() {
    let asked = RefCell::new(Vec::<String>::new());
    let probe = |path: &str| {
        asked.borrow_mut().push(path.to_string());
        path == "/b"
    };
    let list: Vec<Candidate> = ["/a", "/b", "/c"]
        .iter()
        .map(|p| Candidate { path: p.to_string(), stage: Stage::System })
        .collect();
    let mut state = CheckState::new();
    assert_eq!(first_existing(&list, &mut state.existence, &probe), Some(1));
    assert_eq!(*asked.borrow(), strings(&["/a", "/b"]));
    assert_eq!(first_existing(&list, &mut state.existence, &probe), Some(1));
    assert_eq!(asked.borrow().len(), 2);
    assert_eq!(state.existence.lookup("/a"), Some(false));
    assert_eq!(state.existence.lookup("/b"), Some(true));
    assert_eq!(state.existence.lookup("/c"), None);
    let none: Vec<Candidate> = vec![];
    assert_eq!(first_existing(&none, &mut state.existence, &probe), None);
}

#[test]
fn cache_answers_before_the_disk() {
    let mut state = CheckState::new();
    state.existence.record(LIBFOO, false);
    state.existence.record(STAGED_LIBFOO, false);
    state.existence.record("/usr/lib/libfoo.so", false);
    let out = run(ObjectFormat::Elf, &context(&[]), &mutt("libfoo.so"), &mut state, &[LIBFOO]);
    assert_eq!(out, strings(&["/opt/pkg/bin/mutt: missing library: libfoo.so"]));
}

#[test]
fn requirement_is_resolved_by_its_stage() {
    let req = |stage: Stage| Requirement {
        name: "libfoo.so".to_string(),
        candidates: vec![Candidate { path: "/wrk/libfoo.so".to_string(), stage }],
    };
    let probe = |_: &str| true;
    let load = || Some("file: /wrk/libfoo.so pkg: libfoo-1.0\n".to_string());
    let ctx = context(&["build"]);
    let go = |stage: Stage| {
        let mut state = CheckState::new();
        lines(&resolve(MUTT, &req(stage), &ctx, ObjectFormat::Elf, &mut state, &probe, &load))
    };
    assert_eq!(go(Stage::Staged), Vec::<String>::new());
    assert_eq!(
        go(Stage::System),
        strings(&["/opt/pkg/bin/mutt: path relative to WRKDIR: /wrk/libfoo.so"])
    );
    assert_eq!(
        go(Stage::Installed),
        strings(&[
            "/opt/pkg/bin/mutt: path relative to WRKDIR: /wrk/libfoo.so",
            "/opt/pkg/bin/mutt: /wrk/libfoo.so: libfoo-1.0 is not a runtime dependency",
        ])
    );
    let mut state = CheckState::new();
    let both = vec![req(Stage::System), req(Stage::Staged), req(Stage::System)];
    let out = check_requirements(MUTT, &both, &ctx, ObjectFormat::Elf, &mut state, &probe, &load);
    assert_eq!(out.len(), 2);
}

#[test]
fn macho_first_reference_is_never_checked() {
    let ctx = context(&["build"]);
    let files = ["/opt/pkg/lib/libfoo.dylib"];
    let rest = ["/opt/pkg/lib/libfoo.dylib", "/opt/pkg/lib/libgone.dylib"];
    let mut reports = Vec::new();
    for first in ["self", "/wrk/libself.dylib", "relative.dylib", "/opt/pkg/lib/libgone.dylib"] {
        let mut libraries = vec![first];
        libraries.extend_from_slice(&rest);
        let mut state = CheckState::new();
        let out = run(ObjectFormat::MachO, &ctx, &object(&libraries, &[]), &mut state, &files);
        assert_eq!(state.existence.lookup(first).is_some(), rest.contains(&first));
        reports.push(out);
    }
    assert_eq!(reports[0], strings(&["/opt/pkg/bin/mutt: missing library: /opt/pkg/lib/libgone.dylib"]));
    assert!(reports.iter().all(|r| *r == reports[0]));
    let mut state = CheckState::new();
    assert_eq!(
        run(ObjectFormat::MachO, &ctx, &object(&["/gone"], &[]), &mut state, &[]),
        Vec::<String>::new()
    );
    assert_eq!(
        run(ObjectFormat::MachO, &ctx, &object(&[], &[]), &mut state, &[]),
        Vec::<String>::new()
    );
}

#[test]
fn macho_reference_is_looked_for_under_the_staging_root_first() {
    let ctx = context(&["build"]);
    let places = macho::candidates_of(&ctx, "/opt/pkg/lib/libfoo.dylib");
    let got: Vec<(&str, Stage)> = places.iter().map(|c| (c.path.as_str(), c.stage)).collect();
    assert_eq!(
        got,
        vec![
            ("/destdir/opt/pkg/lib/libfoo.dylib", Stage::Staged),
            ("/opt/pkg/lib/libfoo.dylib", Stage::Installed)
        ]
    );
    let mut state = CheckState::new();
    let view = object(&["self", "/wrk/libfoo.dylib"], &[]);
    let out = run(ObjectFormat::MachO, &ctx, &view, &mut state, &["/destdir/wrk/libfoo.dylib"]);
    assert_eq!(out, Vec::<String>::new());
    let mut state = CheckState::new();
    let out = run(ObjectFormat::MachO, &ctx, &view, &mut state, &["/wrk/libfoo.dylib"]);
    assert_eq!(out, strings(&["/opt/pkg/bin/mutt: path relative to WRKDIR: /wrk/libfoo.dylib"]));
}

#[test]
fn macho_system_libraries_are_skipped_on_request() {
    let mut ctx = context(&[]);
    let view = object(
        &["self", "/usr/lib/libSystem.B.dylib", "/System/Library/Frameworks/A", "/usr/local/lib/b"],
        &[],
    );
    assert!(macho::in_system_directory("/usr/lib/libSystem.B.dylib"));
    assert!(macho::in_system_directory("/usr/libexec/x"));
    assert!(macho::in_system_directory("/System/Library"));
    assert!(!macho::in_system_directory("/usr/local/lib/b"));
    assert!(!macho::in_system_directory("/System/Librar"));
    let mut state = CheckState::new();
    assert_eq!(run(ObjectFormat::MachO, &ctx, &view, &mut state, &[]).len(), 3);
    ctx.skip_system_libs = true;
    let mut state = CheckState::new();
    assert_eq!(
        run(ObjectFormat::MachO, &ctx, &view, &mut state, &[]),
        strings(&["/opt/pkg/bin/mutt: missing library: /usr/local/lib/b"])
    );
    assert_eq!(state.existence.lookup("/usr/lib/libSystem.B.dylib"), None);
    let reqs = macho::requirements_of(&view, &ctx);
    assert_eq!(reqs.len(), 1);
    assert_eq!(reqs[0].name, "/usr/local/lib/b");
}

#[test]
fn elf_requirements_follow_the_libraries() {
    let ctx = context(&[]);
    let view = object(&["liba.so", "libb.so"], &["/x"]);
    let reqs = elf::requirements_of(&view, &ctx);
    assert_eq!(reqs.len(), 2);
    assert_eq!(reqs[1].name, "libb.so");
    assert_eq!(reqs[1].candidates.len(), 3);
    assert_eq!(reqs[1].candidates[1].path, "/x/libb.so");
    let check = CheckShlibs::new(ObjectFormat::MachO);
    assert_eq!(check.requirements_of(&view, &ctx).len(), 1);
}

#[test]
fn bytes_that_are_no_object_are_passed_over() {
    let probe = |_: &str| -> bool { panic!("nothing to look for") };
    let load = || -> Option<String> { panic!("nothing to ask") };
    let ctx = context(&[]);
    for format in [ObjectFormat::Elf, ObjectFormat::MachO] {
        let check = CheckShlibs::new(format);
        let mut state = CheckState::new();
        for bytes in [&b""[..], &b"#!/bin/sh\necho hello\n"[..], &[0u8; 64][..]] {
            assert_eq!(check.check_dso(MUTT, bytes, &ctx, &mut state, &probe, &load), vec![]);
            assert!(check.parse(bytes).is_none());
        }
    }
}
