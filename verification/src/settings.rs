//! The settings of a run as text, and the context they configure.

use crate::context::{
    dependencies, kind_of, sources, AdminView, ContextView, DeclaredDependency, DependencyKind,
    DependencyView, PackageAdmin, ValidationContext,
};
use crate::paths::{join, joined, strip_root, unrooted};
use crate::pattern::{regex_compiles, ToxicPattern};
use crate::text::{fields, lines, split_lines, split_on, split_whitespace, views, words};
use vstd::prelude::*;

verus! {

/// The settings of a run, as contracts speak of them.
pub struct SettingsView {
    pub destdir: Seq<char>,
    pub cross_destdir: Seq<char>,
    pub wrkdir: Seq<char>,
    pub pkg_admin_cmd: Seq<char>,
    pub depends: Seq<char>,
    pub platform_rpath: Option<Seq<char>>,
    pub check_shlibs_toxic: Option<Seq<char>>,
    pub check_wrkref_extra_dirs: Option<Seq<char>>,
    pub skip_system_libs: bool,
}

/// The settings of a run, each as the text that was given for it.
#[derive(Debug, Clone, PartialEq, Eq)]
pub struct Settings {
    /// The staging root.
    pub destdir: String,
    /// The cross-build root. Empty where the build is native.
    pub cross_destdir: String,
    /// The work directory.
    pub wrkdir: String,
    /// The command that asks the package database, with its arguments.
    pub pkg_admin_cmd: String,
    /// The dependency manifest: on each line a kind, a pattern and a
    /// package.
    pub depends: String,
    /// The platform's library directories, separated by colons.
    pub platform_rpath: Option<String>,
    /// The forbidden path patterns, separated by white space.
    pub check_shlibs_toxic: Option<String>,
    /// The extra work-reference directories, separated by white space.
    pub check_wrkref_extra_dirs: Option<String>,
    /// Whether Mach-O references into the system's library directories are
    /// passed over.
    pub skip_system_libs: bool,
}

/// The text of an optional setting, as contracts speak of it.
pub open spec fn text_view(text: Option<String>) -> Option<Seq<char>> {
    match text {
        Some(t) => Some(t@),
        None => None,
    }
}

impl View for Settings {
    type V = SettingsView;

    open spec fn view(&self) -> SettingsView {
        SettingsView {
            destdir: self.destdir@,
            cross_destdir: self.cross_destdir@,
            wrkdir: self.wrkdir@,
            pkg_admin_cmd: self.pkg_admin_cmd@,
            depends: self.depends@,
            platform_rpath: text_view(self.platform_rpath),
            check_shlibs_toxic: text_view(self.check_shlibs_toxic),
            check_wrkref_extra_dirs: text_view(self.check_wrkref_extra_dirs),
            skip_system_libs: self.skip_system_libs,
        }
    }
}

/// Why settings configure no context.
#[derive(Debug, Clone, Copy, PartialEq, Eq, Structural)]
pub enum ConfigError {
    /// The package database command holds no word.
    MalformedCommand,
    /// The line of this index in the dependency manifest does not hold
    /// three words.
    BadDependsLine(usize),
    /// The forbidden pattern of this index is no regular expression that
    /// compiles.
    BadToxicPattern(usize),
}

/// The cross-build root that a setting names: none where it is empty.
pub open spec fn cross_root(text: Seq<char>) -> Option<Seq<char>> {
    if text.len() == 0 {
        None
    } else {
        Some(text)
    }
}

/// The directory `dir` of the platform. Where a cross-build root is set the
/// directory is taken below it, whether it is absolute or not.
pub open spec fn system_path(cross_destdir: Option<Seq<char>>, dir: Seq<char>) -> Seq<char> {
    match cross_destdir {
        Some(root) => joined(root, unrooted(dir)),
        None => dir,
    }
}

/// The system directories that a colon-separated list names.
pub open spec fn system_paths(cross_destdir: Option<Seq<char>>, list: Option<Seq<char>>) -> Seq<
    Seq<char>,
> {
    match list {
        Some(text) => fields(text, ':').map_values(
            |dir: Seq<char>| system_path(cross_destdir, dir),
        ),
        None => Seq::empty(),
    }
}

/// The words of an optional setting.
pub open spec fn listed(list: Option<Seq<char>>) -> Seq<Seq<char>> {
    match list {
        Some(text) => words(text),
        None => Seq::empty(),
    }
}

/// The command and its arguments that a setting names.
pub open spec fn admin_of(text: Seq<char>) -> AdminView {
    AdminView { command: words(text)[0], args: words(text).skip(1) }
}

/// The dependency that a line of three words declares.
pub open spec fn dependency_of(line: Seq<char>) -> DependencyView {
    let w = words(line);
    DependencyView { kind: kind_of(w[0]), pattern: w[1], package: w[2] }
}

/// The index of the first line at or after `from` that does not hold three
/// words.
pub open spec fn bad_line_from(manifest: Seq<Seq<char>>, from: int) -> Option<int>
    decreases manifest.len() - from,
{
    if from >= manifest.len() {
        None
    } else if words(manifest[from]).len() != 3 {
        Some(from)
    } else {
        bad_line_from(manifest, from + 1)
    }
}

/// The index of the first pattern at or after `from` that does not compile.
pub open spec fn bad_pattern_from(patterns: Seq<Seq<char>>, from: int) -> Option<int>
    decreases patterns.len() - from,
{
    if from >= patterns.len() {
        None
    } else if !regex_compiles(patterns[from]) {
        Some(from)
    } else {
        bad_pattern_from(patterns, from + 1)
    }
}

/// The context that settings configure, or the first fault in them: the
/// command is looked at first, then the manifest, then the patterns.
pub open spec fn configured(s: SettingsView) -> Result<ContextView, ConfigError> {
    if words(s.pkg_admin_cmd).len() == 0 {
        Err(ConfigError::MalformedCommand)
    } else if bad_line_from(lines(s.depends), 0) is Some {
        Err(ConfigError::BadDependsLine(bad_line_from(lines(s.depends), 0)->0 as usize))
    } else if bad_pattern_from(listed(s.check_shlibs_toxic), 0) is Some {
        Err(
            ConfigError::BadToxicPattern(
                bad_pattern_from(listed(s.check_shlibs_toxic), 0)->0 as usize,
            ),
        )
    } else {
        Ok(
            ContextView {
                cross_destdir: cross_root(s.cross_destdir),
                destdir: s.destdir,
                system_paths: system_paths(cross_root(s.cross_destdir), s.platform_rpath),
                wrkdir: s.wrkdir,
                extra_wrkref_dirs: listed(s.check_wrkref_extra_dirs),
                toxic_patterns: listed(s.check_shlibs_toxic),
                declared_dependencies: lines(s.depends).map_values(
                    |line: Seq<char>| dependency_of(line),
                ),
                package_admin: admin_of(s.pkg_admin_cmd),
                skip_system_libs: s.skip_system_libs,
            },
        )
    }
}

/// Reads the command that asks the package database.
pub fn parse_command(text: &str) -> (r: Option<PackageAdmin>)
    ensures
        match r {
            Some(admin) => words(text@).len() > 0 && admin@ == admin_of(text@),
            None => words(text@).len() == 0,
        },
{
    let mut all = split_whitespace(text);
    if all.len() == 0 {
        return None;
    }
    let ghost whole = all@;
    let args = all.split_off(1);
    let ghost head = all@;
    match all.pop() {
        None => None,
        Some(command) => {
            assert(head[0] == whole[0]);
            assert(views(whole)[0] == command@);
            assert(views(args@) =~= views(whole).skip(1));
            Some(PackageAdmin { command, args })
        },
    }
}

/// Reads the dependency manifest. The error is the index of the first line
/// that does not hold three words.
pub fn parse_depends(text: &str) -> (r: Result<Vec<DeclaredDependency>, usize>)
    ensures
        match r {
            Ok(deps) => bad_line_from(lines(text@), 0) is None && dependencies(deps@) == lines(
                text@,
            ).map_values(|line: Seq<char>| dependency_of(line)),
            Err(at) => bad_line_from(lines(text@), 0) == Some(at as int),
        },
{
    let all = split_lines(text);
    let ghost manifest = lines(text@);
    let ghost wanted = manifest.map_values(|line: Seq<char>| dependency_of(line));
    let mut deps: Vec<DeclaredDependency> = Vec::new();
    let mut i: usize = 0;
    while i < all.len()
        invariant
            i <= all.len(),
            views(all@) == manifest,
            manifest == lines(text@),
            wanted == manifest.map_values(|line: Seq<char>| dependency_of(line)),
            bad_line_from(manifest, 0) == bad_line_from(manifest, i as int),
            dependencies(deps@) =~= wanted.take(i as int),
        decreases all.len() - i,
    {
        assert(manifest[i as int] == all@[i as int]@);
        let w = split_whitespace(all[i].as_str());
        assert(views(w@).len() == w@.len());
        if w.len() != 3 {
            assert(words(manifest[i as int]).len() != 3);
            assert(bad_line_from(manifest, i as int) == Some(i as int));
            return Err(i);
        }
        assert(bad_line_from(manifest, i as int) == bad_line_from(manifest, i + 1));
        assert(views(w@)[0] == w@[0]@);
        assert(views(w@)[1] == w@[1]@);
        assert(views(w@)[2] == w@[2]@);
        let ghost before = dependencies(deps@);
        let dep = DeclaredDependency {
            kind: DependencyKind::from_word(w[0].as_str()),
            pattern: w[1].clone(),
            package: w[2].clone(),
        };
        assert(dep@ == dependency_of(manifest[i as int]));
        deps.push(dep);
        assert(dependencies(deps@) =~= before.push(wanted[i as int]));
        assert(wanted.take(i + 1) =~= wanted.take(i as int).push(wanted[i as int]));
        i += 1;
    }
    assert(wanted.take(i as int) =~= wanted);
    Ok(deps)
}

/// Reads the forbidden patterns. The error is the index of the first
/// pattern that does not compile.
pub fn parse_patterns(text: &Option<String>) -> (r: Result<Vec<ToxicPattern>, usize>)
    ensures
        match r {
            Ok(patterns) => bad_pattern_from(listed(text_view(*text)), 0) is None && sources(
                patterns@,
            ) == listed(text_view(*text)),
            Err(at) => bad_pattern_from(listed(text_view(*text)), 0) == Some(at as int),
        },
{
    let mut patterns: Vec<ToxicPattern> = Vec::new();
    match text {
        None => {
            assert(sources(patterns@) =~= Seq::<Seq<char>>::empty());
            Ok(patterns)
        },
        Some(list) => {
            let all = split_whitespace(list.as_str());
            let ghost wanted = words(list@);
            let mut i: usize = 0;
            assert(sources(patterns@) =~= wanted.take(0));
            while i < all.len()
                invariant
                    i <= all.len(),
                    views(all@) == wanted,
                    wanted == listed(text_view(*text)),
                    bad_pattern_from(wanted, 0) == bad_pattern_from(wanted, i as int),
                    sources(patterns@) =~= wanted.take(i as int),
                decreases all.len() - i,
            {
                assert(wanted[i as int] == all@[i as int]@);
                match ToxicPattern::new(all[i].as_str()) {
                    None => {
                        assert(!regex_compiles(wanted[i as int]));
                        assert(bad_pattern_from(wanted, i as int) == Some(i as int));
                        return Err(i);
                    },
                    Some(pattern) => {
                        assert(regex_compiles(wanted[i as int]));
                        assert(bad_pattern_from(wanted, i as int) == bad_pattern_from(
                            wanted,
                            i + 1,
                        ));
                        let ghost before = sources(patterns@);
                        patterns.push(pattern);
                        assert(sources(patterns@) =~= before.push(wanted[i as int]));
                        assert(wanted.take(i + 1) =~= wanted.take(i as int).push(wanted[i as int]));
                    },
                }
                i += 1;
            }
            assert(wanted.take(i as int) =~= wanted);
            Ok(patterns)
        },
    }
}

/// Reads the platform's library directories and takes each under the
/// cross-build root where one is set.
pub fn parse_system_paths(cross_destdir: &Option<String>, list: &Option<String>) -> (out: Vec<
    String,
>)
    ensures
        views(out@) == system_paths(text_view(*cross_destdir), text_view(*list)),
{
    let mut out: Vec<String> = Vec::new();
    match list {
        None => {
            assert(views(out@) =~= Seq::<Seq<char>>::empty());
            out
        },
        Some(text) => {
            let dirs = split_on(text.as_str(), ':');
            let ghost wanted = system_paths(text_view(*cross_destdir), Some(text@));
            let mut i: usize = 0;
            assert(views(out@) =~= wanted.take(0));
            while i < dirs.len()
                invariant
                    i <= dirs.len(),
                    views(dirs@) == fields(text@, ':'),
                    wanted == system_paths(text_view(*cross_destdir), Some(text@)),
                    views(out@) =~= wanted.take(i as int),
                decreases dirs.len() - i,
            {
                assert(fields(text@, ':')[i as int] == dirs@[i as int]@);
                let path = match cross_destdir {
                    Some(root) => join(root.as_str(), strip_root(dirs[i].as_str()).as_str()),
                    None => dirs[i].clone(),
                };
                let ghost before = views(out@);
                out.push(path);
                assert(views(out@) =~= before.push(wanted[i as int]));
                assert(wanted.take(i + 1) =~= wanted.take(i as int).push(wanted[i as int]));
                i += 1;
            }
            assert(wanted.take(i as int) =~= wanted);
            out
        },
    }
}

/// Reads a list of words.
pub fn parse_list(list: &Option<String>) -> (out: Vec<String>)
    ensures
        views(out@) == listed(text_view(*list)),
{
    match list {
        Some(text) => split_whitespace(text.as_str()),
        None => {
            let out: Vec<String> = Vec::new();
            assert(views(out@) =~= Seq::<Seq<char>>::empty());
            out
        },
    }
}

impl ValidationContext {
    /// The context that `settings` configure, or the first fault in them.
    pub fn from_settings(settings: &Settings) -> (r: Result<ValidationContext, ConfigError>)
        ensures
            match r {
                Ok(ctx) => configured(settings@) == Ok::<ContextView, ConfigError>(ctx@),
                Err(e) => configured(settings@) == Err::<ContextView, ConfigError>(e),
            },
    {
        let package_admin = match parse_command(settings.pkg_admin_cmd.as_str()) {
            Some(admin) => admin,
            None => {
                return Err(ConfigError::MalformedCommand);
            },
        };
        let declared_dependencies = match parse_depends(settings.depends.as_str()) {
            Ok(deps) => deps,
            Err(at) => {
                return Err(ConfigError::BadDependsLine(at));
            },
        };
        let toxic_patterns = match parse_patterns(&settings.check_shlibs_toxic) {
            Ok(patterns) => patterns,
            Err(at) => {
                return Err(ConfigError::BadToxicPattern(at));
            },
        };
        let cross_destdir = if settings.cross_destdir.as_str().is_empty() {
            None
        } else {
            Some(settings.cross_destdir.clone())
        };
        let system_paths = parse_system_paths(&cross_destdir, &settings.platform_rpath);
        let extra_wrkref_dirs = parse_list(&settings.check_wrkref_extra_dirs);
        Ok(
            ValidationContext {
                cross_destdir,
                destdir: settings.destdir.clone(),
                system_paths,
                wrkdir: settings.wrkdir.clone(),
                extra_wrkref_dirs,
                toxic_patterns,
                declared_dependencies,
                package_admin,
                skip_system_libs: settings.skip_system_libs,
            },
        )
    }
}

} // verus!
