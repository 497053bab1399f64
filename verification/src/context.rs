//! What a run is validated against: where libraries may be found, which paths
//! are forbidden, and which packages the checked package declares.

use crate::pattern::ToxicPattern;
use crate::text::views;
use vstd::prelude::*;

verus! {

/// The views of a list of patterns, in order.
pub open spec fn sources(list: Seq<ToxicPattern>) -> Seq<Seq<char>> {
    list.map_values(|p: ToxicPattern| p@)
}

/// How the checked package depends on another, as contracts speak of it.
pub enum KindView {
    Full,
    IndirectFull,
    Other(Seq<char>),
}

impl KindView {
    /// Whether the dependency is needed when the package runs.
    pub open spec fn is_runtime(self) -> bool {
        self is Full || self is IndirectFull
    }
}

/// The kind that the word `word` of a dependency manifest stands for.
pub open spec fn kind_of(word: Seq<char>) -> KindView {
    if word == "full"@ {
        KindView::Full
    } else if word == "indirect-full"@ {
        KindView::IndirectFull
    } else {
        KindView::Other(word)
    }
}

/// How the checked package depends on another.
#[derive(Debug, Clone, PartialEq, Eq)]
pub enum DependencyKind {
    /// Needed at run time.
    Full,
    /// Needed at run time through another dependency.
    IndirectFull,
    /// Any other kind, under the name the manifest gives it.
    Other(String),
}

impl View for DependencyKind {
    type V = KindView;

    open spec fn view(&self) -> KindView {
        match self {
            DependencyKind::Full => KindView::Full,
            DependencyKind::IndirectFull => KindView::IndirectFull,
            DependencyKind::Other(name) => KindView::Other(name@),
        }
    }
}

impl DependencyKind {
    /// The kind that a manifest's first field names.
    pub fn from_word(word: &str) -> (kind: DependencyKind)
        ensures
            kind@ == kind_of(word@),
    {
        let owned = word.to_owned();
        if owned == "full".to_owned() {
            DependencyKind::Full
        } else if owned == "indirect-full".to_owned() {
            DependencyKind::IndirectFull
        } else {
            DependencyKind::Other(owned)
        }
    }

    /// Whether the dependency is needed when the package runs.
    pub fn is_runtime(&self) -> (r: bool)
        ensures
            r == self@.is_runtime(),
    {
        match self {
            DependencyKind::Full => true,
            DependencyKind::IndirectFull => true,
            DependencyKind::Other(_) => false,
        }
    }
}

/// One declared dependency, as contracts speak of it.
pub struct DependencyView {
    pub kind: KindView,
    pub pattern: Seq<char>,
    pub package: Seq<char>,
}

/// One line of the dependency manifest: the kind of the dependency, the
/// pattern that asked for it, and the package that satisfies it.
#[derive(Debug, Clone, PartialEq, Eq)]
pub struct DeclaredDependency {
    pub kind: DependencyKind,
    pub pattern: String,
    pub package: String,
}

impl View for DeclaredDependency {
    type V = DependencyView;

    open spec fn view(&self) -> DependencyView {
        DependencyView { kind: self.kind@, pattern: self.pattern@, package: self.package@ }
    }
}

/// The views of a list of declared dependencies, in order.
pub open spec fn dependencies(list: Seq<DeclaredDependency>) -> Seq<DependencyView> {
    list.map_values(|d: DeclaredDependency| d@)
}

/// How the package database is asked for its contents.
#[derive(Debug, Clone, PartialEq, Eq)]
pub struct PackageAdmin {
    pub command: String,
    pub args: Vec<String>,
}

/// How the package database is asked, as contracts speak of it.
pub struct AdminView {
    pub command: Seq<char>,
    pub args: Seq<Seq<char>>,
}

impl View for PackageAdmin {
    type V = AdminView;

    open spec fn view(&self) -> AdminView {
        AdminView { command: self.command@, args: views(self.args@) }
    }
}

/// The arguments with which the package database is asked for its dump:
/// the configured ones and, behind them, the word `dump`.
pub open spec fn dump_arguments(admin: AdminView) -> Seq<Seq<char>> {
    admin.args.push("dump"@)
}

impl PackageAdmin {
    /// The arguments with which the command is run to get the dump of the
    /// package database.
    pub fn dump_arguments(&self) -> (out: Vec<String>)
        ensures
            views(out@) == dump_arguments(self@),
    {
        let mut out: Vec<String> = Vec::new();
        let mut i: usize = 0;
        while i < self.args.len()
            invariant
                i <= self.args.len(),
                views(out@) =~= views(self.args@).take(i as int),
            decreases self.args.len() - i,
        {
            let ghost before = views(out@);
            let arg = self.args[i].clone();
            assert(arg@ == views(self.args@)[i as int]);
            out.push(arg);
            assert(views(out@) =~= before.push(arg@));
            i += 1;
        }
        assert(views(self.args@).take(i as int) =~= views(self.args@));
        let ghost before = views(out@);
        out.push("dump".to_owned());
        assert(views(out@) =~= before.push("dump"@));
        out
    }
}

/// The context of a run, as contracts speak of it.
pub struct ContextView {
    pub cross_destdir: Option<Seq<char>>,
    pub destdir: Seq<char>,
    pub system_paths: Seq<Seq<char>>,
    pub wrkdir: Seq<char>,
    pub extra_wrkref_dirs: Seq<Seq<char>>,
    pub toxic_patterns: Seq<Seq<char>>,
    pub declared_dependencies: Seq<DependencyView>,
    pub package_admin: AdminView,
    pub skip_system_libs: bool,
}

/// The context of a run. It is made once and only read afterwards.
pub struct ValidationContext {
    /// The root that holds the target system when cross-building.
    pub cross_destdir: Option<String>,
    /// The staging root that the package was installed into.
    pub destdir: String,
    /// The platform's library directories, each already under
    /// `cross_destdir` where that is set.
    pub system_paths: Vec<String>,
    /// The build's work directory.
    pub wrkdir: String,
    /// Further directories that count as the work directory does.
    pub extra_wrkref_dirs: Vec<String>,
    /// The forbidden path patterns.
    pub toxic_patterns: Vec<ToxicPattern>,
    /// The dependencies that the checked package declares.
    pub declared_dependencies: Vec<DeclaredDependency>,
    /// How the package database is asked for its contents.
    pub package_admin: PackageAdmin,
    /// Whether Mach-O references into the system's own library directories
    /// are passed over.
    pub skip_system_libs: bool,
}

impl View for ValidationContext {
    type V = ContextView;

    open spec fn view(&self) -> ContextView {
        ContextView {
            cross_destdir: match self.cross_destdir {
                Some(dir) => Some(dir@),
                None => None,
            },
            destdir: self.destdir@,
            system_paths: views(self.system_paths@),
            wrkdir: self.wrkdir@,
            extra_wrkref_dirs: views(self.extra_wrkref_dirs@),
            toxic_patterns: sources(self.toxic_patterns@),
            declared_dependencies: dependencies(self.declared_dependencies@),
            package_admin: self.package_admin@,
            skip_system_libs: self.skip_system_libs,
        }
    }
}

} // verus!
