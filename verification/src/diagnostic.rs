//! The findings that a check reports, and the lines they are printed as.

use vstd::prelude::*;
use vstd::string::StringExecFns;

verus! {

/// One finding, as contracts speak of it: its kind and the texts it names.
pub enum Finding {
    /// The resolved library lies under the work directory.
    WorkDir { object: Seq<char>, library: Seq<char> },
    /// The resolved library lies under one of the extra work-reference
    /// directories.
    ExtraWorkRef { object: Seq<char>, library: Seq<char>, directory: Seq<char> },
    /// The resolved library matches a forbidden pattern.
    Toxic { object: Seq<char>, library: Seq<char>, pattern: Seq<char> },
    /// The resolved library path is not absolute.
    Relative { object: Seq<char>, library: Seq<char> },
    /// The resolved library belongs to a package that is declared, but not as
    /// a runtime dependency.
    NotRuntimeDependency { object: Seq<char>, library: Seq<char>, package: Seq<char> },
    /// No search location holds the required library.
    Missing { object: Seq<char>, library: Seq<char> },
}

impl Finding {
    /// The line that reports this finding.
    pub open spec fn line(self) -> Seq<char> {
        match self {
            Finding::WorkDir { object, library } => object + ": path relative to WRKDIR: "@
                + library,
            Finding::ExtraWorkRef { object, library, directory } => object + ": rpath "@ + library
                + " relative to CHECK_WRKREF_EXTRA_DIRS directory "@ + directory,
            Finding::Toxic { object, library, pattern } => object + ": resolved path "@ + library
                + " matches toxic "@ + pattern,
            Finding::Relative { object, library } => object + ": relative library path: "@
                + library,
            Finding::NotRuntimeDependency { object, library, package } => object + ": "@ + library
                + ": "@ + package + " is not a runtime dependency"@,
            Finding::Missing { object, library } => object + ": missing library: "@ + library,
        }
    }
}

/// One finding, as the checks hand it out.
#[derive(Debug, Clone, PartialEq, Eq)]
pub enum Diagnostic {
    WorkDir { object: String, library: String },
    ExtraWorkRef { object: String, library: String, directory: String },
    Toxic { object: String, library: String, pattern: String },
    Relative { object: String, library: String },
    NotRuntimeDependency { object: String, library: String, package: String },
    Missing { object: String, library: String },
}

impl View for Diagnostic {
    type V = Finding;

    open spec fn view(&self) -> Finding {
        match self {
            Diagnostic::WorkDir { object, library } => Finding::WorkDir {
                object: object@,
                library: library@,
            },
            Diagnostic::ExtraWorkRef { object, library, directory } => Finding::ExtraWorkRef {
                object: object@,
                library: library@,
                directory: directory@,
            },
            Diagnostic::Toxic { object, library, pattern } => Finding::Toxic {
                object: object@,
                library: library@,
                pattern: pattern@,
            },
            Diagnostic::Relative { object, library } => Finding::Relative {
                object: object@,
                library: library@,
            },
            Diagnostic::NotRuntimeDependency { object, library, package } => {
                Finding::NotRuntimeDependency {
                    object: object@,
                    library: library@,
                    package: package@,
                }
            },
            Diagnostic::Missing { object, library } => Finding::Missing {
                object: object@,
                library: library@,
            },
        }
    }
}

/// The findings that a list of diagnostics stands for, in order.
pub open spec fn findings(list: Seq<Diagnostic>) -> Seq<Finding> {
    list.map_values(|d: Diagnostic| d@)
}

/// The lines that report a list of findings, in order.
pub open spec fn lines(list: Seq<Finding>) -> Seq<Seq<char>> {
    list.map_values(|f: Finding| f.line())
}

impl Diagnostic {
    /// The line that reports this finding, without a line ending.
    pub fn to_line(&self) -> (out: String)
        ensures
            out@ == self@.line(),
    {
        match self {
            Diagnostic::WorkDir { object, library } => {
                let mut out = object.clone();
                out.append(": path relative to WRKDIR: ");
                out.append(library.as_str());
                out
            },
            Diagnostic::ExtraWorkRef { object, library, directory } => {
                let mut out = object.clone();
                out.append(": rpath ");
                out.append(library.as_str());
                out.append(" relative to CHECK_WRKREF_EXTRA_DIRS directory ");
                out.append(directory.as_str());
                out
            },
            Diagnostic::Toxic { object, library, pattern } => {
                let mut out = object.clone();
                out.append(": resolved path ");
                out.append(library.as_str());
                out.append(" matches toxic ");
                out.append(pattern.as_str());
                out
            },
            Diagnostic::Relative { object, library } => {
                let mut out = object.clone();
                out.append(": relative library path: ");
                out.append(library.as_str());
                out
            },
            Diagnostic::NotRuntimeDependency { object, library, package } => {
                let mut out = object.clone();
                out.append(": ");
                out.append(library.as_str());
                out.append(": ");
                out.append(package.as_str());
                out.append(" is not a runtime dependency");
                out
            },
            Diagnostic::Missing { object, library } => {
                let mut out = object.clone();
                out.append(": missing library: ");
                out.append(library.as_str());
                out
            },
        }
    }
}

/// Appends `more` to `list`.
pub fn extend(list: &mut Vec<Diagnostic>, more: Vec<Diagnostic>)
    ensures
        final(list)@ == old(list)@ + more@,
        findings(final(list)@) == findings(old(list)@) + findings(more@),
{
    let mut more = more;
    let ghost added = more@;
    list.append(&mut more);
    assert(findings(list@) =~= findings(old(list)@) + findings(added));
}

} // verus!
