//! The plain check of library references: each reference is judged as it
//! stands, without a search.

use crate::check_shlibs::macho::{in_system_directory, is_system_library};
use crate::diagnostic::{findings, Diagnostic, Finding};
use crate::text::{chars_of, starts_with};
use vstd::prelude::*;

verus! {

/// The plain check of library references.
#[derive(Debug, Clone, Copy, PartialEq, Eq)]
pub struct CheckShlibs {
    /// The number of threads that the command line asks for.
    pub jobs: Option<usize>,
}

/// How references are judged, as contracts speak of it.
pub struct RulesView {
    pub wrkdir: Option<Seq<char>>,
    pub macho: bool,
    pub skip_system_libs: bool,
}

/// How references are judged.
#[derive(Debug, Clone, PartialEq, Eq)]
pub struct Rules {
    /// The work directory, if one is set.
    pub wrkdir: Option<String>,
    /// Whether the objects are Mach-O objects, whose list of references
    /// holds the entry `self` for the object.
    pub macho: bool,
    /// Whether references into the system's library directories are passed
    /// over. It applies to Mach-O objects only.
    pub skip_system_libs: bool,
}

impl View for Rules {
    type V = RulesView;

    open spec fn view(&self) -> RulesView {
        RulesView {
            wrkdir: match self.wrkdir {
                Some(dir) => Some(dir@),
                None => None,
            },
            macho: self.macho,
            skip_system_libs: self.skip_system_libs,
        }
    }
}

/// Whether the reference `lib` is passed over without a look at it.
pub open spec fn is_passed_over(lib: Seq<char>, rules: RulesView) -> bool {
    rules.macho && (lib == "self"@ || (rules.skip_system_libs && is_system_library(lib)))
}

/// What is held against the reference `lib` of `obj`, which exists or does
/// not as `present` says: that its text begins with the work directory,
/// that it does not begin with `/`, and that it does not exist, in this
/// order and each whatever the others find.
pub open spec fn reference_findings(
    obj: Seq<char>,
    lib: Seq<char>,
    rules: RulesView,
    present: bool,
) -> Seq<Finding> {
    let leak: Seq<Finding> = if rules.wrkdir matches Some(dir) && dir.is_prefix_of(lib) {
        seq![Finding::WorkDir { object: obj, library: lib }]
    } else {
        Seq::empty()
    };
    let relative: Seq<Finding> = if !"/"@.is_prefix_of(lib) {
        seq![Finding::Relative { object: obj, library: lib }]
    } else {
        Seq::empty()
    };
    let missing: Seq<Finding> = if !present {
        seq![Finding::Missing { object: obj, library: lib }]
    } else {
        Seq::empty()
    };
    leak + relative + missing
}

impl CheckShlibs {
    /// Whether the reference `lib` is passed over without a look at it.
    pub fn passes_over(&self, lib: &str, rules: &Rules) -> (r: bool)
        ensures
            r == is_passed_over(lib@, rules@),
    {
        if !rules.macho {
            return false;
        }
        if lib.to_owned() == "self".to_owned() {
            return true;
        }
        rules.skip_system_libs && in_system_directory(lib)
    }

    /// Judges the reference `lib` of `obj`, of which `present` says whether
    /// it exists.
    pub fn judge_lib(&self, obj: &str, lib: &str, rules: &Rules, present: bool) -> (out: Vec<
        Diagnostic,
    >)
        ensures
            findings(out@) == reference_findings(obj@, lib@, rules@, present),
    {
        let chars = chars_of(lib);
        let mut out: Vec<Diagnostic> = Vec::new();
        match &rules.wrkdir {
            Some(dir) => {
                if starts_with(&chars, &chars_of(dir.as_str())) {
                    out.push(
                        Diagnostic::WorkDir { object: obj.to_owned(), library: lib.to_owned() },
                    );
                }
            },
            None => {},
        }
        if !starts_with(&chars, &chars_of("/")) {
            out.push(Diagnostic::Relative { object: obj.to_owned(), library: lib.to_owned() });
        }
        if !present {
            out.push(Diagnostic::Missing { object: obj.to_owned(), library: lib.to_owned() });
        }
        assert(findings(out@) =~= reference_findings(obj@, lib@, rules@, present));
        out
    }

    /// Verifies the reference `lib` of `obj`. A reference that is passed
    /// over gives nothing and is not looked for. Any other is judged, with
    /// `probe` saying whether it exists.
    pub fn verify_lib<P: Fn(&str) -> bool>(
        &self,
        obj: &str,
        lib: &str,
        rules: &Rules,
        probe: &P,
    ) -> (out: Vec<Diagnostic>)
        requires
            call_requires(probe, (lib,)),
        ensures
            is_passed_over(lib@, rules@) ==> out@ == Seq::<Diagnostic>::empty(),
            !is_passed_over(lib@, rules@) ==> exists|present: bool|
                call_ensures(probe, (lib,), present) && findings(out@) == reference_findings(
                    obj@,
                    lib@,
                    rules@,
                    present,
                ),
    {
        if self.passes_over(lib, rules) {
            return Vec::new();
        }
        let present = probe(lib);
        self.judge_lib(obj, lib, rules, present)
    }
}

} // verus!
