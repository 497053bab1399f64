//! The shared-library checks: resolving what an object requires and
//! validating what was found.

pub mod elf;
pub mod laws;
pub mod macho;
pub mod ownership;
pub mod policy;
pub mod resolve;

use crate::check_shlibs::elf::elf_requirements;
use crate::check_shlibs::macho::macho_requirements;
use crate::check_shlibs::policy::ObjectFormat;
use crate::check_shlibs::resolve::{
    check_requirements, requirements, resolved, CheckState, Requirement, RequirementView,
};
use crate::context::{ContextView, ValidationContext};
use crate::diagnostic::{findings, Diagnostic};
use crate::object::{elf_needs, macho_needs, ObjectNeeds, ObjectView};
use vstd::prelude::*;

verus! {

/// The requirements of an object of the given format.
pub open spec fn object_requirements(
    format: ObjectFormat,
    needs: ObjectNeeds,
    ctx: ContextView,
) -> Seq<RequirementView> {
    match format {
        ObjectFormat::Elf => elf_requirements(needs, ctx),
        ObjectFormat::MachO => macho_requirements(needs, ctx),
    }
}

/// What the bytes of a file require, read as an object of the given format.
pub open spec fn object_needs(format: ObjectFormat, bytes: Seq<u8>) -> Option<ObjectNeeds> {
    match format {
        ObjectFormat::Elf => elf_needs(bytes),
        ObjectFormat::MachO => macho_needs(bytes),
    }
}

/// The shared-library check for objects of one binary format.
#[derive(Debug, Clone, Copy, PartialEq, Eq)]
pub struct CheckShlibs {
    pub format: ObjectFormat,
}

impl CheckShlibs {
    /// The check for objects of the given format.
    pub fn new(format: ObjectFormat) -> (check: CheckShlibs)
        ensures
            check.format == format,
    {
        CheckShlibs { format }
    }

    /// Reads `bytes` as an object of this check's format.
    pub fn parse(&self, bytes: &[u8]) -> (r: Option<ObjectView>)
        ensures
            match r {
                Some(view) => object_needs(self.format, bytes@) == Some(view@),
                None => object_needs(self.format, bytes@) is None,
            },
    {
        match self.format {
            ObjectFormat::Elf => ObjectView::from_elf(bytes),
            ObjectFormat::MachO => ObjectView::from_macho(bytes),
        }
    }

    /// Composes the requirements of an object.
    pub fn requirements_of(&self, view: &ObjectView, ctx: &ValidationContext) -> (out: Vec<
        Requirement,
    >)
        ensures
            requirements(out@) == object_requirements(self.format, view@, ctx@),
    {
        match self.format {
            ObjectFormat::Elf => crate::check_shlibs::elf::requirements_of(view, ctx),
            ObjectFormat::MachO => crate::check_shlibs::macho::requirements_of(view, ctx),
        }
    }

    /// Checks the object at `path`, of which `view` says what it requires:
    /// resolves each required library and validates what was found.
    ///
    /// `probe` says whether a path exists; it is asked only where `state`
    /// does not know. `load` hands out the dump of the package database; it
    /// is asked only when ownership matters and the index holds nothing.
    pub fn check_object<P: Fn(&str) -> bool, L: Fn() -> Option<String>>(
        &self,
        path: &str,
        view: &ObjectView,
        ctx: &ValidationContext,
        state: &mut CheckState,
        probe: &P,
        load: &L,
    ) -> (out: Vec<Diagnostic>)
        requires
            forall|p: &str| call_requires(probe, (p,)),
            call_requires(load, ()),
        ensures
            resolved(
                path@,
                object_requirements(self.format, view@, ctx@),
                ctx@,
                self.format,
                old(state)@,
                final(state)@,
                findings(out@),
                probe,
                load,
            ),
    {
        let reqs = self.requirements_of(view, ctx);
        check_requirements(path, &reqs, ctx, self.format, state, probe, load)
    }

    /// Checks the object at `path`, whose contents are `object`. Bytes that
    /// are no object of this check's format are passed over: nothing is
    /// reported and `state` stays as it is.
    pub fn check_dso<P: Fn(&str) -> bool, L: Fn() -> Option<String>>(
        &self,
        path: &str,
        object: &[u8],
        ctx: &ValidationContext,
        state: &mut CheckState,
        probe: &P,
        load: &L,
    ) -> (out: Vec<Diagnostic>)
        requires
            forall|p: &str| call_requires(probe, (p,)),
            call_requires(load, ()),
        ensures
            match object_needs(self.format, object@) {
                Some(needs) => resolved(
                    path@,
                    object_requirements(self.format, needs, ctx@),
                    ctx@,
                    self.format,
                    old(state)@,
                    final(state)@,
                    findings(out@),
                    probe,
                    load,
                ),
                None => out@ == Seq::<Diagnostic>::empty() && final(state)@ == old(state)@,
            },
    {
        match self.parse(object) {
            Some(view) => self.check_object(path, &view, ctx, state, probe, load),
            None => Vec::new(),
        }
    }
}

} // verus!
