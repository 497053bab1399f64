//! Writing checksum files: how the command ends.

use vstd::prelude::*;

verus! {

/// What the command that writes a checksum file was asked.
#[derive(Debug, Clone, PartialEq, Eq)]
pub struct DistInfo {
    /// The digest algorithms for distfiles.
    pub dalgorithms: Vec<String>,
    /// The distfiles to take digests of, relative to `distdir`.
    pub cksumfile: Vec<String>,
    /// The directory that holds the distfiles.
    pub distdir: String,
    /// An existing checksum file.
    pub distinfo: Option<String>,
    /// A file that lists further distfiles, one to a line.
    pub input: Option<String>,
    /// A list of distfiles to ignore.
    pub ignorefile: Option<String>,
    /// The number of threads that the command line asks for.
    pub jobs: Option<usize>,
    /// The digest algorithms for patches.
    pub palgorithms: Vec<String>,
    /// The patch files.
    pub patchfiles: Vec<String>,
}

/// What the command does once it knows its input.
#[derive(Debug, Clone, Copy, PartialEq, Eq, Structural)]
pub enum Plan {
    /// There is an existing checksum file and nothing to put into it: the
    /// command writes nothing and ends with status 1.
    GiveUp,
    /// The command writes a checksum file.
    Write,
}

/// Whether the command was given no file at all: no distfile or patch
/// that exists, and no patch on the command line.
pub open spec fn has_no_input(entries: nat, patchfiles: nat) -> bool {
    entries == 0 && patchfiles == 0
}

/// What the command does, given how many files exist to put into the
/// checksum file.
pub open spec fn plan_for(entries: nat, patchfiles: nat, has_distinfo: bool) -> Plan {
    if has_no_input(entries, patchfiles) && has_distinfo {
        Plan::GiveUp
    } else {
        Plan::Write
    }
}

/// The status that the command ends with after it wrote a checksum file: 1
/// where it was given no file at all, else whether what it wrote differs
/// from the existing checksum file.
pub open spec fn written_status(entries: nat, patchfiles: nat, changed: bool) -> i32 {
    if has_no_input(entries, patchfiles) || changed {
        1
    } else {
        0
    }
}

impl DistInfo {
    /// What the command does, given how many distfiles and patches exist
    /// to put into the checksum file.
    pub fn plan(&self, entries: usize) -> (plan: Plan)
        ensures
            plan == plan_for(entries as nat, self.patchfiles@.len(), self.distinfo is Some),
    {
        if entries == 0 && self.patchfiles.len() == 0 && self.distinfo.is_some() {
            Plan::GiveUp
        } else {
            Plan::Write
        }
    }

    /// The status that the command ends with after it wrote a checksum
    /// file. `changed` says whether what it wrote differs from the existing
    /// checksum file.
    pub fn status(&self, entries: usize, changed: bool) -> (status: i32)
        ensures
            status == written_status(entries as nat, self.patchfiles@.len(), changed),
    {
        if (entries == 0 && self.patchfiles.len() == 0) || changed {
            1
        } else {
            0
        }
    }
}

} // verus!
