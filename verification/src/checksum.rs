//! Verifying checksums: which names are looked up, and how the command
//! ends.

use crate::text::{chars_of, ends_with, string_of};
use vstd::prelude::*;

verus! {

/// What the checksum command was asked.
#[derive(Debug, Clone, PartialEq, Eq)]
pub struct CheckSum {
    /// The only algorithm to verify, if one is given.
    pub algorithm: Option<String>,
    /// A file that lists the files to verify, one to a line.
    pub input: Option<String>,
    /// The number of threads that the command line asks for.
    pub jobs: Option<usize>,
    /// Whether patches are verified rather than distfiles.
    pub patchmode: bool,
    /// A suffix to take off the names of the files.
    pub stripsuffix: Option<String>,
    /// The file that records the checksums.
    pub distinfo: String,
    /// The files to verify.
    pub files: Vec<String>,
}

/// `name` without `suffix` at its end, or `name` itself where it does not
/// end with `suffix`.
pub open spec fn without_suffix(name: Seq<char>, suffix: Seq<char>) -> Seq<char> {
    if suffix.is_suffix_of(name) {
        name.subrange(0, name.len() - suffix.len())
    } else {
        name
    }
}

/// The name under which the file given as `name` is looked up.
pub open spec fn looked_up_as(name: Seq<char>, stripsuffix: Option<Seq<char>>) -> Seq<char> {
    match stripsuffix {
        Some(suffix) => without_suffix(name, suffix),
        None => name,
    }
}

/// How a file fared.
#[derive(Debug, Clone, Copy, PartialEq, Eq, Structural)]
pub enum Outcome {
    /// The checksum is the recorded one.
    Verified,
    /// The checksum differs from the recorded one.
    Mismatch,
    /// No checksum is recorded.
    NotRecorded,
    /// The check could not be made.
    Failed,
}

/// The index of the first mismatch at or after `from`.
pub open spec fn mismatch_from(outcomes: Seq<Outcome>, from: int) -> Option<int>
    decreases outcomes.len() - from,
{
    if from >= outcomes.len() {
        None
    } else if outcomes[from] == Outcome::Mismatch {
        Some(from)
    } else {
        mismatch_from(outcomes, from + 1)
    }
}

/// The status that the command ends with: 1 at the first mismatch, else 2
/// where a checksum is not recorded or a file is not known at all, else 0.
pub open spec fn exit_status(outcomes: Seq<Outcome>, unknown_files: nat) -> i32 {
    if mismatch_from(outcomes, 0) is Some {
        1
    } else if unknown_files > 0 || exists|i: int|
        0 <= i < outcomes.len() && #[trigger] outcomes[i] == Outcome::NotRecorded {
        2
    } else {
        0
    }
}

impl CheckSum {
    /// The name under which the file given as `name` is looked up: without
    /// the suffix to strip, where it ends with that.
    pub fn lookup_name(&self, name: &str) -> (out: String)
        ensures
            out@ == looked_up_as(
                name@,
                match self.stripsuffix {
                    Some(suffix) => Some(suffix@),
                    None => None,
                },
            ),
    {
        match &self.stripsuffix {
            Some(suffix) => {
                let chars = chars_of(name);
                let tail = chars_of(suffix.as_str());
                if ends_with(&chars, &tail) {
                    string_of(&chars, 0, chars.len() - tail.len())
                } else {
                    name.to_owned()
                }
            },
            None => name.to_owned(),
        }
    }

    /// The status that the command ends with, given how the files fared in
    /// the order of the report, and how many files were not known at all.
    pub fn status(&self, outcomes: &Vec<Outcome>, unknown_files: usize) -> (status: i32)
        ensures
            status == exit_status(outcomes@, unknown_files as nat),
    {
        let mut not_recorded = false;
        let mut i: usize = 0;
        while i < outcomes.len()
            invariant
                i <= outcomes.len(),
                mismatch_from(outcomes@, 0) == mismatch_from(outcomes@, i as int),
                not_recorded == exists|j: int|
                    0 <= j < i && #[trigger] outcomes@[j] == Outcome::NotRecorded,
            decreases outcomes.len() - i,
        {
            match outcomes[i] {
                Outcome::Mismatch => {
                    return 1;
                },
                Outcome::NotRecorded => {
                    not_recorded = true;
                },
                _ => {},
            }
            i += 1;
        }
        if unknown_files > 0 || not_recorded {
            2
        } else {
            0
        }
    }
}

} // verus!
