//! Checksum files for distfiles and patches: which files count as patches.

use crate::paths::{file_name, final_component};
use crate::digest::digest_line;
use crate::text::{chars_of, contains, ends_with, has_infix, lines, split_lines, starts_with, views};
use vstd::prelude::*;
use vstd::string::StringExecFns;

verus! {

/// What a checksum file is made from.
#[derive(Debug, Clone, PartialEq, Eq)]
pub struct MakeSum {
    /// The digest algorithms for distfiles.
    pub dalgorithms: Vec<String>,
    /// The distfiles to take digests of, relative to `distdir`.
    pub cksumfile: Vec<String>,
    /// The directory that holds the distfiles.
    pub distdir: String,
    /// An existing checksum file.
    pub distinfo: Option<String>,
    /// A file that lists further distfiles, one to a line.
    pub input: Option<String>,
    /// A list of distfiles to ignore.
    pub ignorefile: Option<String>,
    /// The digest algorithms for patches.
    pub palgorithms: Vec<String>,
    /// The patch files.
    pub patchfiles: Vec<String>,
}

/// Whether `name` is the name of a local patch, or of a file that tools
/// leave behind when they work on patches.
pub open spec fn is_scratch_name(name: Seq<char>) -> bool {
    ||| "patch-local-"@.is_prefix_of(name)
    ||| ".orig"@.is_suffix_of(name)
    ||| ".rej"@.is_suffix_of(name)
    ||| "~"@.is_suffix_of(name)
}

/// Whether `name` has the form of a patch's name.
pub open spec fn is_patch_name(name: Seq<char>) -> bool {
    "patch-"@.is_prefix_of(name) || ("emul-"@.is_prefix_of(name) && contains(name, "-patch-"@))
}

/// Whether a file of the name `name` counts as a patch.
pub open spec fn counts_as_patch(name: Seq<char>) -> bool {
    !is_scratch_name(name) && is_patch_name(name)
}

/// The name under which the file at `path` counts as a patch, if it does:
/// it must be a regular file and its name that of a patch.
pub open spec fn patch_name(path: Seq<char>, is_file: bool) -> Option<Seq<char>> {
    if !is_file {
        None
    } else {
        match final_component(path) {
            Some(name) => if counts_as_patch(name) {
                Some(name)
            } else {
                None
            },
            None => None,
        }
    }
}

/// Whether a file of the name `name` counts as a patch.
pub fn is_patch(name: &str) -> (r: bool)
    ensures
        r == counts_as_patch(name@),
{
    let chars = chars_of(name);
    if starts_with(&chars, &chars_of("patch-local-")) || ends_with(&chars, &chars_of(".orig"))
        || ends_with(&chars, &chars_of(".rej")) || ends_with(&chars, &chars_of("~")) {
        return false;
    }
    starts_with(&chars, &chars_of("patch-")) || (starts_with(&chars, &chars_of("emul-"))
        && has_infix(&chars, &chars_of("-patch-")))
}

/// The name under which the file at `path` counts as a patch, if it does.
/// `is_file` says whether `path` is a regular file.
pub fn is_patchfile(path: &str, is_file: bool) -> (r: Option<String>)
    ensures
        match r {
            Some(name) => patch_name(path@, is_file) == Some(name@),
            None => patch_name(path@, is_file) is None,
        },
{
    if !is_file {
        return None;
    }
    match file_name(path) {
        Some(name) => if is_patch(name.as_str()) {
            Some(name)
        } else {
            None
        },
        None => None,
    }
}


/// The revision line that a checksum file is given: the first line of the
/// existing file where that begins with `$NetBSD`, else an empty marker.
pub open spec fn revision_line(existing: Option<Seq<char>>) -> Seq<char> {
    match existing {
        Some(text) => if lines(text).len() > 0 && "$NetBSD"@.is_prefix_of(lines(text)[0]) {
            lines(text)[0]
        } else {
            "$NetBSD$"@
        },
        None => "$NetBSD$"@,
    }
}

/// What a checksum file begins with: the revision line and an empty line.
pub open spec fn preamble_of(existing: Option<Seq<char>>) -> Seq<char> {
    revision_line(existing) + "\n"@ + "\n"@
}

impl MakeSum {
    /// What the checksum file begins with, given the text of the existing
    /// one.
    pub fn preamble(&self, existing: Option<&str>) -> (out: String)
        ensures
            out@ == preamble_of(
                match existing {
                    Some(text) => Some(text@),
                    None => None,
                },
            ),
    {
        let mut out = String::new();
        let mut kept = false;
        match existing {
            Some(text) => {
                let all = split_lines(text);
                if all.len() > 0 {
                    assert(views(all@)[0] == all@[0]@);
                    if starts_with(&chars_of(all[0].as_str()), &chars_of("$NetBSD")) {
                        out.append(all[0].as_str());
                        kept = true;
                    }
                }
            },
            None => {},
        }
        if !kept {
            out.append("$NetBSD$");
        }
        assert(out@ =~= revision_line(
            match existing {
                Some(text) => Some(text@),
                None => None,
            },
        ));
        out.append("\n");
        out.append("\n");
        out
    }

    /// The line that records the digest `hash` of the file `filename`,
    /// with its line ending.
    pub fn checksum_line(&self, algorithm: &str, filename: &str, hash: &str) -> (out: String)
        ensures
            out@ == digest_line(algorithm@, filename@, hash@) + "\n"@,
    {
        let mut out = String::from_str(algorithm);
        out.append(" (");
        out.append(filename);
        out.append(") = ");
        out.append(hash);
        out.append("\n");
        out
    }
}

} // verus!
