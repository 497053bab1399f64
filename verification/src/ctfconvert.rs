//! Converting debug information: under which name a file is reported.

use crate::paths::{strip_prefix, without_prefix};
use vstd::prelude::*;

verus! {

/// What the conversion command was asked.
#[derive(Debug, Clone, PartialEq, Eq)]
pub struct CTFConvert {
    /// The path of the conversion tool.
    pub ctfconvert: String,
    /// A file that lists the files to convert, one to a line.
    pub input: Option<String>,
    /// The number of threads that the command line asks for.
    pub jobs: Option<usize>,
    /// The prefix to take off the names that are reported.
    pub strip_prefix: String,
}

/// The name under which the file at `path` is reported: `path` without
/// `prefix`, or `path` itself where `prefix` is no prefix of it.
pub open spec fn reported_name(path: Seq<char>, prefix: Seq<char>) -> Seq<char> {
    match without_prefix(path, prefix) {
        Some(rest) => rest,
        None => path,
    }
}

impl CTFConvert {
    /// The name under which the file at `path` is reported.
    pub fn display_name(&self, path: &str) -> (out: String)
        ensures
            out@ == reported_name(path@, self.strip_prefix@),
    {
        match strip_prefix(path, self.strip_prefix.as_str()) {
            Some(rest) => rest,
            None => path.to_owned(),
        }
    }
}

} // verus!
