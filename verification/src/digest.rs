//! Digests of files: how a digest is reported.

use vstd::prelude::*;
use vstd::string::StringExecFns;

verus! {

/// What the digest command was asked.
#[derive(Debug, Clone, PartialEq, Eq)]
pub struct DigestCmd {
    /// The algorithm to use.
    pub algorithm: String,
    /// The number of threads that the command line asks for.
    pub jobs: Option<usize>,
    /// The files to take digests of. Without them the digest of the
    /// standard input is taken.
    pub files: Option<Vec<String>>,
}

/// The line that reports the digest `hash` of the file at `path`.
pub open spec fn digest_line(algorithm: Seq<char>, path: Seq<char>, hash: Seq<char>) -> Seq<char> {
    algorithm + " ("@ + path + ") = "@ + hash
}

impl DigestCmd {
    /// The line that reports the digest `hash` of the file at `path`,
    /// without a line ending.
    pub fn report_line(&self, path: &str, hash: &str) -> (out: String)
        ensures
            out@ == digest_line(self.algorithm@, path@, hash@),
    {
        let mut out = self.algorithm.clone();
        out.append(" (");
        out.append(path);
        out.append(") = ");
        out.append(hash);
        out
    }
}

} // verus!
