//! The command line as a whole.

use crate::check_shlibs::CheckShlibs;
use crate::checksum::CheckSum;
use crate::ctfconvert::CTFConvert;
use crate::digest::DigestCmd;
use crate::distinfo::DistInfo;
use crate::fetch::Fetch;
use crate::symlinks::Symlinks;
use vstd::prelude::*;

verus! {

/// The commands of the tool.
#[derive(Debug, Clone, PartialEq, Eq)]
pub enum Commands {
    /// Checks the shared libraries that objects require.
    CheckShlibs(CheckShlibs),
    /// Verifies checksums against a checksum file.
    CheckSum(CheckSum),
    /// Converts debug information in binary files.
    CTFConvert(CTFConvert),
    /// Takes digests of files.
    Digest(DigestCmd),
    /// Creates or updates a checksum file.
    DistInfo(DistInfo),
    /// Fetches distfiles.
    Fetch(Fetch),
    /// Creates symbolic links.
    Symlinks(Symlinks),
}

/// What the command line asks for.
#[derive(Debug, Clone, PartialEq, Eq)]
pub struct Cli {
    /// Whether more is to be said about what is done.
    pub verbose: bool,
    /// The command to run.
    pub command: Commands,
}

} // verus!
