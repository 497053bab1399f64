//! Fetching distfiles: what to fetch, and from which address.

use crate::paths::{file_name, final_component};
use crate::text::{chars_of, split_whitespace, string_of, views, words};
use vstd::prelude::*;
use vstd::string::StringExecFns;

verus! {

/// What the fetch command was asked.
#[derive(Debug, Clone, PartialEq, Eq)]
pub struct Fetch {
    /// The directory where distfiles are stored.
    pub distdir: String,
    /// The file that records sizes and checksums.
    pub distinfo: Option<String>,
    /// A file that lists what to fetch, one file to a line.
    pub input: Option<String>,
    /// The number of threads that the command line asks for.
    pub jobs: Option<usize>,
}

/// The address under which `filename` is fetched from `site`. A site that
/// begins with `-` is the address of the file itself, without the `-`. Any
/// other site is a directory, and the file's name is put behind it.
pub open spec fn site_url(site: Seq<char>, filename: Seq<char>) -> Seq<char> {
    if site.len() > 0 && site[0] == '-' {
        site.drop_first()
    } else if site.len() > 0 && site.last() == '/' {
        site + filename
    } else {
        site + "/"@ + filename
    }
}

/// The address under which `filename` is fetched from `site`.
pub fn url_from_site(site: &str, filename: &str) -> (url: String)
    ensures
        url@ == site_url(site@, filename@),
{
    let chars = chars_of(site);
    let n: usize = chars.len();
    if n > 0 && chars[0] == '-' {
        let url = string_of(&chars, 1, n);
        assert(url@ =~= site@.drop_first());
        url
    } else {
        let mut url = String::from_str(site);
        if !(n > 0 && chars[n - 1] == '/') {
            url.append("/");
        }
        url.append(filename);
        url
    }
}

/// A file to fetch, as contracts speak of it.
pub struct FetchFileView {
    pub filepath: Seq<char>,
    pub filename: Seq<char>,
    pub distdir: Seq<char>,
    pub sites: Seq<Seq<char>>,
    pub status: bool,
}

/// A file to fetch: where it goes below the directory of distfiles, its
/// name, that directory, the sites to try in order, and whether fetching it
/// has not failed.
#[derive(Debug, Clone, PartialEq, Eq)]
pub struct FetchFile {
    pub filepath: String,
    pub filename: String,
    pub distdir: String,
    pub sites: Vec<String>,
    pub status: bool,
}

impl View for FetchFile {
    type V = FetchFileView;

    open spec fn view(&self) -> FetchFileView {
        FetchFileView {
            filepath: self.filepath@,
            filename: self.filename@,
            distdir: self.distdir@,
            sites: views(self.sites@),
            status: self.status,
        }
    }
}

/// Why a line of input names no file to fetch.
#[derive(Debug, Clone, Copy, PartialEq, Eq, Structural)]
pub enum FetchLineError {
    /// The line has fewer than two words.
    Invalid,
    /// The path of the file does not end in a name.
    NoFileName,
}

/// What a line of input asks to fetch. The line holds the file's path, the
/// directory of distfiles, and then any number of sites.
pub open spec fn fetch_request(line: Seq<char>) -> Result<FetchFileView, FetchLineError> {
    let w = words(line);
    if w.len() < 2 {
        Err(FetchLineError::Invalid)
    } else {
        match final_component(w[0]) {
            Some(name) => Ok(
                FetchFileView {
                    filepath: w[0],
                    filename: name,
                    distdir: w[1],
                    sites: w.subrange(2, w.len() as int),
                    status: true,
                },
            ),
            None => Err(FetchLineError::NoFileName),
        }
    }
}

/// Reads one line of input.
pub fn parse_line(line: &str) -> (r: Result<FetchFile, FetchLineError>)
    ensures
        match r {
            Ok(file) => fetch_request(line@) == Ok::<FetchFileView, FetchLineError>(file@),
            Err(e) => fetch_request(line@) == Err::<FetchFileView, FetchLineError>(e),
        },
{
    let all = split_whitespace(line);
    if all.len() < 2 {
        return Err(FetchLineError::Invalid);
    }
    assert(views(all@)[0] == all@[0]@);
    assert(views(all@)[1] == all@[1]@);
    match file_name(all[0].as_str()) {
        None => Err(FetchLineError::NoFileName),
        Some(filename) => {
            let mut sites: Vec<String> = Vec::new();
            let mut i: usize = 2;
            while i < all.len()
                invariant
                    2 <= i <= all.len(),
                    views(sites@) =~= views(all@).subrange(2, i as int),
                decreases all.len() - i,
            {
                let ghost before = views(sites@);
                sites.push(all[i].clone());
                assert(views(sites@) =~= before.push(all@[i as int]@));
                i += 1;
            }
            Ok(
                FetchFile {
                    filepath: all[0].clone(),
                    filename,
                    distdir: all[1].clone(),
                    sites,
                    status: true,
                },
            )
        },
    }
}

/// Whether fetching succeeded for every file.
pub fn all_fetched(files: &Vec<FetchFile>) -> (r: bool)
    ensures
        r == forall|i: int| 0 <= i < files.len() ==> (#[trigger] files[i]).status,
{
    let mut i: usize = 0;
    while i < files.len()
        invariant
            i <= files.len(),
            forall|j: int| 0 <= j < i ==> (#[trigger] files[j]).status,
        decreases files.len() - i,
    {
        if !files[i].status {
            return false;
        }
        i += 1;
    }
    true
}

} // verus!
