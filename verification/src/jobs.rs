//! How many threads a command works with.

use vstd::prelude::*;

verus! {

/// The number of threads where nothing else is asked for.
pub const MKTOOL_DEFAULT_THREADS: usize = 4;

/// The number that `str::parse::<usize>` reads from `text`, if it reads
/// one.
pub uninterp spec fn parsed_count(text: Seq<char>) -> Option<usize>;

/// `str::parse::<usize>`, its error mapped to `None`. Trusted to equal
/// `parsed_count`.
#[verifier::external_body]
fn parse_usize(text: &str) -> (r: Option<usize>)
    ensures
        r == parsed_count(text@),
{
    text.parse::<usize>().ok()
}

/// The number of threads to work with: what the command line asks for,
/// else what the environment asks for if that is a number, else the
/// default.
pub open spec fn threads_for(jobs: Option<usize>, env: Option<Seq<char>>) -> usize {
    match jobs {
        Some(n) => n,
        None => match env {
            Some(text) => match parsed_count(text) {
                Some(n) => n,
                None => MKTOOL_DEFAULT_THREADS,
            },
            None => MKTOOL_DEFAULT_THREADS,
        },
    }
}

/// Whether the environment asks for a number of threads that is none.
pub open spec fn env_is_invalid(jobs: Option<usize>, env: Option<Seq<char>>) -> bool {
    jobs is None && env is Some && parsed_count(env->0) is None
}

/// The text of the environment's setting, as contracts speak of it.
pub open spec fn env_view(env: Option<&str>) -> Option<Seq<char>> {
    match env {
        Some(text) => Some(text@),
        None => None,
    }
}

/// The number of threads to work with, and whether the environment's
/// setting was read and found to be no number.
pub fn thread_count(jobs: Option<usize>, env: Option<&str>) -> (r: (usize, bool))
    ensures
        r.0 == threads_for(jobs, env_view(env)),
        r.1 == env_is_invalid(jobs, env_view(env)),
{
    match jobs {
        Some(n) => (n, false),
        None => match env {
            Some(text) => match parse_usize(text) {
                Some(n) => (n, false),
                None => (MKTOOL_DEFAULT_THREADS, true),
            },
            None => (MKTOOL_DEFAULT_THREADS, false),
        },
    }
}

} // verus!
