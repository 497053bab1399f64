//! Searching in byte strings.

use vstd::prelude::*;

verus! {

/// `pat` occurs in `s` starting at index `at`.
pub open spec fn occurs_at(s: Seq<u8>, at: int, pat: Seq<u8>) -> bool {
    &&& 0 <= at
    &&& at + pat.len() <= s.len()
    &&& s.subrange(at, at + pat.len()) == pat
}

/// The first index at or after `from` that holds `byte`, or the length of
/// `s` where no such index exists.
pub open spec fn until_byte(s: Seq<u8>, from: int, byte: u8) -> int
    decreases s.len() - from,
{
    if from >= s.len() {
        s.len() as int
    } else if s[from] == byte {
        from
    } else {
        until_byte(s, from + 1, byte)
    }
}

/// Whether `pat` occurs in `s` at index `at`.
pub fn matches_at(s: &[u8], at: usize, pat: &[u8]) -> (r: bool)
    ensures
        r == occurs_at(s@, at as int, pat@),
{
    if at > s.len() || pat.len() > s.len() - at {
        return false;
    }
    let mut k: usize = 0;
    while k < pat.len()
        invariant
            at + pat.len() <= s.len(),
            k <= pat.len(),
            forall|j: int| 0 <= j < k ==> s@[at + j] == pat@[j],
        decreases pat.len() - k,
    {
        if s[at + k] != pat[k] {
            assert(s@.subrange(at as int, at + pat.len())[k as int] != pat@[k as int]);
            return false;
        }
        k += 1;
    }
    assert(s@.subrange(at as int, at + pat.len()) =~= pat@);
    true
}

/// The index of the first `byte` at or after `from`, or the length of `s`.
pub fn scan_to_byte(s: &[u8], from: usize, byte: u8) -> (end: usize)
    requires
        from <= s.len(),
    ensures
        end == until_byte(s@, from as int, byte),
        from <= end <= s.len(),
{
    let mut end: usize = from;
    while end < s.len() && s[end] != byte
        invariant
            from <= end <= s.len(),
            until_byte(s@, from as int, byte) == until_byte(s@, end as int, byte),
        decreases s.len() - end,
    {
        end += 1;
    }
    end
}

/// Whether `pat` occurs in `s` and ends at or before index `end`.
pub fn occurs_within(s: &[u8], end: usize, pat: &[u8]) -> (r: bool)
    requires
        end <= s.len(),
    ensures
        r == exists|at: int| occurs_at(s@, at, pat@) && at + pat@.len() <= end,
{
    if pat.len() > end {
        return false;
    }
    let last: usize = end - pat.len();
    let mut at: usize = 0;
    while at < last
        invariant
            last == end - pat.len(),
            end <= s.len(),
            at <= last,
            forall|j: int| j < at ==> !occurs_at(s@, j, pat@),
        decreases last - at,
    {
        if matches_at(s, at, pat) {
            return true;
        }
        at += 1;
    }
    matches_at(s, last, pat)
}

} // verus!
