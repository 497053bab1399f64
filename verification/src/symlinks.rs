//! Symbolic links from lines of the form `link -> original`.

use crate::text::{chars_of, find_from, occurs_at, string_of, trimmed};
use vstd::prelude::*;

verus! {

/// The maker of symbolic links.
#[derive(Debug, Clone, Copy, PartialEq, Eq)]
pub struct Symlinks {}

/// A link to make, as contracts speak of it.
pub struct LinkView {
    pub link: Seq<char>,
    pub original: Seq<char>,
}

/// A link to make: the path of the link and the path it points to.
#[derive(Debug, Clone, PartialEq, Eq)]
pub struct Link {
    pub link: String,
    pub original: String,
}

impl View for Link {
    type V = LinkView;

    open spec fn view(&self) -> LinkView {
        LinkView { link: self.link@, original: self.original@ }
    }
}

/// Whether `at` is the only place where `line` holds an arrow: the first
/// arrow begins there and none follows it.
pub open spec fn is_only_arrow(line: Seq<char>, at: int) -> bool {
    &&& occurs_at(line, at, " -> "@)
    &&& forall|j: int| 0 <= j < at ==> !occurs_at(line, j, " -> "@)
    &&& forall|j: int| at + " -> "@.len() <= j ==> !occurs_at(line, j, " -> "@)
}

/// The link that `line` asks for with its arrow at `at`: what stands
/// before the arrow and what stands behind it, each without the white space
/// around it.
pub open spec fn link_at(line: Seq<char>, at: int) -> LinkView {
    LinkView {
        link: trimmed(line.subrange(0, at)),
        original: trimmed(line.subrange(at + " -> "@.len(), line.len() as int)),
    }
}

impl Symlinks {
    /// Reads one line. A line asks for a link where it holds exactly one
    /// arrow; any other line asks for nothing.
    pub fn parse_line(&self, line: &str) -> (r: Option<Link>)
        ensures
            match r {
                Some(link) => exists|at: int|
                    is_only_arrow(line@, at) && link@ == link_at(line@, at),
                None => forall|at: int| !is_only_arrow(line@, at),
            },
    {
        let chars = chars_of(line);
        let arrow = chars_of(" -> ");
        match find_from(&chars, 0, &arrow) {
            None => None,
            Some(at) => {
                let end: usize = chars.len();
                let behind: usize = at + arrow.len();
                match find_from(&chars, behind, &arrow) {
                    Some(second) => {
                        assert forall|k: int| !is_only_arrow(line@, k) by {
                            if is_only_arrow(line@, k) {
                                assert(k == at);
                                assert(occurs_at(line@, second as int, " -> "@));
                            }
                        }
                        None
                    },
                    None => {
                        let left = string_of(&chars, 0, at);
                        let right = string_of(&chars, behind, end);
                        let found = Link {
                            link: crate::text::trim(left.as_str()),
                            original: crate::text::trim(right.as_str()),
                        };
                        assert(is_only_arrow(line@, at as int));
                        assert(found@ == link_at(line@, at as int));
                        Some(found)
                    },
                }
            },
        }
    }
}

} // verus!
