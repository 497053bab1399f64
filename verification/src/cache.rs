//! What a run has learnt so far: which paths exist, and which package owns
//! which file. Both only grow, and neither changes an entry once it is
//! written.

use crate::text::{
    chars_of, find_last, lemma_rfind, lines, occurs_at, rfind, split_lines, split_whitespace,
    starts_with, string_of, views, words,
};
use vstd::hash_map::StringHashMap;
use vstd::prelude::*;

verus! {

/// `known` with `value` recorded for `key`, unless `key` already has an
/// entry.
pub open spec fn recorded<V>(known: Map<Seq<char>, V>, key: Seq<char>, value: V) -> Map<
    Seq<char>,
    V,
> {
    if known.contains_key(key) {
        known
    } else {
        known.insert(key, value)
    }
}

/// Recording keeps every entry that was there: no entry is lost, and none
/// changes.
pub proof fn lemma_recorded_keeps<V>(known: Map<Seq<char>, V>, key: Seq<char>, value: V)
    ensures
        known.submap_of(recorded(known, key, value)),
        recorded(known, key, value).contains_key(key),
        known.contains_key(key) ==> recorded(known, key, value) == known,
{
}

/// Remembers for each path that was tested whether it exists.
pub struct ExistenceCache {
    known: StringHashMap<bool>,
}

impl View for ExistenceCache {
    type V = Map<Seq<char>, bool>;

    closed spec fn view(&self) -> Map<Seq<char>, bool> {
        self.known@
    }
}

impl ExistenceCache {
    /// A cache that knows of no path.
    pub fn new() -> (cache: ExistenceCache)
        ensures
            cache@ == Map::<Seq<char>, bool>::empty(),
    {
        ExistenceCache { known: StringHashMap::new() }
    }

    /// What the cache knows of `path`.
    pub fn lookup(&self, path: &str) -> (r: Option<bool>)
        ensures
            r == (if self@.contains_key(path@) {
                Some(self@[path@])
            } else {
                None::<bool>
            }),
    {
        match self.known.get(path) {
            Some(known) => Some(*known),
            None => None,
        }
    }

    /// Records that `path` exists, or does not, unless the cache already
    /// knows of `path`. Returns what the cache holds for `path` afterwards.
    pub fn record(&mut self, path: &str, present: bool) -> (r: bool)
        ensures
            final(self)@ == recorded(old(self)@, path@, present),
            r == final(self)@[path@],
    {
        match self.known.get(path) {
            Some(known) => *known,
            None => {
                self.known.insert(path.to_owned(), present);
                present
            },
        }
    }

    /// Whether `path` exists: the cache's answer where it has one, otherwise
    /// the answer of `probe`, which the cache then keeps.
    pub fn is_present<P: Fn(&str) -> bool>(&mut self, path: &str, probe: &P) -> (r: bool)
        requires
            call_requires(probe, (path,)),
        ensures
            final(self)@ == recorded(old(self)@, path@, r),
            r == final(self)@[path@],
            !old(self)@.contains_key(path@) ==> call_ensures(probe, (path,), r),
    {
        match self.known.get(path) {
            Some(known) => *known,
            None => {
                let found = probe(path);
                self.known.insert(path.to_owned(), found);
                found
            },
        }
    }
}

/// The owner that an entry of the index names, as contracts speak of it.
pub open spec fn owner_view(owner: Option<String>) -> Option<Seq<char>> {
    match owner {
        Some(name) => Some(name@),
        None => None,
    }
}

/// The path and the package that a line of the package database's dump
/// names. The line has the shape `file: <path> pkg: <name>`: the path is
/// what stands between the leading `file: ` and the last ` pkg: ` of the
/// line and is not empty, and the name is the last word of the line, which
/// stands after that ` pkg: `. Any other line names nothing.
pub open spec fn dump_entry(line: Seq<char>) -> Option<(Seq<char>, Seq<char>)> {
    let head = "file: "@;
    let mark = " pkg: "@;
    if !head.is_prefix_of(line) {
        None
    } else {
        match rfind(line, mark) {
            None => None,
            Some(at) => {
                let name = words(line.subrange(at + mark.len(), line.len() as int));
                if at <= head.len() || name.len() == 0 {
                    None
                } else {
                    Some((line.subrange(head.len() as int, at), name.last()))
                }
            },
        }
    }
}

/// `index` after the lines of a dump were read in order: each line that
/// names a path the index does not know yet adds that path with its package.
pub open spec fn loaded(
    index: Map<Seq<char>, Option<Seq<char>>>,
    dump: Seq<Seq<char>>,
) -> Map<Seq<char>, Option<Seq<char>>>
    decreases dump.len(),
{
    if dump.len() == 0 {
        index
    } else {
        let before = loaded(index, dump.drop_last());
        match dump_entry(dump.last()) {
            Some((path, package)) => recorded(before, path, Some(package)),
            None => before,
        }
    }
}

/// Reading a dump keeps every entry that was there: no entry is lost, and
/// none changes.
pub proof fn lemma_loaded_keeps(index: Map<Seq<char>, Option<Seq<char>>>, dump: Seq<Seq<char>>)
    ensures
        index.submap_of(loaded(index, dump)),
    decreases dump.len(),
{
    if dump.len() > 0 {
        lemma_loaded_keeps(index, dump.drop_last());
    }
}

/// Reads one line of the package database's dump.
pub fn parse_dump_line(line: &str) -> (r: Option<(String, String)>)
    ensures
        match r {
            Some((path, package)) => dump_entry(line@) == Some((path@, package@)),
            None => dump_entry(line@) is None,
        },
{
    let chars = chars_of(line);
    let head = chars_of("file: ");
    let mark = chars_of(" pkg: ");
    if !starts_with(&chars, &head) {
        return None;
    }
    match find_last(&chars, &mark) {
        None => None,
        Some(at) => {
            if at <= head.len() {
                return None;
            }
            proof {
                lemma_rfind(chars@, mark@);
                assert(occurs_at(chars@, at as int, mark@));
            }
            let end: usize = chars.len();
            let rest = string_of(&chars, at + mark.len(), end);
            let mut names = split_whitespace(rest.as_str());
            let ghost all = names@;
            match names.pop() {
                None => None,
                Some(name) => {
                    assert(views(all).last() == name@);
                    Some((string_of(&chars, head.len(), at), name))
                },
            }
        },
    }
}

/// Remembers for each file which package owns it, or that none does.
pub struct OwnershipIndex {
    owners: StringHashMap<Option<String>>,
}

impl View for OwnershipIndex {
    type V = Map<Seq<char>, Option<Seq<char>>>;

    closed spec fn view(&self) -> Map<Seq<char>, Option<Seq<char>>> {
        self.owners@.map_values(|owner: Option<String>| owner_view(owner))
    }
}

impl OwnershipIndex {
    /// An index that was not filled yet.
    pub fn new() -> (index: OwnershipIndex)
        ensures
            index@ == Map::<Seq<char>, Option<Seq<char>>>::empty(),
    {
        let index = OwnershipIndex { owners: StringHashMap::new() };
        assert(index@ =~= Map::<Seq<char>, Option<Seq<char>>>::empty());
        index
    }

    /// Whether the index holds nothing, which is to say that the package
    /// database was not asked yet.
    pub fn is_empty(&self) -> (r: bool)
        ensures
            r == (self@ == Map::<Seq<char>, Option<Seq<char>>>::empty()),
    {
        let r = self.owners.is_empty();
        proof {
            if r {
                assert(self@ =~= Map::<Seq<char>, Option<Seq<char>>>::empty());
            } else {
                let k = choose|k: Seq<char>| self.owners@.dom().contains(k);
                assert(self@.contains_key(k));
            }
        }
        r
    }

    /// What the index knows of `path`: nothing, that no package owns it, or
    /// the package that does.
    pub fn lookup(&self, path: &str) -> (r: Option<Option<String>>)
        ensures
            match r {
                Some(owner) => self@.contains_key(path@) && self@[path@] == owner_view(owner),
                None => !self@.contains_key(path@),
            },
    {
        match self.owners.get(path) {
            Some(owner) => match owner {
                Some(name) => Some(Some(name.clone())),
                None => Some(None),
            },
            None => None,
        }
    }

    /// Records the owner of `path`, unless the index already knows of
    /// `path`.
    pub fn record(&mut self, path: &str, owner: Option<String>)
        ensures
            final(self)@ == recorded(old(self)@, path@, owner_view(owner)),
    {
        if !self.owners.contains_key(path) {
            self.owners.insert(path.to_owned(), owner);
            assert(self@ =~= recorded(old(self)@, path@, owner_view(owner)));
        }
    }

    /// Reads the dump of the package database into the index, line by line.
    pub fn populate(&mut self, dump: &str)
        ensures
            final(self)@ == loaded(old(self)@, lines(dump@)),
    {
        let all = split_lines(dump);
        let mut i: usize = 0;
        while i < all.len()
            invariant
                i <= all.len(),
                views(all@) == lines(dump@),
                self@ == loaded(old(self)@, lines(dump@).take(i as int)),
            decreases all.len() - i,
        {
            proof {
                assert(lines(dump@).take(i + 1).drop_last() =~= lines(dump@).take(i as int));
                assert(lines(dump@).take(i + 1).last() == all@[i as int]@);
            }
            match parse_dump_line(all[i].as_str()) {
                Some((path, package)) => {
                    self.record(path.as_str(), Some(package));
                },
                None => {},
            }
            i += 1;
        }
        assert(lines(dump@).take(i as int) =~= lines(dump@));
    }
}

} // verus!
