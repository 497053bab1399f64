//! Portability checks for lines of shell scripts.

use crate::bytes::{occurs_at as bytes_occur_at, occurs_within, scan_to_byte, until_byte};
use crate::text::{
    char_is_ascii_uppercase, chars_of, find_from, is_ascii_uppercase, matches_at, occurs_at,
    split_whitespace, trimmed, views, words,
};
use content_inspector::{inspect, ContentType};
use glob::Pattern;
use std::path::Path;
use vstd::prelude::*;

verus! {

/// Whether the `$RANDOM` at index `at` is mixed with the process id, as
/// `$$-$RANDOM` or `$RANDOM-$$`. Scripts of GNU configure do so, and they
/// always run under a shell that has `$RANDOM`.
pub open spec fn is_mixed_with_pid(line: Seq<char>, at: int) -> bool {
    occurs_at(line, at - "$$-"@.len(), "$$-"@) || occurs_at(line, at + "$RANDOM"@.len(), "-$$"@)
}

/// Whether the `$RANDOM` at index `at` is the start of a longer variable
/// name, such as `$RANDOMIZE` or `$RANDOM_ISH`.
pub open spec fn starts_longer_name(line: Seq<char>, at: int) -> bool {
    let next = at + "$RANDOM"@.len();
    next < line.len() && (is_ascii_uppercase(line[next]) || line[next] == '_')
}

/// Whether `line` uses `$RANDOM` in a way that is not portable: it holds a
/// `$RANDOM` that is not the start of a longer name, and none of its
/// `$RANDOM` is mixed with the process id.
pub open spec fn uses_random(line: Seq<char>) -> bool {
    &&& exists|at: int| occurs_at(line, at, "$RANDOM"@) && !starts_longer_name(line, at)
    &&& forall|at: int| occurs_at(line, at, "$RANDOM"@) ==> !is_mixed_with_pid(line, at)
}

/// Whether `line` holds the word `==` two words after a `test` or a `[`.
pub open spec fn tests_with_double_equals(line: Seq<char>) -> bool {
    let w = words(line);
    exists|i: int|
        2 <= i < w.len() && #[trigger] w[i] == "=="@ && (w[i - 2] == "test"@ || w[i - 2] == "["@)
}

/// Whether `line` uses `$RANDOM` in a way that is not portable.
pub fn check_random(line: &str) -> (r: bool)
    ensures
        r == uses_random(line@),
{
    let chars = chars_of(line);
    let name = chars_of("$RANDOM");
    let before = chars_of("$$-");
    let after = chars_of("-$$");
    let mut found = false;
    let mut from: usize = 0;
    proof {
        reveal_strlit("$RANDOM");
    }
    loop
        invariant
            chars@ == line@,
            name@ == "$RANDOM"@,
            name@.len() == 7,
            before@ == "$$-"@,
            after@ == "-$$"@,
            from <= chars.len() + 1,
            found == exists|at: int|
                at < from && #[trigger] occurs_at(line@, at, name@) && !starts_longer_name(
                    line@,
                    at,
                ),
            forall|at: int|
                at < from && #[trigger] occurs_at(line@, at, name@) ==> !is_mixed_with_pid(
                    line@,
                    at,
                ),
        decreases chars.len() + 1 - from,
    {
        let ghost seen = from as int;
        match find_from(&chars, from, &name) {
            None => {
                proof {
                    if found {
                        let at = choose|at: int|
                            at < seen && #[trigger] occurs_at(line@, at, name@)
                                && !starts_longer_name(line@, at);
                        assert(occurs_at(line@, at, "$RANDOM"@) && !starts_longer_name(line@, at));
                    }
                }
                return found;
            },
            Some(at) => {
                assert(occurs_at(line@, at as int, "$RANDOM"@));
                let next: usize = at + name.len();
                if at >= before.len() && matches_at(&chars, at - before.len(), &before) {
                    assert(is_mixed_with_pid(line@, at as int));
                    return false;
                }
                if matches_at(&chars, next, &after) {
                    assert(is_mixed_with_pid(line@, at as int));
                    return false;
                }
                assert(!is_mixed_with_pid(line@, at as int));
                let longer = next < chars.len() && (char_is_ascii_uppercase(chars[next])
                    || chars[next] == '_');
                assert(longer == starts_longer_name(line@, at as int));
                let ghost was = found;
                if !longer {
                    found = true;
                }
                from = at + 1;
                proof {
                    if was {
                        let w = choose|w: int|
                            w < seen && #[trigger] occurs_at(line@, w, name@)
                                && !starts_longer_name(line@, w);
                        assert(w < from && occurs_at(line@, w, name@) && !starts_longer_name(
                            line@,
                            w,
                        ));
                    }
                    if !found {
                        assert forall|w: int|
                            w < from && #[trigger] occurs_at(line@, w, name@)
                                implies starts_longer_name(line@, w) by {
                            if w < seen {
                            } else if w < at {
                            } else {
                                assert(w == at);
                            }
                        }
                    }
                }
            },
        }
    }
}

/// Whether `line` compares with `==` in a `test` or `[` command.
pub fn check_test_eq(line: &str) -> (r: bool)
    ensures
        r == tests_with_double_equals(line@),
{
    let all = split_whitespace(line);
    let mut idx: usize = 2;
    while idx < all.len()
        invariant
            2 <= idx,
            views(all@) == words(line@),
            forall|i: int|
                2 <= i < idx && i < all.len() ==> !(#[trigger] words(line@)[i] == "=="@ && (words(
                    line@,
                )[i - 2] == "test"@ || words(line@)[i - 2] == "["@)),
        decreases all.len() - idx,
    {
        assert(views(all@)[idx as int] == all@[idx as int]@);
        assert(views(all@)[idx - 2] == all@[idx - 2]@);
        if all[idx] == "==".to_owned() && (all[idx - 2] == "test".to_owned() || all[idx - 2]
            == "[".to_owned()) {
            return true;
        }
        idx += 1;
    }
    false
}

/// What a line of a shell script is found to hold.
#[derive(Debug, Clone, Copy, PartialEq, Eq, Structural)]
pub struct LineReport {
    /// The line uses `$RANDOM` in a way that is not portable: a warning.
    pub random: bool,
    /// The line compares with `==` in a `test`: an error.
    pub test_eq: bool,
}

/// What the line `line` of a shell script holds. White space around it
/// does not count, and a comment holds nothing.
pub open spec fn line_report(line: Seq<char>) -> LineReport {
    let text = trimmed(line);
    if text.len() > 0 && text[0] == '#' {
        LineReport { random: false, test_eq: false }
    } else {
        LineReport { random: uses_random(text), test_eq: tests_with_double_equals(text) }
    }
}

/// The portability check of shell scripts.
#[derive(Debug, Clone, Copy, PartialEq, Eq)]
pub struct Cmd {}

impl Cmd {
    /// Checks one line of a shell script.
    pub fn check_line(&self, line: &str) -> (report: LineReport)
        ensures
            report == line_report(line@),
    {
        let text = crate::text::trim(line);
        let chars = chars_of(text.as_str());
        if chars.len() > 0 && chars[0] == '#' {
            LineReport { random: false, test_eq: false }
        } else {
            LineReport {
                random: check_random(text.as_str()),
                test_eq: check_test_eq(text.as_str()),
            }
        }
    }
}


/// What the contents of a file are taken for.
#[derive(Debug, Clone, Copy, PartialEq, Eq, Structural)]
pub enum ContentKind {
    Binary,
    Utf8,
    Utf8Bom,
    Utf16Le,
    Utf16Be,
    Utf32Le,
    Utf32Be,
}

/// What `content_inspector::inspect` takes `bytes` for.
pub uninterp spec fn content_kind(bytes: Seq<u8>) -> ContentKind;

/// Whether `glob::Pattern::new` accepts `pattern`.
pub uninterp spec fn glob_compiles(pattern: Seq<char>) -> bool;

/// Whether the pattern that `glob::Pattern::new` builds from `pattern`
/// matches `path`, as `Pattern::matches_path` reports it.
pub uninterp spec fn glob_matches(pattern: Seq<char>, path: Seq<char>) -> bool;

/// `content_inspector::inspect`, each content type given under the
/// library's name for it. Trusted to equal `content_kind`.
#[verifier::external_body]
fn inspect_content(bytes: &[u8]) -> (kind: ContentKind)
    ensures
        kind == content_kind(bytes@),
{
    match inspect(bytes) {
        ContentType::BINARY => ContentKind::Binary,
        ContentType::UTF_8 => ContentKind::Utf8,
        ContentType::UTF_8_BOM => ContentKind::Utf8Bom,
        ContentType::UTF_16LE => ContentKind::Utf16Le,
        ContentType::UTF_16BE => ContentKind::Utf16Be,
        ContentType::UTF_32LE => ContentKind::Utf32Le,
        ContentType::UTF_32BE => ContentKind::Utf32Be,
    }
}

/// `glob::Pattern::new` followed by `Pattern::matches_path`: `None` where
/// the pattern is refused, otherwise whether it matches `path`. Trusted to
/// equal `glob_compiles` and `glob_matches`.
#[verifier::external_body]
fn glob_search(pattern: &str, path: &str) -> (r: Option<bool>)
    ensures
        r == (if glob_compiles(pattern@) {
            Some(glob_matches(pattern@, path@))
        } else {
            None::<bool>
        }),
{
    match Pattern::new(pattern) {
        Ok(glob) => Some(glob.matches_path(Path::new(path))),
        Err(_) => None,
    }
}

/// The bytes `#!`.
pub open spec fn hashbang() -> Seq<u8> {
    seq![0x23u8, 0x21u8]
}

/// The bytes `/bin/sh`.
pub open spec fn bin_sh() -> Seq<u8> {
    seq![0x2fu8, 0x62u8, 0x69u8, 0x6eu8, 0x2fu8, 0x73u8, 0x68u8]
}

/// Whether a file that begins with `head` asks for `/bin/sh` on its first
/// line: the file begins with `#!`, and `/bin/sh` stands before the first
/// line feed.
pub open spec fn asks_for_shell(head: Seq<u8>) -> bool {
    &&& hashbang().is_prefix_of(head)
    &&& exists|at: int|
        bytes_occur_at(head, at, bin_sh()) && at + bin_sh().len() <= until_byte(head, 0, 0x0au8)
}

/// Whether a file that begins with `head` is a shell script: it asks for
/// `/bin/sh` and `head` is taken for plain UTF-8 text.
pub open spec fn is_shell_head(head: Seq<u8>) -> bool {
    asks_for_shell(head) && content_kind(head) == ContentKind::Utf8
}

/// The patterns of files to pass over: backup files, and what the setting
/// lists.
pub open spec fn skip_list(setting: Option<Seq<char>>) -> Seq<Seq<char>> {
    seq!["*.orig"@, "*~"@] + match setting {
        Some(text) => words(text),
        None => Seq::empty(),
    }
}

/// Whether one of `patterns` matches `path`. A pattern that does not
/// compile matches nothing.
pub open spec fn is_skipped(patterns: Seq<Seq<char>>, path: Seq<char>) -> bool {
    exists|i: int|
        0 <= i < patterns.len() && glob_compiles(#[trigger] patterns[i]) && glob_matches(
            patterns[i],
            path,
        )
}

impl Cmd {
    /// The patterns of files to pass over, given the setting that lists
    /// more of them.
    pub fn skip_patterns(&self, setting: Option<&str>) -> (out: Vec<String>)
        ensures
            views(out@) == skip_list(
                match setting {
                    Some(text) => Some(text@),
                    None => None,
                },
            ),
    {
        let mut out: Vec<String> = Vec::new();
        out.push("*.orig".to_owned());
        out.push("*~".to_owned());
        assert(views(out@) =~= seq!["*.orig"@, "*~"@]);
        match setting {
            Some(text) => {
                let mut more = split_whitespace(text);
                let ghost head = views(out@);
                let ghost tail = views(more@);
                out.append(&mut more);
                assert(views(out@) =~= head + tail);
            },
            None => {
                assert(views(out@) =~= views(out@) + Seq::<Seq<char>>::empty());
            },
        }
        out
    }

    /// Whether the file at `path` is passed over.
    pub fn skips(&self, patterns: &Vec<String>, path: &str) -> (r: bool)
        ensures
            r == is_skipped(views(patterns@), path@),
    {
        let mut i: usize = 0;
        while i < patterns.len()
            invariant
                i <= patterns.len(),
                forall|j: int|
                    0 <= j < i ==> !(glob_compiles(#[trigger] views(patterns@)[j]) && glob_matches(
                        views(patterns@)[j],
                        path@,
                    )),
            decreases patterns.len() - i,
        {
            assert(views(patterns@)[i as int] == patterns@[i as int]@);
            match glob_search(patterns[i].as_str(), path) {
                Some(true) => {
                    return true;
                },
                _ => {},
            }
            i += 1;
        }
        false
    }

    /// Whether a file that begins with `head` is a shell script that the
    /// check reads.
    pub fn is_shell_script(&self, head: &[u8]) -> (r: bool)
        ensures
            r == is_shell_head(head@),
    {
        let mark: [u8; 2] = [0x23u8, 0x21u8];
        let shell: [u8; 7] = [0x2fu8, 0x62u8, 0x69u8, 0x6eu8, 0x2fu8, 0x73u8, 0x68u8];
        assert(mark@ =~= hashbang());
        assert(shell@ =~= bin_sh());
        if !crate::bytes::matches_at(head, 0, mark.as_slice()) {
            return false;
        }
        let end = scan_to_byte(head, 0, 0x0au8);
        if !occurs_within(head, end, shell.as_slice()) {
            return false;
        }
        match inspect_content(head) {
            ContentKind::Utf8 => true,
            _ => false,
        }
    }
}

} // verus!
