//! Character-level text operations.
//!
//! Every function here works on a string's sequence of Unicode scalar values
//! (its view), never on its bytes, so an index is always a character index.

use vstd::prelude::*;

verus! {

/// The characters with the Unicode `White_Space` property.
pub open spec fn is_whitespace(c: char) -> bool {
    let n = c as u32;
    ||| 0x09 <= n <= 0x0D
    ||| n == 0x20
    ||| n == 0x85
    ||| n == 0xA0
    ||| n == 0x1680
    ||| 0x2000 <= n <= 0x200A
    ||| n == 0x2028
    ||| n == 0x2029
    ||| n == 0x202F
    ||| n == 0x205F
    ||| n == 0x3000
}

/// The ASCII capital letters.
pub open spec fn is_ascii_uppercase(c: char) -> bool {
    'A' <= c <= 'Z'
}

/// `pat` occurs in `s` starting at character index `at`.
pub open spec fn occurs_at(s: Seq<char>, at: int, pat: Seq<char>) -> bool {
    &&& 0 <= at
    &&& at + pat.len() <= s.len()
    &&& s.subrange(at, at + pat.len()) == pat
}

/// `pat` occurs somewhere in `s`.
pub open spec fn contains(s: Seq<char>, pat: Seq<char>) -> bool {
    exists|at: int| occurs_at(s, at, pat)
}

/// Whether `c` is white space.
pub fn char_is_whitespace(c: char) -> (r: bool)
    ensures
        r == is_whitespace(c),
{
    let n: u32 = c as u32;
    (0x09 <= n && n <= 0x0D) || n == 0x20 || n == 0x85 || n == 0xA0 || n == 0x1680 || (0x2000 <= n
        && n <= 0x200A) || n == 0x2028 || n == 0x2029 || n == 0x202F || n == 0x205F || n == 0x3000
}

/// Whether `c` is an ASCII capital letter.
pub fn char_is_ascii_uppercase(c: char) -> (r: bool)
    ensures
        r == is_ascii_uppercase(c),
{
    'A' <= c && c <= 'Z'
}

/// The characters of `s`, in order.
pub fn chars_of(s: &str) -> (out: Vec<char>)
    ensures
        out@ == s@,
{
    let mut out: Vec<char> = Vec::new();
    for c in it: s.chars()
        invariant
            out@ == it.seq().take(it.index() as int),
            it.seq() == s@,
    {
        out.push(c);
    }
    out
}

/// Whether `pat` occurs in `s` at index `at`.
pub fn matches_at(s: &Vec<char>, at: usize, pat: &Vec<char>) -> (r: bool)
    ensures
        r == occurs_at(s@, at as int, pat@),
{
    if at > s.len() || pat.len() > s.len() - at {
        return false;
    }
    let mut k: usize = 0;
    while k < pat.len()
        invariant
            at + pat.len() <= s.len(),
            k <= pat.len(),
            forall|j: int| 0 <= j < k ==> s@[at + j] == pat@[j],
        decreases pat.len() - k,
    {
        if s[at + k] != pat[k] {
            assert(s@.subrange(at as int, at + pat.len())[k as int] != pat@[k as int]);
            return false;
        }
        k += 1;
    }
    assert(s@.subrange(at as int, at + pat.len()) =~= pat@);
    true
}

/// Whether `s` begins with `pat`.
pub fn starts_with(s: &Vec<char>, pat: &Vec<char>) -> (r: bool)
    ensures
        r == pat@.is_prefix_of(s@),
{
    matches_at(s, 0, pat)
}

/// Whether `s` ends with `pat`.
pub fn ends_with(s: &Vec<char>, pat: &Vec<char>) -> (r: bool)
    ensures
        r == pat@.is_suffix_of(s@),
{
    if pat.len() > s.len() {
        return false;
    }
    matches_at(s, s.len() - pat.len(), pat)
}

/// The index of the first occurrence of `pat` in `s` at or after `from`.
pub fn find_from(s: &Vec<char>, from: usize, pat: &Vec<char>) -> (r: Option<usize>)
    ensures
        match r {
            Some(at) => from <= at && occurs_at(s@, at as int, pat@) && forall|j: int|
                from <= j < at ==> !occurs_at(s@, j, pat@),
            None => forall|j: int| from <= j ==> !occurs_at(s@, j, pat@),
        },
{
    let mut at: usize = from;
    while at < s.len()
        invariant
            from <= at,
            forall|j: int| from <= j < at ==> !occurs_at(s@, j, pat@),
        decreases s.len() - at,
    {
        if matches_at(s, at, pat) {
            return Some(at);
        }
        at += 1;
    }
    if matches_at(s, at, pat) {
        Some(at)
    } else {
        None
    }
}

/// Whether `pat` occurs anywhere in `s`.
pub fn has_infix(s: &Vec<char>, pat: &Vec<char>) -> (r: bool)
    ensures
        r == contains(s@, pat@),
{
    find_from(s, 0, pat).is_some()
}

/// The last index at or before `at` where `pat` occurs in `s`.
pub open spec fn last_at_or_before(s: Seq<char>, at: int, pat: Seq<char>) -> Option<int>
    decreases at + 1,
{
    if at < 0 {
        None
    } else if occurs_at(s, at, pat) {
        Some(at)
    } else {
        last_at_or_before(s, at - 1, pat)
    }
}

/// The index of the last occurrence of `pat` in `s`.
pub open spec fn rfind(s: Seq<char>, pat: Seq<char>) -> Option<int> {
    last_at_or_before(s, s.len() as int, pat)
}

/// `rfind` gives an occurrence that no other follows, and gives none only
/// where there is none.
pub proof fn lemma_rfind(s: Seq<char>, pat: Seq<char>)
    ensures
        match rfind(s, pat) {
            Some(at) => occurs_at(s, at, pat) && forall|j: int|
                at < j ==> !occurs_at(s, j, pat),
            None => !contains(s, pat),
        },
{
    lemma_last_at_or_before(s, s.len() as int, pat);
}

proof fn lemma_last_at_or_before(s: Seq<char>, at: int, pat: Seq<char>)
    ensures
        match last_at_or_before(s, at, pat) {
            Some(found) => found <= at && occurs_at(s, found, pat) && forall|j: int|
                found < j <= at ==> !occurs_at(s, j, pat),
            None => forall|j: int| j <= at ==> !occurs_at(s, j, pat),
        },
    decreases at + 1,
{
    if at >= 0 && !occurs_at(s, at, pat) {
        lemma_last_at_or_before(s, at - 1, pat);
    }
}

/// The index of the last occurrence of `pat` in `s`.
pub fn find_last(s: &Vec<char>, pat: &Vec<char>) -> (r: Option<usize>)
    ensures
        match r {
            Some(at) => rfind(s@, pat@) == Some(at as int),
            None => rfind(s@, pat@) is None,
        },
{
    let mut at: usize = s.len();
    loop
        invariant
            at <= s.len(),
            rfind(s@, pat@) == last_at_or_before(s@, at as int, pat@),
        decreases at,
    {
        if matches_at(s, at, pat) {
            return Some(at);
        }
        if at == 0 {
            assert(last_at_or_before(s@, -1, pat@) is None);
            return None;
        }
        at -= 1;
    }
}

/// `String::from_iter` over a slice of characters: the string made of those
/// characters, in order. Trusted to keep every character.
#[verifier::external_body]
fn collect(chars: &[char]) -> (out: String)
    ensures
        out@ == chars@,
{
    chars.iter().collect()
}

/// The string made of the characters of `s` from index `from` up to `to`.
pub fn string_of(s: &Vec<char>, from: usize, to: usize) -> (out: String)
    requires
        from <= to <= s.len(),
    ensures
        out@ == s@.subrange(from as int, to as int),
{
    collect(vstd::slice::slice_subrange(s.as_slice(), from, to))
}

/// The first index at or after `from` that holds `sep`, or the length of `s`
/// where no such index exists.
pub open spec fn until_char(s: Seq<char>, from: int, sep: char) -> int
    decreases s.len() - from,
{
    if from >= s.len() {
        s.len() as int
    } else if s[from] == sep {
        from
    } else {
        until_char(s, from + 1, sep)
    }
}

/// The first index at or after `from` that holds white space, or the length
/// of `s` where no such index exists.
pub open spec fn until_space(s: Seq<char>, from: int) -> int
    decreases s.len() - from,
{
    if from >= s.len() {
        s.len() as int
    } else if is_whitespace(s[from]) {
        from
    } else {
        until_space(s, from + 1)
    }
}

/// The fields of `s` from index `from` on, where `sep` ends a field. A
/// separator at the very end is followed by one more, empty field.
pub open spec fn fields_from(s: Seq<char>, from: int, sep: char) -> Seq<Seq<char>>
    decreases s.len() - from,
{
    let end = until_char(s, from, sep);
    if end >= s.len() || end < from {
        seq![s.subrange(from, s.len() as int)]
    } else {
        seq![s.subrange(from, end)] + fields_from(s, end + 1, sep)
    }
}

/// The fields of `s` between occurrences of `sep`. There is always at least
/// one, and there is one more than `s` holds separators.
pub open spec fn fields(s: Seq<char>, sep: char) -> Seq<Seq<char>> {
    fields_from(s, 0, sep)
}

/// The words of `s` from index `from` on.
pub open spec fn words_from(s: Seq<char>, from: int) -> Seq<Seq<char>>
    decreases s.len() - from,
{
    if from >= s.len() {
        Seq::empty()
    } else if is_whitespace(s[from]) {
        words_from(s, from + 1)
    } else {
        let end = until_space(s, from);
        if end <= from || end > s.len() {
            Seq::empty()
        } else {
            seq![s.subrange(from, end)] + words_from(s, end)
        }
    }
}

/// The maximal runs of characters of `s` that hold no white space, in order.
pub open spec fn words(s: Seq<char>) -> Seq<Seq<char>> {
    words_from(s, 0)
}

/// `line` without a carriage return at its end.
pub open spec fn without_cr(line: Seq<char>) -> Seq<char> {
    if line.len() > 0 && line.last() == '\r' {
        line.drop_last()
    } else {
        line
    }
}

/// The lines of `s` from index `from` on.
pub open spec fn lines_from(s: Seq<char>, from: int) -> Seq<Seq<char>>
    decreases s.len() - from,
{
    if from >= s.len() {
        Seq::empty()
    } else {
        let end = until_char(s, from, '\n');
        if end >= s.len() || end < from {
            seq![s.subrange(from, s.len() as int)]
        } else {
            seq![without_cr(s.subrange(from, end))] + lines_from(s, end + 1)
        }
    }
}

/// The lines of `s`. A line ends at a line feed, or at a carriage return
/// directly before one; what follows the last line feed is a line of its own
/// unless it is empty.
pub open spec fn lines(s: Seq<char>) -> Seq<Seq<char>> {
    lines_from(s, 0)
}

/// `until_space` lies between `from` and the length of `s`, holds white
/// space unless it is that length, and nothing before it does.
pub proof fn lemma_until_space_bounds(s: Seq<char>, from: int)
    requires
        0 <= from <= s.len(),
    ensures
        from <= until_space(s, from) <= s.len(),
        until_space(s, from) < s.len() ==> is_whitespace(s[until_space(s, from)]),
        forall|j: int| from <= j < until_space(s, from) ==> !is_whitespace(s[j]),
    decreases s.len() - from,
{
    if from < s.len() && !is_whitespace(s[from]) {
        lemma_until_space_bounds(s, from + 1);
    }
}

/// The index of the first `sep` at or after `from`, or the length of `s`.
pub fn scan_to_char(s: &Vec<char>, from: usize, sep: char) -> (end: usize)
    requires
        from <= s.len(),
    ensures
        end == until_char(s@, from as int, sep),
        from <= end <= s.len(),
{
    let mut end: usize = from;
    while end < s.len() && s[end] != sep
        invariant
            from <= end <= s.len(),
            until_char(s@, from as int, sep) == until_char(s@, end as int, sep),
        decreases s.len() - end,
    {
        end += 1;
    }
    end
}

/// The index of the first white space at or after `from`, or the length of
/// `s`.
pub fn scan_to_space(s: &Vec<char>, from: usize) -> (end: usize)
    requires
        from <= s.len(),
    ensures
        end == until_space(s@, from as int),
        from <= end <= s.len(),
{
    let mut end: usize = from;
    while end < s.len() && !char_is_whitespace(s[end])
        invariant
            from <= end <= s.len(),
            until_space(s@, from as int) == until_space(s@, end as int),
        decreases s.len() - end,
    {
        end += 1;
    }
    end
}

/// The views of a list of strings, in order.
pub open spec fn views(list: Seq<String>) -> Seq<Seq<char>> {
    list.map_values(|s: String| s@)
}

/// Splits `s` at every occurrence of `sep`.
pub fn split_on(s: &str, sep: char) -> (out: Vec<String>)
    ensures
        views(out@) == fields(s@, sep),
{
    let chars = chars_of(s);
    let mut out: Vec<String> = Vec::new();
    let mut from: usize = 0;
    loop
        invariant
            chars@ == s@,
            from <= chars.len(),
            fields(s@, sep) == views(out@) + fields_from(s@, from as int, sep),
        decreases chars.len() - from,
    {
        let end = scan_to_char(&chars, from, sep);
        let ghost before = views(out@);
        if end >= chars.len() {
            out.push(string_of(&chars, from, chars.len()));
            assert(views(out@) =~= before.push(s@.subrange(from as int, s@.len() as int)));
            assert(views(out@) =~= fields(s@, sep));
            return out;
        }
        out.push(string_of(&chars, from, end));
        assert(views(out@) =~= before.push(s@.subrange(from as int, end as int)));
        from = end + 1;
        assert(fields(s@, sep) =~= views(out@) + fields_from(s@, from as int, sep));
    }
}

/// Splits `s` into its words.
pub fn split_whitespace(s: &str) -> (out: Vec<String>)
    ensures
        views(out@) == words(s@),
{
    let chars = chars_of(s);
    let mut out: Vec<String> = Vec::new();
    let mut from: usize = 0;
    while from < chars.len()
        invariant
            chars@ == s@,
            from <= chars.len(),
            words(s@) == views(out@) + words_from(s@, from as int),
        decreases chars.len() - from,
    {
        if char_is_whitespace(chars[from]) {
            from += 1;
        } else {
            let end = scan_to_space(&chars, from);
            let ghost before = views(out@);
            out.push(string_of(&chars, from, end));
            assert(views(out@) =~= before.push(s@.subrange(from as int, end as int)));
            assert(words(s@) =~= views(out@) + words_from(s@, end as int)) by {
                lemma_until_space_bounds(s@, from as int);
                assert(words_from(s@, from as int) == seq![s@.subrange(from as int, end as int)]
                    + words_from(s@, end as int));
            }
            from = end;
        }
    }
    assert(views(out@) =~= words(s@));
    out
}

/// Splits `s` into its lines.
pub fn split_lines(s: &str) -> (out: Vec<String>)
    ensures
        views(out@) == lines(s@),
{
    let chars = chars_of(s);
    let mut out: Vec<String> = Vec::new();
    let mut from: usize = 0;
    while from < chars.len()
        invariant
            chars@ == s@,
            from <= chars.len(),
            lines(s@) == views(out@) + lines_from(s@, from as int),
        decreases chars.len() - from,
    {
        let end = scan_to_char(&chars, from, '\n');
        let ghost before = views(out@);
        if end >= chars.len() {
            out.push(string_of(&chars, from, chars.len()));
            assert(views(out@) =~= before.push(s@.subrange(from as int, s@.len() as int)));
            assert(views(out@) =~= lines(s@)) by {
                assert(lines_from(s@, s@.len() as int) =~= Seq::<Seq<char>>::empty());
            }
            return out;
        }
        let stop: usize = if end > from && chars[end - 1] == '\r' {
            end - 1
        } else {
            end
        };
        out.push(string_of(&chars, from, stop));
        assert(s@.subrange(from as int, stop as int) =~= without_cr(
            s@.subrange(from as int, end as int),
        ));
        assert(views(out@) =~= before.push(without_cr(s@.subrange(from as int, end as int))));
        from = end + 1;
        assert(lines(s@) =~= views(out@) + lines_from(s@, from as int));
    }
    assert(views(out@) =~= lines(s@));
    out
}


/// The first index at or after `from` that holds no white space, or the
/// length of `s` where no such index exists.
pub open spec fn past_spaces(s: Seq<char>, from: int) -> int
    decreases s.len() - from,
{
    if from >= s.len() {
        s.len() as int
    } else if !is_whitespace(s[from]) {
        from
    } else {
        past_spaces(s, from + 1)
    }
}

/// The index just behind the last character before `to` that is no white
/// space, or 0 where there is none.
pub open spec fn content_end(s: Seq<char>, to: int) -> int
    decreases to,
{
    if to <= 0 {
        0
    } else if !is_whitespace(s[to - 1]) {
        to
    } else {
        content_end(s, to - 1)
    }
}

/// `s` without the white space at its start and at its end.
pub open spec fn trimmed(s: Seq<char>) -> Seq<char> {
    let from = past_spaces(s, 0);
    let to = content_end(s, s.len() as int);
    if from >= to {
        Seq::empty()
    } else {
        s.subrange(from, to)
    }
}

/// The bounds of `s` without the white space at its start and at its end.
pub fn trim_bounds(s: &Vec<char>) -> (r: (usize, usize))
    ensures
        r.0 <= r.1 <= s.len(),
        s@.subrange(r.0 as int, r.1 as int) == trimmed(s@),
{
    let mut from: usize = 0;
    while from < s.len() && char_is_whitespace(s[from])
        invariant
            from <= s.len(),
            past_spaces(s@, 0) == past_spaces(s@, from as int),
        decreases s.len() - from,
    {
        from += 1;
    }
    let mut to: usize = s.len();
    while to > 0 && char_is_whitespace(s[to - 1])
        invariant
            to <= s.len(),
            content_end(s@, s@.len() as int) == content_end(s@, to as int),
        decreases to,
    {
        to -= 1;
    }
    if from >= to {
        assert(s@.subrange(from as int, from as int) =~= Seq::<char>::empty());
        (from, from)
    } else {
        (from, to)
    }
}

/// `s` without the white space at its start and at its end.
pub fn trim(s: &str) -> (out: String)
    ensures
        out@ == trimmed(s@),
{
    let chars = chars_of(s);
    let (from, to) = trim_bounds(&chars);
    string_of(&chars, from, to)
}

} // verus!
