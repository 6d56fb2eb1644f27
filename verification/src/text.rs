//! Cutting text, seen as a sequence of characters.

use vstd::prelude::*;
use vstd::string::*;

verus! {

/// `needle` stands in `hay` at position `at`.
pub open spec fn occurs_at(hay: Seq<char>, needle: Seq<char>, at: int) -> bool {
    &&& 0 <= at
    &&& at + needle.len() <= hay.len()
    &&& hay.subrange(at, at + needle.len()) =~= needle
}

/// `text` with every occurrence of `pattern` cut out. Occurrences are taken
/// from left to right and do not overlap; an empty pattern cuts nothing.
pub open spec fn without(text: Seq<char>, pattern: Seq<char>) -> Seq<char>
    decreases text.len(),
{
    if pattern.len() == 0 || text.len() < pattern.len() {
        text
    } else if occurs_at(text, pattern, 0) {
        without(text.skip(pattern.len() as int), pattern)
    } else {
        seq![text[0]] + without(text.skip(1), pattern)
    }
}

/// The characters of `s`, in order.
pub fn chars_of(s: &str) -> (out: Vec<char>)
    ensures
        out@ == s@,
{
    let mut out: Vec<char> = Vec::new();
    for c in it: s.chars()
        invariant
            out@ == it.seq().take(it.index() as int),
            it.seq() == s@,
    {
        out.push(c);
    }
    out
}

/// Whether `needle` stands in `hay` at `at`.
pub fn occurs_here(hay: &Vec<char>, needle: &Vec<char>, at: usize) -> (found: bool)
    ensures
        found == occurs_at(hay@, needle@, at as int),
{
    if needle.len() > hay.len() || at > hay.len() - needle.len() {
        return false;
    }
    let mut k: usize = 0;
    while k < needle.len()
        invariant
            k <= needle.len(),
            at + needle.len() <= hay.len(),
            forall|j: int| 0 <= j < k ==> hay@[at + j] == needle@[j],
        decreases needle.len() - k,
    {
        if hay[at + k] != needle[k] {
            return false;
        }
        k += 1;
    }
    true
}

/// `text` with every occurrence of `pattern` cut out.
pub fn remove_all(text: &str, pattern: &str) -> (out: String)
    ensures
        out@ == without(text@, pattern@),
{
    let t = chars_of(text);
    let p = chars_of(pattern);
    if p.len() == 0 || t.len() < p.len() {
        return text.to_owned();
    }
    let mut out = String::new();
    let last: usize = t.len() - p.len();
    let mut kept: usize = 0;
    let mut pos: usize = 0;
    assert(t@.skip(0) =~= t@);
    while pos <= last
        invariant
            t@ == text@,
            p@ == pattern@,
            0 < p.len() <= t.len(),
            last == t.len() - p.len(),
            kept <= pos <= t.len(),
            without(t@, p@) == out@ + t@.subrange(kept as int, pos as int) + without(
                t@.skip(pos as int),
                p@,
            ),
        decreases t.len() - pos,
    {
        let ghost rest = t@.skip(pos as int);
        if occurs_here(&t, &p, pos) {
            out.append(text.substring_char(kept, pos));
            pos += p.len();
            kept = pos;
            assert(rest.skip(p@.len() as int) =~= t@.skip(pos as int));
        } else {
            pos += 1;
            assert(rest.skip(1) =~= t@.skip(pos as int));
        }
    }
    out.append(text.substring_char(kept, t.len()));
    out
}

} // verus!
