//! Character-level helpers on strings: containment of one string in another.

use vstd::prelude::*;

verus! {

/// `needle` stands in `text` as a contiguous run that starts at position `at`.
pub open spec fn occurs_at(needle: Seq<char>, text: Seq<char>, at: int) -> bool {
    &&& 0 <= at
    &&& at + needle.len() <= text.len()
    &&& text.subrange(at, at + needle.len()) == needle
}

/// `needle` stands somewhere in `text` as a contiguous run of characters.
pub open spec fn occurs_in(needle: Seq<char>, text: Seq<char>) -> bool {
    exists|at: int| occurs_at(needle, text, at)
}

/// The characters of `text`, in order.
pub fn chars_of(text: &str) -> (chars: Vec<char>)
    ensures
        chars@ == text@,
{
    let mut chars: Vec<char> = Vec::new();
    let source = text.chars();
    for c in it: source
        invariant
            chars@ == it.seq().take(it.index()),
            it.seq() == text@,
    {
        chars.push(c);
    }
    chars
}

/// Whether `needle` begins at position `at` of `text`.
fn matches_at(text: &Vec<char>, needle: &Vec<char>, at: usize) -> (same: bool)
    requires
        at + needle.len() <= text.len(),
    ensures
        same == occurs_at(needle@, text@, at as int),
{
    let mut k: usize = 0;
    while k < needle.len()
        invariant
            k <= needle.len(),
            at + needle.len() <= text.len(),
            forall|j: int| 0 <= j < k ==> text@[at + j] == needle@[j],
        decreases needle.len() - k,
    {
        if text[at + k] != needle[k] {
            assert(text@.subrange(at as int, at + needle.len())[k as int] != needle@[k as int]);
            return false;
        }
        k += 1;
    }
    assert(text@.subrange(at as int, at + needle.len()) =~= needle@);
    true
}

/// Tells whether `needle` occurs in `text`. The empty string occurs in every
/// string.
pub fn contains(text: &str, needle: &str) -> (found: bool)
    ensures
        found == occurs_in(needle@, text@),
{
    let hay = chars_of(text);
    let run = chars_of(needle);
    if run.len() > hay.len() {
        return false;
    }
    let last: usize = hay.len() - run.len();
    let mut at: usize = 0;
    loop
        invariant
            at <= last,
            last == hay.len() - run.len(),
            hay@ == text@,
            run@ == needle@,
            forall|j: int| 0 <= j < at ==> !occurs_at(needle@, text@, j),
        decreases last - at,
    {
        if matches_at(&hay, &run, at) {
            return true;
        }
        if at == last {
            return false;
        }
        at += 1;
    }
}

} // verus!
