//! Strings as sequences of characters: what the scraping rules ask of a text.

use vstd::prelude::*;

verus! {

/// `needle` occurs in `hay` as a run of consecutive characters.
pub open spec fn has_substring(hay: Seq<char>, needle: Seq<char>) -> bool {
    exists|i: int| occurs_at(hay, needle, i)
}

/// `needle` stands in `hay` from position `i` on.
pub open spec fn occurs_at(hay: Seq<char>, needle: Seq<char>, i: int) -> bool {
    &&& 0 <= i
    &&& i + needle.len() <= hay.len()
    &&& hay.subrange(i, i + needle.len()) == needle
}

/// The text that a page gave, or the empty text where it gave none.
pub open spec fn text_or_empty(text: Option<String>) -> Seq<char> {
    match text {
        Some(t) => t@,
        None => Seq::empty(),
    }
}

/// The characters of `s`, in order.
fn to_chars(s: &str) -> (res: Vec<char>)
    ensures
        res@ == s@,
{
    broadcast use vstd::string::group_string_axioms;

    let mut out: Vec<char> = Vec::new();
    for c in it: s.chars()
        invariant
            it.seq() == s@,
            out@ == s@.take(it.index()),
    {
        out.push(c);
    }
    out
}

/// `std::string::String::push`: the text grows by the one character at its end.
#[verifier::external_body]
pub(crate) fn push_char(text: &mut String, c: char)
    ensures
        final(text)@ == old(text)@.push(c),
{
    text.push(c);
}

/// What `str::to_lowercase` makes of a text.
pub uninterp spec fn lowercase(s: Seq<char>) -> Seq<char>;

/// `str::to_lowercase`: the lowercase equivalent of the text, as Unicode
/// defines it. The result depends on the characters of the text alone.
#[verifier::external_body]
pub(crate) fn to_lowercase(s: &str) -> (res: String)
    ensures
        res@ == lowercase(s@),
{
    s.to_lowercase()
}

/// Whether `needle` stands in `hay` from position `start` on.
fn matches_at(hay: &Vec<char>, needle: &Vec<char>, start: usize) -> (res: bool)
    requires
        start + needle.len() <= hay.len(),
    ensures
        res == occurs_at(hay@, needle@, start as int),
{
    let mut k: usize = 0;
    while k < needle.len()
        invariant
            k <= needle.len(),
            start + needle.len() <= hay.len(),
            forall|j: int| 0 <= j < k ==> hay@[start + j] == needle@[j],
        decreases needle.len() - k,
    {
        if hay[start + k] != needle[k] {
            assert(hay@.subrange(start as int, start + needle.len())[k as int] != needle@[k as int]);
            return false;
        }
        k += 1;
    }
    assert(hay@.subrange(start as int, start + needle.len()) =~= needle@);
    true
}

/// Whether `needle` occurs in `hay`.
pub fn contains_text(hay: &str, needle: &str) -> (found: bool)
    ensures
        found == has_substring(hay@, needle@),
{
    let hay_chars = to_chars(hay);
    let needle_chars = to_chars(needle);
    let mut start: usize = 0;
    while hay_chars.len() - start >= needle_chars.len()
        invariant
            hay_chars@ == hay@,
            needle_chars@ == needle@,
            start <= hay_chars.len(),
            forall|i: int| 0 <= i < start ==> !occurs_at(hay@, needle@, i),
        decreases hay_chars.len() - start,
    {
        if matches_at(&hay_chars, &needle_chars, start) {
            return true;
        }
        assert(needle@.len() > 0) by {
            if needle@.len() == 0 {
                assert(hay@.subrange(start as int, start as int) =~= needle@);
            }
        }
        start += 1;
    }
    false
}

} // verus!
