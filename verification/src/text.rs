//! Text as a sequence of characters: reading it from bytes, finding a character, splitting
//! at a separator, and looking for a piece of text inside another.

use vstd::prelude::*;
use vstd::utf8::{decode_utf8, valid_utf8};

verus! {

/// Calls `std::str::from_utf8`. Rust's documentation says that it succeeds exactly on
/// well-formed UTF-8 and then gives the bytes back as text; the contract states this over
/// vstd's model of UTF-8: the text holds the characters that the bytes encode.
#[verifier::external_body]
pub(crate) fn str_from_utf8(bytes: &[u8]) -> (r: Option<&str>)
    ensures
        r is Some <==> valid_utf8(bytes@),
        r matches Some(text) ==> text@ == decode_utf8(bytes@),
{
    match std::str::from_utf8(bytes) {
        Ok(text) => Some(text),
        Err(_) => None,
    }
}

/// The characters of `text`, one by one.
pub fn to_chars(text: &str) -> (r: Vec<char>)
    ensures
        r@ == text@,
{
    let mut chars: Vec<char> = Vec::new();
    for c in it: text.chars()
        invariant
            it.seq() == text@,
            chars@ == it.seq().take(it.index()),
    {
        chars.push(c);
    }
    chars
}

/// The pieces into which the separator cuts `text`. A text without the separator is one
/// piece; a separator at either end, or two in a row, leave an empty piece there.
pub open spec fn split(text: Seq<char>, sep: char) -> Seq<Seq<char>>
    decreases text.len(),
{
    match text.index_of_first(sep) {
        None => seq![text],
        Some(i) => {
            proof {
                text.index_of_first_ensures(sep);
            }
            seq![text.take(i)] + split(text.skip(i + 1), sep)
        },
    }
}

/// `k` is where `c` first occurs in `text`, or `k` is the length of a `text` without `c`.
pub proof fn lemma_index_of_first(text: Seq<char>, c: char, k: int)
    requires
        0 <= k <= text.len(),
        forall|j: int| 0 <= j < k ==> text[j] != c,
        k < text.len() ==> text[k] == c,
    ensures
        k < text.len() ==> text.index_of_first(c) == Some(k),
        k == text.len() ==> text.index_of_first(c) is None,
{
    text.index_of_first_ensures(c);
    if k < text.len() {
        assert(text.contains(c));
    }
}

/// Splitting two texts that a separator joins gives the pieces of the first, then those of
/// the second.
pub proof fn lemma_split_joined(a: Seq<char>, b: Seq<char>, sep: char)
    ensures
        split(a + seq![sep] + b, sep) == split(a, sep) + split(b, sep),
    decreases a.len(),
{
    let joined = a + seq![sep] + b;
    a.index_of_first_ensures(sep);
    match a.index_of_first(sep) {
        None => {
            assert forall|j: int| 0 <= j < a.len() implies joined[j] != sep by {
                assert(joined[j] == a[j]);
                assert(!a.contains(sep));
            }
            lemma_index_of_first(joined, sep, a.len() as int);
            assert(joined.take(a.len() as int) =~= a);
            assert(joined.skip(a.len() as int + 1) =~= b);
        },
        Some(i) => {
            assert forall|j: int| 0 <= j < i implies joined[j] != sep by {
                assert(joined[j] == a[j]);
            }
            assert(joined[i] == a[i]);
            lemma_index_of_first(joined, sep, i);
            assert(joined.take(i) =~= a.take(i));
            assert(joined.skip(i + 1) =~= a.skip(i + 1) + seq![sep] + b);
            lemma_split_joined(a.skip(i + 1), b, sep);
            assert(seq![a.take(i)] + (split(a.skip(i + 1), sep) + split(b, sep)) =~= (seq![
                a.take(i),
            ] + split(a.skip(i + 1), sep)) + split(b, sep));
        },
    }
}

/// The first position of `c` in `chars[from..to]`, or `to` where it does not occur there.
pub fn find_char(chars: &Vec<char>, from: usize, to: usize, c: char) -> (r: usize)
    requires
        from <= to <= chars.len(),
    ensures
        from <= r <= to,
        r < to ==> chars@.subrange(from as int, to as int).index_of_first(c) == Some(r - from),
        r == to ==> chars@.subrange(from as int, to as int).index_of_first(c) is None,
{
    let mut i: usize = from;
    while i < to && chars[i] != c
        invariant
            from <= i <= to <= chars.len(),
            forall|j: int| from <= j < i ==> chars[j] != c,
        decreases to - i,
    {
        i += 1;
    }
    proof {
        lemma_index_of_first(chars@.subrange(from as int, to as int), c, i - from);
    }
    i
}

/// `pattern` occurs in `text` as a run of consecutive characters.
pub open spec fn contains(text: Seq<char>, pattern: Seq<char>) -> bool {
    exists|i: int| occurs_at(text, pattern, i)
}

/// `pattern` stands in `text` from position `i` on.
pub open spec fn occurs_at(text: Seq<char>, pattern: Seq<char>, i: int) -> bool {
    0 <= i && i + pattern.len() <= text.len() && text.subrange(i, i + pattern.len()) == pattern
}

fn matches_at(text: &Vec<char>, pattern: &Vec<char>, i: usize) -> (r: bool)
    requires
        i + pattern.len() <= text.len(),
    ensures
        r == occurs_at(text@, pattern@, i as int),
{
    let mut j: usize = 0;
    while j < pattern.len()
        invariant
            j <= pattern.len(),
            i + pattern.len() <= text.len(),
            forall|k: int| 0 <= k < j ==> text[i + k] == pattern[k],
        decreases pattern.len() - j,
    {
        if text[i + j] != pattern[j] {
            assert(text@.subrange(i as int, i + pattern.len())[j as int] != pattern[j as int]);
            return false;
        }
        j += 1;
    }
    assert(text@.subrange(i as int, i + pattern.len()) =~= pattern@);
    true
}

/// Whether `pattern` occurs in `text`: exact, case-sensitive, nothing normalised.
pub fn str_contains(text: &str, pattern: &str) -> (r: bool)
    ensures
        r == contains(text@, pattern@),
{
    let haystack = to_chars(text);
    let needle = to_chars(pattern);
    if needle.len() > haystack.len() {
        return false;
    }
    let last: usize = haystack.len() - needle.len();
    let mut i: usize = 0;
    loop
        invariant
            i <= last,
            last + needle.len() == haystack.len(),
            haystack@ == text@,
            needle@ == pattern@,
            forall|k: int| 0 <= k < i ==> !occurs_at(text@, pattern@, k),
        decreases last - i,
    {
        if matches_at(&haystack, &needle, i) {
            return true;
        }
        if i == last {
            return false;
        }
        i += 1;
    }
}

} // verus!
