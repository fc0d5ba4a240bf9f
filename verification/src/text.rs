//! Searching and splitting text, seen as a sequence of characters.

use vstd::prelude::*;
use vstd::string::*;

verus! {

/// `pattern` stands in `text` at position `i`.
pub open spec fn occurs_at(text: Seq<char>, pattern: Seq<char>, i: int) -> bool {
    &&& 0 <= i
    &&& i + pattern.len() <= text.len()
    &&& text.subrange(i, i + pattern.len()) == pattern
}

/// `pattern` stands somewhere in `text`.
pub open spec fn contains(text: Seq<char>, pattern: Seq<char>) -> bool {
    exists|i: int| occurs_at(text, pattern, i)
}

/// `i` is the leftmost position at which `pattern` stands in `text`.
pub open spec fn first_at(text: Seq<char>, pattern: Seq<char>, i: int) -> bool {
    &&& occurs_at(text, pattern, i)
    &&& forall|j: int| 0 <= j < i ==> !occurs_at(text, pattern, j)
}

/// The leftmost position of `pattern` in `text`; meaningful where
/// `contains(text, pattern)`.
pub open spec fn first_index(text: Seq<char>, pattern: Seq<char>) -> int {
    choose|i: int| first_at(text, pattern, i)
}

/// What stands before and after the leftmost `pattern` in `text`, or `None`
/// where `text` holds no `pattern`.
pub open spec fn split_at_first(text: Seq<char>, pattern: Seq<char>) -> Option<
    (Seq<char>, Seq<char>),
> {
    if contains(text, pattern) {
        let i = first_index(text, pattern);
        Some((text.take(i), text.skip(i + pattern.len())))
    } else {
        None
    }
}

/// There is one leftmost position: whoever finds it has found `first_index`.
pub proof fn lemma_first_index_is(text: Seq<char>, pattern: Seq<char>, i: int)
    requires
        first_at(text, pattern, i),
    ensures
        contains(text, pattern),
        first_index(text, pattern) == i,
        split_at_first(text, pattern) == Some((text.take(i), text.skip(i + pattern.len()))),
{
    let k = first_index(text, pattern);
    assert(first_at(text, pattern, k));
    if k < i {
        assert(!occurs_at(text, pattern, k));
    }
    if i < k {
        assert(!occurs_at(text, pattern, i));
    }
}

/// A pattern that stands somewhere has a leftmost position.
pub proof fn lemma_contains_has_first(text: Seq<char>, pattern: Seq<char>)
    requires
        contains(text, pattern),
    ensures
        first_at(text, pattern, first_index(text, pattern)),
{
    let w = choose|i: int| occurs_at(text, pattern, i);
    lemma_first_below(text, pattern, w);
}

/// Below any position at which `pattern` stands there is a leftmost one.
proof fn lemma_first_below(text: Seq<char>, pattern: Seq<char>, w: int)
    requires
        occurs_at(text, pattern, w),
    ensures
        exists|i: int| first_at(text, pattern, i),
    decreases w,
{
    if exists|j: int| 0 <= j < w && occurs_at(text, pattern, j) {
        let j = choose|j: int| 0 <= j < w && occurs_at(text, pattern, j);
        lemma_first_below(text, pattern, j);
    } else {
        assert(first_at(text, pattern, w));
    }
}

/// The two parts of a split, with the pattern between them, are the text,
/// and the pattern stands nowhere earlier in it.
pub proof fn lemma_split_joins(text: Seq<char>, pattern: Seq<char>)
    requires
        contains(text, pattern),
    ensures
        split_at_first(text, pattern) matches Some((head, tail)) && text == head + pattern + tail
            && first_at(text, pattern, head.len() as int),
{
    lemma_contains_has_first(text, pattern);
    let i = first_index(text, pattern);
    assert(text =~= text.take(i) + text.subrange(i, i + pattern.len()) + text.skip(
        i + pattern.len(),
    ));
}

/// Text that comes after a split does not move it: the head stays, and the
/// tail grows by what came.
pub proof fn lemma_split_extends(text: Seq<char>, pattern: Seq<char>, more: Seq<char>)
    requires
        contains(text, pattern),
    ensures
        split_at_first(text, pattern) matches Some((head, tail)) && split_at_first(
            text + more,
            pattern,
        ) == Some((head, tail + more)),
{
    lemma_contains_has_first(text, pattern);
    let i = first_index(text, pattern);
    let longer = text + more;
    assert(longer.subrange(i, i + pattern.len()) =~= text.subrange(i, i + pattern.len()));
    assert forall|j: int| 0 <= j < i implies !occurs_at(longer, pattern, j) by {
        if occurs_at(longer, pattern, j) {
            assert(text.subrange(j, j + pattern.len()) =~= longer.subrange(j, j + pattern.len()));
            assert(occurs_at(text, pattern, j));
        }
    }
    lemma_first_index_is(longer, pattern, i);
    assert(longer.take(i) =~= text.take(i));
    assert(longer.skip(i + pattern.len()) =~= text.skip(i + pattern.len()) + more);
}

/// The bytes of a text of ASCII characters, one byte for each.
pub open spec fn ascii_bytes(text: Seq<char>) -> Seq<u8> {
    Seq::new(text.len(), |i: int| text[i] as u8)
}

/// The characters of `s`, one by one.
pub fn to_chars(s: &str) -> (r: Vec<char>)
    ensures
        r@ == s@,
{
    broadcast use axiom_spec_iter;

    let mut out: Vec<char> = Vec::new();
    for c in it: s.chars()
        invariant
            out@ == it.seq().take(it.index() as int),
            it.seq() == s@,
    {
        out.push(c);
    }
    out
}

/// Whether `pattern` stands in `text` at position `at`.
fn matches_at(text: &Vec<char>, pattern: &Vec<char>, at: usize) -> (r: bool)
    requires
        at + pattern.len() <= text.len(),
    ensures
        r == occurs_at(text@, pattern@, at as int),
{
    let mut k: usize = 0;
    while k < pattern.len()
        invariant
            k <= pattern.len(),
            at + pattern.len() <= text.len(),
            forall|j: int| 0 <= j < k ==> text@[at + j] == pattern@[j],
        decreases pattern.len() - k,
    {
        if text[at + k] != pattern[k] {
            proof {
                let window = text@.subrange(at as int, at + pattern.len());
                assert(window[k as int] == text@[at + k]);
            }
            return false;
        }
        k += 1;
    }
    assert(text@.subrange(at as int, at + pattern.len()) =~= pattern@);
    true
}

/// The leftmost position of `pattern` in `text`, if it stands there at all.
pub fn find_first(text: &Vec<char>, pattern: &Vec<char>) -> (r: Option<usize>)
    ensures
        r matches Some(i) ==> first_at(text@, pattern@, i as int),
        r is None <==> !contains(text@, pattern@),
{
    if pattern.len() > text.len() {
        return None;
    }
    let last: usize = text.len() - pattern.len();
    let mut i: usize = 0;
    loop
        invariant
            i <= last,
            last == text.len() - pattern.len(),
            forall|j: int| 0 <= j < i ==> !occurs_at(text@, pattern@, j),
        decreases last - i,
    {
        if matches_at(text, pattern, i) {
            return Some(i);
        }
        if i == last {
            return None;
        }
        i += 1;
    }
}

/// Splits `text` at the leftmost `delimiter`: what stands before it and what
/// stands after it, the delimiter itself left out. `None` where `text` holds
/// no `delimiter`.
pub fn split_first(text: &str, delimiter: &str) -> (r: Option<(String, String)>)
    ensures
        match r {
            Some((head, tail)) => split_at_first(text@, delimiter@) == Some((head@, tail@)),
            None => split_at_first(text@, delimiter@) is None,
        },
{
    let chars = to_chars(text);
    let pattern = to_chars(delimiter);
    match find_first(&chars, &pattern) {
        Some(i) => {
            proof {
                lemma_first_index_is(text@, delimiter@, i as int);
            }
            let end: usize = chars.len();
            let head = text.substring_char(0, i).to_owned();
            let tail = text.substring_char(i + pattern.len(), end).to_owned();
            Some((head, tail))
        },
        None => None,
    }
}

} // verus!
