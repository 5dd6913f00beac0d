//! Character-level helpers shared by the parsers.

use vstd::prelude::*;
use vstd::slice::slice_subrange;

verus! {

/// The characters of `text`, in order.
pub fn chars_of(text: &str) -> (chars: Vec<char>)
    ensures
        chars@ == text@,
{
    let mut chars: Vec<char> = Vec::new();
    for c in it: text.chars()
        invariant
            chars@ == it.seq().take(it.index()),
            it.seq() == text@,
    {
        chars.push(c);
    }
    chars
}

/// `i` is the place of the first `c` in `text`.
pub open spec fn is_first(text: Seq<char>, c: char, i: int) -> bool {
    &&& 0 <= i < text.len()
    &&& text[i] == c
    &&& forall|k: int| 0 <= k < i ==> text[k] != c
}

/// The place of the first `c` in `text`, if `c` occurs there.
pub open spec fn first_index(text: Seq<char>, c: char) -> Option<int> {
    if exists|i: int| is_first(text, c, i) {
        Some(choose|i: int| is_first(text, c, i))
    } else {
        None
    }
}

/// A place that is the first of `c` is what `first_index` gives.
pub proof fn lemma_first_index_is(text: Seq<char>, c: char, i: int)
    requires
        is_first(text, c, i),
    ensures
        first_index(text, c) == Some(i),
{
    let j = choose|j: int| is_first(text, c, j);
    assert(is_first(text, c, j));
    if j < i {
        assert(text[j] != c);
    }
    if i < j {
        assert(text[i] != c);
    }
}

/// A text that holds `c` somewhere has a first place of it.
pub proof fn lemma_first_index_exists(text: Seq<char>, c: char, at: int)
    requires
        0 <= at < text.len(),
        text[at] == c,
    ensures
        first_index(text, c) is Some,
    decreases at,
{
    if exists|k: int| 0 <= k < at && text[k] == c {
        let k = choose|k: int| 0 <= k < at && text[k] == c;
        lemma_first_index_exists(text, c, k);
    } else {
        assert(is_first(text, c, at));
    }
}

/// A text without `c` has no first place of it.
pub proof fn lemma_first_index_none(text: Seq<char>, c: char)
    requires
        forall|k: int| 0 <= k < text.len() ==> text[k] != c,
    ensures
        first_index(text, c) is None,
{
}

/// Finds the first `c` in `text`.
pub fn find_first(text: &[char], c: char) -> (found: Option<usize>)
    ensures
        match found {
            Some(i) => i < text.len() && first_index(text@, c) == Some(i as int),
            None => first_index(text@, c) is None,
        },
{
    let mut i: usize = 0;
    while i < text.len()
        invariant
            i <= text.len(),
            forall|k: int| 0 <= k < i ==> text@[k] != c,
        decreases text.len() - i,
    {
        if text[i] == c {
            proof {
                lemma_first_index_is(text@, c, i as int);
            }
            return Some(i);
        }
        i += 1;
    }
    proof {
        lemma_first_index_none(text@, c);
    }
    None
}

/// Whether `c` is white space: the characters that Unicode gives the
/// property White_Space.
pub open spec fn is_space(c: char) -> bool {
    let n = c as u32;
    ||| 0x09 <= n <= 0x0d
    ||| n == 0x20
    ||| n == 0x85
    ||| n == 0xa0
    ||| n == 0x1680
    ||| 0x2000 <= n <= 0x200a
    ||| n == 0x2028
    ||| n == 0x2029
    ||| n == 0x202f
    ||| n == 0x205f
    ||| n == 0x3000
}

/// `text` without the white space at its start.
pub open spec fn trim_start(text: Seq<char>) -> Seq<char>
    decreases text.len(),
{
    if text.len() > 0 && is_space(text[0]) {
        trim_start(text.drop_first())
    } else {
        text
    }
}

/// `text` without the white space at its end.
pub open spec fn trim_end(text: Seq<char>) -> Seq<char>
    decreases text.len(),
{
    if text.len() > 0 && is_space(text.last()) {
        trim_end(text.drop_last())
    } else {
        text
    }
}

/// `text` without the white space at either end.
pub open spec fn trim(text: Seq<char>) -> Seq<char> {
    trim_end(trim_start(text))
}

/// Tells whether `c` is white space.
pub fn is_space_char(c: char) -> (space: bool)
    ensures
        space == is_space(c),
{
    let n: u32 = c as u32;
    (0x09 <= n && n <= 0x0d) || n == 0x20 || n == 0x85 || n == 0xa0 || n == 0x1680 || (0x2000 <= n
        && n <= 0x200a) || n == 0x2028 || n == 0x2029 || n == 0x202f || n == 0x205f || n == 0x3000
}

/// Cuts the white space off both ends of `text`.
pub fn trim_chars(text: &[char]) -> (inner: &[char])
    ensures
        inner@ == trim(text@),
{
    let mut from: usize = 0;
    assert(text@.skip(0) =~= text@);
    while from < text.len() && is_space_char(text[from])
        invariant
            from <= text.len(),
            trim_start(text@) == trim_start(text@.skip(from as int)),
        decreases text.len() - from,
    {
        proof {
            assert(text@.skip(from as int).drop_first() =~= text@.skip(from + 1));
        }
        from += 1;
    }
    let ghost rest = text@.skip(from as int);
    assert(trim_start(text@) == rest);
    let mut to: usize = text.len();
    assert(text@.subrange(from as int, to as int) =~= rest);
    while to > from && is_space_char(text[to - 1])
        invariant
            from <= to <= text.len(),
            rest == text@.skip(from as int),
            trim_end(rest) == trim_end(text@.subrange(from as int, to as int)),
        decreases to,
    {
        proof {
            assert(text@.subrange(from as int, to as int).drop_last() =~= text@.subrange(
                from as int,
                to - 1,
            ));
        }
        to -= 1;
    }
    slice_subrange(text, from, to)
}

} // verus!
