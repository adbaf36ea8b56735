//! Small verified helpers on strings, stated over their views as sequences of
//! characters.

use vstd::prelude::*;
use vstd::string::*;

verus! {

/// True when `c` occurs somewhere in `s`.
pub open spec fn has_char(s: Seq<char>, c: char) -> bool {
    exists|i: int| 0 <= i < s.len() && s[i] == c
}

/// True when `i` is the position of the first occurrence of `c` in `s`.
pub open spec fn is_first_index_of(s: Seq<char>, c: char, i: int) -> bool {
    &&& 0 <= i < s.len()
    &&& s[i] == c
    &&& forall|j: int| 0 <= j < i ==> s[j] != c
}

/// The position of the first occurrence of `c` in `s`; meaningful only where
/// `has_char(s, c)` holds.
pub open spec fn first_index_of(s: Seq<char>, c: char) -> int {
    choose|i: int| is_first_index_of(s, c, i)
}

/// The first occurrence is unique: any position that qualifies is the one
/// `first_index_of` names.
pub proof fn lemma_first_index_unique(s: Seq<char>, c: char, i: int)
    requires
        is_first_index_of(s, c, i),
    ensures
        has_char(s, c),
        first_index_of(s, c) == i,
{
    let k = first_index_of(s, c);
    assert(is_first_index_of(s, c, k));
    if k < i {
        assert(s[k] != c);
    } else if i < k {
        assert(s[i] != c);
    }
}

/// Where a character occurs at all, it has a first occurrence.
pub proof fn lemma_first_index_exists(s: Seq<char>, c: char)
    requires
        has_char(s, c),
    ensures
        is_first_index_of(s, c, first_index_of(s, c)),
    decreases s.len(),
{
    let w = choose|i: int| 0 <= i < s.len() && s[i] == c;
    lemma_least_witness(s, c, w);
}

proof fn lemma_least_witness(s: Seq<char>, c: char, w: int)
    requires
        0 <= w < s.len(),
        s[w] == c,
    ensures
        exists|i: int| is_first_index_of(s, c, i),
    decreases w,
{
    if exists|j: int| 0 <= j < w && s[j] == c {
        let j = choose|j: int| 0 <= j < w && s[j] == c;
        lemma_least_witness(s, c, j);
    } else {
        assert(is_first_index_of(s, c, w));
    }
}

/// Searches `s` for `c` from the front and returns the position of its first
/// occurrence, counted in characters.
pub fn find_char(s: &str, c: char) -> (r: Option<usize>)
    ensures
        r is Some <==> has_char(s@, c),
        r is Some ==> r->0 == first_index_of(s@, c) && is_first_index_of(s@, c, r->0 as int),
{
    let n: usize = s.unicode_len();
    let mut i: usize = 0;
    for ch in it: s.chars()
        invariant
            n == s@.len(),
            i == it.index(),
            it.seq() == s@,
            forall|j: int| 0 <= j < i ==> s@[j] != c,
    {
        if ch == c {
            proof {
                lemma_first_index_unique(s@, c, i as int);
            }
            return Some(i);
        }
        i += 1;
    }
    None
}

} // verus!
