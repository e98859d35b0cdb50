//! Searching character sequences for fixed patterns.
use vstd::prelude::*;
use crate::text::push_char;

verus! {

/// `pat` occurs in `s` starting at index `i`.
pub open spec fn occurs_at(s: Seq<char>, pat: Seq<char>, i: int) -> bool {
    0 <= i && i + pat.len() <= s.len() && s.subrange(i, i + pat.len()) == pat
}

/// `pat` occurs somewhere in `s`.
#[verifier::opaque]
pub open spec fn contains(s: Seq<char>, pat: Seq<char>) -> bool {
    exists|i: int| occurs_at(s, pat, i)
}

/// The first index at or after `from` where `pat` occurs in `s`.
pub open spec fn find_from(s: Seq<char>, pat: Seq<char>, from: int) -> Option<int>
    decreases s.len() + 1 - from,
{
    if from < 0 || from + pat.len() > s.len() {
        None
    } else if occurs_at(s, pat, from) {
        Some(from)
    } else {
        find_from(s, pat, from + 1)
    }
}

/// `find_from` returns an occurrence at or after `from`, and no earlier one after `from`;
/// it returns nothing only when there is no occurrence from `from` on.
pub proof fn lemma_find_from(s: Seq<char>, pat: Seq<char>, from: int)
    requires
        0 <= from,
    ensures
        find_from(s, pat, from) is Some ==> {
            let k = find_from(s, pat, from)->0;
            &&& from <= k
            &&& occurs_at(s, pat, k)
            &&& forall|j: int| from <= j < k ==> !occurs_at(s, pat, j)
        },
        find_from(s, pat, from) is None ==> forall|j: int| from <= j ==> !occurs_at(s, pat, j),
    decreases s.len() + 1 - from,
{
    if from + pat.len() <= s.len() && !occurs_at(s, pat, from) {
        lemma_find_from(s, pat, from + 1);
    }
}

/// Whether `pat` occurs in `s` at index `i`.
pub fn matches_at(s: &Vec<char>, pat: &Vec<char>, i: usize) -> (r: bool)
    ensures
        r == occurs_at(s@, pat@, i as int),
{
    if i > s.len() || pat.len() > s.len() - i {
        return false;
    }
    let m = pat.len();
    let n = s.len();
    for k in 0..m
        invariant
            n == s@.len(),
            m == pat@.len(),
            i + m <= s@.len(),
            forall|j: int| 0 <= j < k ==> s@[i + j] == pat@[j],
    {
        if s[i + k] != pat[k] {
            assert(s@.subrange(i as int, i + m)[k as int] != pat@[k as int]);
            return false;
        }
    }
    assert(s@.subrange(i as int, i + m) =~= pat@);
    true
}

/// The first index at or after `from` where `pat` occurs in `s`.
pub fn find(s: &Vec<char>, pat: &Vec<char>, from: usize) -> (r: Option<usize>)
    requires
        pat@.len() > 0,
    ensures
        r is Some ==> find_from(s@, pat@, from as int) == Some(r->0 as int),
        r is None ==> find_from(s@, pat@, from as int) is None,
{
    let mut i = from;
    while i < s.len() && pat.len() <= s.len() - i
        invariant
            from <= i,
            pat@.len() > 0,
            find_from(s@, pat@, from as int) == find_from(s@, pat@, i as int),
        decreases s@.len() - i,
    {
        if matches_at(s, pat, i) {
            return Some(i);
        }
        i = i + 1;
    }
    proof {
        if i < s@.len() {
            assert(i + pat@.len() > s@.len());
        }
    }
    None
}

/// Whether `pat` occurs anywhere in `s`.
pub fn contains_exec(s: &Vec<char>, pat: &Vec<char>) -> (r: bool)
    requires
        pat@.len() > 0,
    ensures
        r == contains(s@, pat@),
{
    proof {
        lemma_find_from(s@, pat@, 0);
        reveal(contains);
    }
    find(s, pat, 0).is_some()
}

/// The characters `s[a..b]` as a string.
pub fn string_of_range(s: &Vec<char>, a: usize, b: usize) -> (r: String)
    requires
        a <= b <= s@.len(),
    ensures
        r@ == s@.subrange(a as int, b as int),
{
    let mut r = String::new();
    for i in a..b
        invariant
            b <= s@.len(),
            r@ == s@.subrange(a as int, i as int),
    {
        push_char(&mut r, s[i]);
        assert(r@ =~= s@.subrange(a as int, i + 1));
    }
    assert(r@ =~= s@.subrange(a as int, b as int));
    r
}

} // verus!
