//! Small helpers on strings, stated over their views as sequences of characters.

use vstd::prelude::*;

verus! {

/// `c` stands at index `p` of `v` and nowhere else.
pub open spec fn sole_occurrence(v: Seq<char>, c: char, p: int) -> bool {
    &&& 0 <= p < v.len()
    &&& v[p] == c
    &&& forall|j: int| 0 <= j < v.len() && j != p ==> v[j] != c
}

/// `c` occurs exactly once in `v`.
pub open spec fn occurs_once(v: Seq<char>, c: char) -> bool {
    exists|p: int| sole_occurrence(v, c, p)
}

/// The index of the only `c` in `v` (meaningful where `occurs_once` holds).
pub open spec fn sole_position(v: Seq<char>, c: char) -> int {
    choose|p: int| sole_occurrence(v, c, p)
}

/// Two indices cannot both be the sole occurrence of a character.
pub proof fn lemma_sole_occurrence_unique(v: Seq<char>, c: char, p: int, q: int)
    requires
        sole_occurrence(v, c, p),
        sole_occurrence(v, c, q),
    ensures
        p == q,
{
}

/// The lowercase form of a string, as `str::to_lowercase` of the standard
/// library computes it (Unicode lowercase mapping, independent of any locale).
pub uninterp spec fn lowercase_of(s: Seq<char>) -> Seq<char>;

/// Calls `str::to_lowercase`. Nothing is proved of the mapping itself: the
/// contract only gives the outcome its name, `lowercase_of`.
#[verifier::external_body]
pub(crate) fn lowercase(s: &str) -> (r: String)
    ensures
        r@ == lowercase_of(s@),
{
    s.to_lowercase()
}

/// Whether two string slices hold the same characters.
pub fn str_eq(a: &str, b: &str) -> (r: bool)
    ensures
        r == (a@ == b@),
{
    let x = a.to_owned();
    let y = b.to_owned();
    x == y
}

/// Finds the position of `c` in `s` if `c` occurs there exactly once.
pub fn find_sole(s: &str, c: char) -> (r: Option<usize>)
    ensures
        match r {
            Some(p) => sole_occurrence(s@, c, p as int),
            None => !occurs_once(s@, c),
        },
{
    let n: usize = s.unicode_len();
    let mut found: Option<usize> = None;
    let mut i: usize = 0;
    while i < n
        invariant
            i <= n,
            n == s@.len(),
            match found {
                Some(p) => p < i && s@[p as int] == c && forall|j: int|
                    0 <= j < i && j != p ==> s@[j] != c,
                None => forall|j: int| 0 <= j < i ==> s@[j] != c,
            },
        decreases n - i,
    {
        if s.get_char(i) == c {
            match found {
                Some(p) => {
                    proof {
                        assert forall|q: int| !sole_occurrence(s@, c, q) by {
                            if sole_occurrence(s@, c, q) {
                                if q == p as int {
                                    assert(s@[i as int] == c);
                                } else {
                                    assert(s@[p as int] == c);
                                }
                            }
                        }
                    }
                    return None;
                },
                None => {
                    found = Some(i);
                },
            }
        }
        i = i + 1;
    }
    found
}

} // verus!
