//! Comparison of byte strings and of text, and lookup of the first
//! occurrence in a sequence.

use vstd::prelude::*;

verus! {

/// Whether two strings hold the same characters.
pub fn str_eq(a: &str, b: &str) -> (r: bool)
    ensures
        r == (a@ == b@),
{
    let x = a.to_owned();
    let y = b.to_owned();
    x == y
}

/// Whether two byte strings are equal.
pub fn bytes_eq(a: &[u8], b: &[u8]) -> (r: bool)
    ensures
        r == (a@ == b@),
{
    if a.len() != b.len() {
        return false;
    }
    let mut i: usize = 0;
    while i < a.len()
        invariant
            a@.len() == b@.len(),
            i <= a@.len(),
            a@.subrange(0, i as int) == b@.subrange(0, i as int),
        decreases a@.len() - i,
    {
        if a[i] != b[i] {
            assert(a@[i as int] != b@[i as int]);
            return false;
        }
        assert(a@.subrange(0, i + 1) =~= a@.subrange(0, i as int).push(a@[i as int]));
        assert(b@.subrange(0, i + 1) =~= b@.subrange(0, i as int).push(b@[i as int]));
        i = i + 1;
    }
    assert(a@ =~= a@.subrange(0, i as int));
    assert(b@ =~= b@.subrange(0, i as int));
    true
}

/// A copy of a byte vector.
pub fn copy_bytes(v: &Vec<u8>) -> (r: Vec<u8>)
    ensures
        r@ == v@,
{
    let r = v.clone();
    assert(r@ =~= v@);
    r
}

/// The bytes of a slice, in a vector of their own.
pub fn to_bytes(s: &[u8]) -> (r: Vec<u8>)
    ensures
        r@ == s@,
{
    let mut r: Vec<u8> = Vec::new();
    let mut i: usize = 0;
    while i < s.len()
        invariant
            i <= s@.len(),
            r@ == s@.subrange(0, i as int),
        decreases s@.len() - i,
    {
        r.push(s[i]);
        assert(r@ =~= s@.subrange(0, i + 1));
        i = i + 1;
    }
    assert(r@ =~= s@);
    r
}

/// The first index of `s` that holds `x`, if any.
pub open spec fn first_index_of<A>(s: Seq<A>, x: A) -> Option<int>
    decreases s.len(),
{
    if s.len() == 0 {
        None
    } else {
        match first_index_of(s.drop_last(), x) {
            Some(i) => Some(i),
            None => if s.last() == x {
                Some(s.len() - 1)
            } else {
                None
            },
        }
    }
}

pub proof fn lemma_first_index_of<A>(s: Seq<A>, x: A)
    ensures
        first_index_of(s, x) matches Some(i) ==> 0 <= i < s.len() && s[i] == x && forall|j: int|
            0 <= j < i ==> s[j] != x,
        first_index_of(s, x) is None ==> forall|j: int| 0 <= j < s.len() ==> s[j] != x,
    decreases s.len(),
{
    if s.len() > 0 {
        lemma_first_index_of(s.drop_last(), x);
        assert forall|j: int| 0 <= j < s.len() - 1 implies s.drop_last()[j] == s[j] by {}
    }
}

/// The views of a vector of byte strings.
pub open spec fn views(v: Seq<Vec<u8>>) -> Seq<Seq<u8>> {
    v.map_values(|b: Vec<u8>| b@)
}

/// The first position in `v` that holds `x`.
pub fn position_of(v: &Vec<Vec<u8>>, x: &[u8]) -> (r: Option<usize>)
    ensures
        r == (match first_index_of(views(v@), x@) {
            Some(i) => Some(i as usize),
            None => None::<usize>,
        }),
{
    let mut i: usize = 0;
    while i < v.len()
        invariant
            i <= v@.len(),
            first_index_of(views(v@).subrange(0, i as int), x@) is None,
        decreases v@.len() - i,
    {
        let ghost pre = views(v@).subrange(0, i as int);
        assert(views(v@).subrange(0, i + 1).drop_last() =~= pre);
        if bytes_eq(v[i].as_slice(), x) {
            proof {
                lemma_prefix_first(views(v@), x@, i as int);
            }
            return Some(i);
        }
        i = i + 1;
    }
    assert(views(v@).subrange(0, i as int) =~= views(v@));
    None
}

/// Where a prefix of `s` does not hold `x` and the next item does, that item is the first.
pub proof fn lemma_prefix_first<A>(s: Seq<A>, x: A, i: int)
    requires
        0 <= i < s.len(),
        first_index_of(s.subrange(0, i), x) is None,
        s[i] == x,
    ensures
        first_index_of(s, x) == Some(i),
{
    lemma_first_index_of(s.subrange(0, i), x);
    lemma_first_index_of(s, x);
    assert(s.subrange(0, i + 1).drop_last() =~= s.subrange(0, i));
    lemma_first_index_of(s.subrange(0, i + 1), x);
    lemma_first_index_of_prefix(s, x, i + 1);
}

/// A first match inside a prefix is the first match of the whole sequence.
pub proof fn lemma_first_index_of_prefix<A>(s: Seq<A>, x: A, n: int)
    requires
        0 <= n <= s.len(),
        first_index_of(s.subrange(0, n), x) is Some,
    ensures
        first_index_of(s, x) == first_index_of(s.subrange(0, n), x),
    decreases s.len() - n,
{
    if n < s.len() {
        assert(s.subrange(0, n + 1).drop_last() =~= s.subrange(0, n));
        lemma_first_index_of_prefix(s, x, n + 1);
    } else {
        assert(s.subrange(0, n) =~= s);
    }
}

} // verus!
