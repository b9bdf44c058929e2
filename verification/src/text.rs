//! Small verified helpers for working with strings character by
//! character: equality, searching for a character, and counting its
//! occurrences.

use vstd::prelude::*;

verus! {

/// How many times `c` occurs in `s`.
pub open spec fn char_count(s: Seq<char>, c: char) -> nat
    decreases s.len(),
{
    if s.len() == 0 {
        0
    } else {
        char_count(s.drop_last(), c) + if s.last() == c {
            1nat
        } else {
            0nat
        }
    }
}

proof fn lemma_char_count_take_step(s: Seq<char>, c: char, i: int)
    requires
        0 <= i < s.len(),
    ensures
        char_count(s.take(i + 1), c) == char_count(s.take(i), c) + if s[i] == c {
            1nat
        } else {
            0nat
        },
{
    assert(s.take(i + 1).drop_last() =~= s.take(i));
    assert(s.take(i + 1).last() == s[i]);
}

/// A sequence with no occurrence of `c` has count zero.
proof fn lemma_char_count_zero(s: Seq<char>, c: char)
    requires
        forall|j: int| 0 <= j < s.len() ==> s[j] != c,
    ensures
        char_count(s, c) == 0,
    decreases s.len(),
{
    if s.len() > 0 {
        lemma_char_count_zero(s.drop_last(), c);
    }
}

/// Two distinct occurrences of `c` force a count of at least two.
proof fn lemma_char_count_two(s: Seq<char>, c: char, i: int, j: int)
    requires
        0 <= i < j < s.len(),
        s[i] == c,
        s[j] == c,
    ensures
        char_count(s, c) >= 2,
    decreases s.len(),
{
    if j == s.len() - 1 {
        lemma_char_count_at_least_one(s.drop_last(), c, i);
    } else {
        lemma_char_count_two(s.drop_last(), c, i, j);
    }
}

/// One occurrence of `c` forces a count of at least one.
proof fn lemma_char_count_at_least_one(s: Seq<char>, c: char, i: int)
    requires
        0 <= i < s.len(),
        s[i] == c,
    ensures
        char_count(s, c) >= 1,
    decreases s.len(),
{
    if i < s.len() - 1 {
        lemma_char_count_at_least_one(s.drop_last(), c, i);
    }
}

/// Character-for-character string equality, proved against the views.
pub fn str_eq(a: &str, b: &str) -> (r: bool)
    ensures
        r == (a@ == b@),
{
    let a_len = a.unicode_len();
    let b_len = b.unicode_len();
    if a_len != b_len {
        return false;
    }
    for i in 0..a_len
        invariant
            a_len == a@.len(),
            b_len == b@.len(),
            a_len == b_len,
            forall|j: int| 0 <= j < i ==> a@[j] == b@[j],
    {
        if a.get_char(i) != b.get_char(i) {
            return false;
        }
    }
    proof {
        assert(a@ =~= b@);
    }
    true
}

/// The index of the first occurrence of `c` in `s`, if any.
pub fn find_char(s: &str, c: char) -> (r: Option<usize>)
    ensures
        match r {
            Some(i) => i < s@.len() && s@[i as int] == c && forall|j: int|
                0 <= j < i ==> s@[j] != c,
            None => forall|j: int| 0 <= j < s@.len() ==> s@[j] != c,
        },
{
    let len = s.unicode_len();
    for i in 0..len
        invariant
            len == s@.len(),
            forall|j: int| 0 <= j < i ==> s@[j] != c,
    {
        if s.get_char(i) == c {
            return Some(i);
        }
    }
    None
}

/// The number of occurrences of `c` in `s`.
pub fn count_char(s: &str, c: char) -> (r: usize)
    ensures
        r == char_count(s@, c),
{
    let len = s.unicode_len();
    let mut count: usize = 0;
    for i in 0..len
        invariant
            len == s@.len(),
            count <= i,
            count == char_count(s@.take(i as int), c),
    {
        proof {
            lemma_char_count_take_step(s@, c, i as int);
        }
        if s.get_char(i) == c {
            count = count + 1;
        }
    }
    proof {
        assert(s@.take(len as int) =~= s@);
    }
    count
}

/// With exactly one occurrence of `c` in `s`, an index holding `c` is
/// the only one.
pub proof fn lemma_single_occurrence(s: Seq<char>, c: char, i: int, j: int)
    requires
        char_count(s, c) == 1,
        0 <= i < s.len(),
        0 <= j < s.len(),
        s[i] == c,
        s[j] == c,
    ensures
        i == j,
{
    if i < j {
        lemma_char_count_two(s, c, i, j);
    } else if j < i {
        lemma_char_count_two(s, c, j, i);
    }
}

/// A sequence in which no index holds `c` has no occurrence of `c`.
pub proof fn lemma_no_occurrence(s: Seq<char>, c: char)
    requires
        forall|j: int| 0 <= j < s.len() ==> s[j] != c,
    ensures
        char_count(s, c) == 0,
{
    lemma_char_count_zero(s, c);
}

} // verus!
