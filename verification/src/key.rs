//! The shape of an issue key, and the search for one in a text.
//!
//! A key is two or more capital ASCII letters, a hyphen, and one or more
//! ASCII digits, as in `AB-123`.

use crate::case::{char_is_digit, char_is_upper, is_digit, is_upper};
use crate::text::{contains, occurs_at};
use vstd::prelude::*;

verus! {

/// `k` is a key whose hyphen stands at index `n`.
pub open spec fn key_split(k: Seq<char>, n: int) -> bool {
    &&& 2 <= n < k.len() - 1
    &&& k[n] == '-'
    &&& forall|j: int| 0 <= j < n ==> is_upper(#[trigger] k[j])
    &&& forall|j: int| n < j < k.len() ==> is_digit(#[trigger] k[j])
}

/// `k` is a key: capital letters, two at least, a hyphen, and digits, one at
/// least.
pub open spec fn is_key(k: Seq<char>) -> bool {
    exists|n: int| key_split(k, n)
}

/// A key stands in `s` from index `i` up to index `j`.
pub open spec fn key_at(s: Seq<char>, i: int, j: int) -> bool {
    0 <= i <= j <= s.len() && is_key(s.subrange(i, j))
}

/// A key stands somewhere in `s`.
pub open spec fn has_key(s: Seq<char>) -> bool {
    exists|i: int, j: int| key_at(s, i, j)
}

/// The key from `i` to `j` is the one that a search reports: no key begins
/// further left, and it takes every digit that follows.
pub open spec fn is_first_key(s: Seq<char>, i: int, j: int) -> bool {
    &&& key_at(s, i, j)
    &&& j < s.len() ==> !is_digit(s[j])
    &&& forall|a: int, b: int| 0 <= a < i ==> !#[trigger] key_at(s, a, b)
}

/// The first key in `s`, if `s` holds a key.
pub open spec fn first_key(s: Seq<char>) -> Option<Seq<char>> {
    if has_key(s) {
        let (i, j) = choose|i: int, j: int| is_first_key(s, i, j);
        Some(s.subrange(i, j))
    } else {
        None
    }
}

/// A key holds only capital letters, digits and a hyphen.
pub proof fn lemma_key_chars(k: Seq<char>)
    requires
        is_key(k),
    ensures
        k.len() >= 4,
        is_upper(k[0]),
        is_digit(k.last()),
        forall|i: int| 0 <= i < k.len() ==> is_upper(#[trigger] k[i]) || is_digit(k[i]) || k[i] == '-',
        forall|i: int| 0 <= i < k.len() - 1 && #[trigger] k[i] == '-' ==> is_digit(k[i + 1]),
{
    let n = choose|n: int| key_split(k, n);
    assert(is_upper(k[0]));
    assert(is_digit(k[k.len() - 1]));
    assert forall|i: int| 0 <= i < k.len() implies is_upper(#[trigger] k[i]) || is_digit(k[i])
        || k[i] == '-' by {
        if i < n {
            assert(is_upper(k[i]));
        } else if i > n {
            assert(is_digit(k[i]));
        }
    }
    assert forall|i: int| 0 <= i < k.len() - 1 && #[trigger] k[i] == '-' implies is_digit(
        k[i + 1],
    ) by {
        if i < n {
            assert(is_upper(k[i]));
        } else if i > n {
            assert(is_digit(k[i]));
        }
    }
}

/// Two keys that begin at the same index have their hyphen at the same
/// index.
proof fn lemma_same_hyphen(s: Seq<char>, i: int, j1: int, j2: int, n1: int, n2: int)
    requires
        0 <= i <= j1 <= s.len(),
        0 <= i <= j2 <= s.len(),
        key_split(s.subrange(i, j1), n1),
        key_split(s.subrange(i, j2), n2),
    ensures
        n1 == n2,
{
    let k1 = s.subrange(i, j1);
    let k2 = s.subrange(i, j2);
    if n1 < n2 {
        assert(k1[n1] == s[i + n1]);
        assert(is_upper(k2[n1]));
    } else if n2 < n1 {
        assert(k2[n2] == s[i + n2]);
        assert(is_upper(k1[n2]));
    }
}

/// At most one pair of indices is the first key of `s`.
pub proof fn lemma_first_key_unique(s: Seq<char>, i1: int, j1: int, i2: int, j2: int)
    requires
        is_first_key(s, i1, j1),
        is_first_key(s, i2, j2),
    ensures
        i1 == i2,
        j1 == j2,
{
    assert(i1 == i2) by {
        if i1 < i2 {
            assert(key_at(s, i1, j1));
        } else if i2 < i1 {
            assert(key_at(s, i2, j2));
        }
    }
    let k1 = s.subrange(i1, j1);
    let k2 = s.subrange(i1, j2);
    let n1 = choose|n: int| key_split(k1, n);
    let n2 = choose|n: int| key_split(k2, n);
    lemma_same_hyphen(s, i1, j1, j2, n1, n2);
    if j1 < j2 {
        assert(k2[j1 - i1] == s[j1]);
        assert(is_digit(k2[j1 - i1]));
    } else if j2 < j1 {
        assert(k1[j2 - i1] == s[j2]);
        assert(is_digit(k1[j2 - i1]));
    }
}

/// Where `(i, j)` is the first key of `s`, `first_key` is the text between.
pub proof fn lemma_first_key_is(s: Seq<char>, i: int, j: int)
    requires
        is_first_key(s, i, j),
    ensures
        first_key(s) == Some(s.subrange(i, j)),
{
    assert(key_at(s, i, j));
    let (a, b) = choose|a: int, b: int| is_first_key(s, a, b);
    lemma_first_key_unique(s, i, j, a, b);
}

/// What `first_key` finds is a key, and it stands in the text.
pub proof fn lemma_first_key_is_key(s: Seq<char>)
    requires
        first_key(s) is Some,
    ensures
        is_key(first_key(s)->Some_0),
        contains(s, first_key(s)->Some_0),
{
    let (i, j) = choose|i: int, j: int| key_at(s, i, j);
    lemma_first_key_exists(s, i, j);
    let (a, b) = choose|a: int, b: int| is_first_key(s, a, b);
    assert(key_at(s, a, b));
    assert(occurs_at(s, s.subrange(a, b), a));
}

/// Where a key stands somewhere in `s`, some pair is the first key of `s`.
pub proof fn lemma_first_key_exists(s: Seq<char>, i: int, j: int)
    requires
        key_at(s, i, j),
    ensures
        exists|a: int, b: int| is_first_key(s, a, b),
    decreases i,
{
    if exists|a: int, b: int| 0 <= a < i && key_at(s, a, b) {
        let (a, b) = choose|a: int, b: int| 0 <= a < i && key_at(s, a, b);
        lemma_first_key_exists(s, a, b);
    } else {
        lemma_extend_digits(s, i, j, s.len() as int);
        let b = choose|b: int| j <= b <= s.len() && key_at(s, i, b) && (b < s.len() ==> !is_digit(s[b]));
        assert forall|a: int, c: int| 0 <= a < i implies !#[trigger] key_at(s, a, c) by {}
        assert(is_first_key(s, i, b));
    }
}

/// A key can be extended over the digits that follow it.
proof fn lemma_extend_digits(s: Seq<char>, i: int, j: int, limit: int)
    requires
        key_at(s, i, j),
        limit == s.len(),
    ensures
        exists|b: int| j <= b <= s.len() && key_at(s, i, b) && (b < s.len() ==> !is_digit(s[b])),
    decreases limit - j,
{
    if j < s.len() && is_digit(s[j]) {
        let k = s.subrange(i, j);
        let n = choose|n: int| key_split(k, n);
        let k2 = s.subrange(i, j + 1);
        assert forall|q: int| 0 <= q < n implies is_upper(#[trigger] k2[q]) by {
            assert(k2[q] == k[q]);
        }
        assert forall|q: int| n < q < k2.len() implies is_digit(#[trigger] k2[q]) by {
            if q < k.len() {
                assert(k2[q] == k[q]);
            }
        }
        assert(k2[n] == k[n]);
        assert(key_split(k2, n));
        lemma_extend_digits(s, i, j + 1, limit);
    } else {
        assert(key_at(s, i, j) && (j < s.len() ==> !is_digit(s[j])));
    }
}

/// A key that is followed by nothing, or by a character that is no digit,
/// is the first key of the whole.
pub proof fn lemma_leading_key(k: Seq<char>, t: Seq<char>)
    requires
        is_key(k),
        t.len() > 0 ==> !is_digit(t[0]),
    ensures
        first_key(k + t) == Some(k),
{
    let s = k + t;
    assert(s.subrange(0, k.len() as int) =~= k);
    assert(key_at(s, 0, k.len() as int));
    if k.len() < s.len() {
        assert(s[k.len() as int] == t[0]);
    }
    assert(is_first_key(s, 0, k.len() as int));
    lemma_first_key_is(s, 0, k.len() as int);
}

/// Finds the first key in `s`: the indices at which it begins and ends.
pub fn find_key(s: &Vec<char>) -> (r: Option<(usize, usize)>)
    ensures
        match r {
            Some((i, j)) => is_first_key(s@, i as int, j as int),
            None => !has_key(s@),
        },
{
    let n = s.len();
    let mut i: usize = 0;
    while i < n
        invariant
            i <= n,
            n == s.len(),
            forall|a: int, b: int| 0 <= a < i ==> !#[trigger] key_at(s@, a, b),
        decreases n - i,
    {
        let mut h: usize = i;
        while h < n && char_is_upper(s[h])
            invariant
                i <= h <= n,
                n == s.len(),
                forall|q: int| i <= q < h ==> is_upper(#[trigger] s@[q]),
            decreases n - h,
        {
            h += 1;
        }
        let mut e: usize = h;
        if h - i >= 2 && h < n && s[h] == '-' {
            e = h + 1;
            while e < n && char_is_digit(s[e])
                invariant
                    h < e <= n,
                    n == s.len(),
                    forall|q: int| h < q < e ==> is_digit(#[trigger] s@[q]),
                decreases n - e,
            {
                e += 1;
            }
            if e > h + 1 {
                proof {
                    let k = s@.subrange(i as int, e as int);
                    assert forall|q: int| 0 <= q < h - i implies is_upper(#[trigger] k[q]) by {
                        assert(k[q] == s@[i + q]);
                    }
                    assert forall|q: int| h - i < q < k.len() implies is_digit(#[trigger] k[q]) by {
                        assert(k[q] == s@[i + q]);
                    }
                    assert(key_split(k, h - i));
                }
                return Some((i, e));
            }
        }
        proof {
            // No key begins in the run of capitals from `i`, nor behind it at `h`: its
            // hyphen would stand at `h`, and there the search has just failed.
            assert forall|a: int, b: int| i <= a <= h implies !#[trigger] key_at(s@, a, b) by {
                if key_at(s@, a, b) {
                    let k = s@.subrange(a, b);
                    let m = choose|m: int| key_split(k, m);
                    assert(k[m] == s@[a + m]);
                    assert(k[0] == s@[a]);
                    assert(is_upper(k[0]));
                    if a + m < h {
                        assert(is_upper(s@[a + m]));
                    } else if a + m > h {
                        assert(k[h - a] == s@[h as int]);
                        assert(is_upper(k[h - a]));
                    } else {
                        assert(k[m + 1] == s@[h + 1]);
                        assert(is_digit(k[m + 1]));
                        assert(k[m - 1] == s@[h - 1]);
                        assert(k[m - 2] == s@[h - 2]);
                    }
                }
            }
        }
        i = if h < n {
            h + 1
        } else {
            n
        };
    }
    assert forall|a: int, b: int| !key_at(s@, a, b) by {}
    None
}

} // verus!
