//! Sets of strings kept as strictly increasing vectors.

use vstd::prelude::*;
use vstd::string::StringExecFns;
use crate::text::{
    compare_str, lemma_str_lt_irreflexive, lemma_str_lt_transitive, str_lt, strictly_sorted,
    TextOrder,
};

verus! {

/// `s` lists the members of `set`, each once, in increasing order.
pub open spec fn lists(s: Seq<Seq<char>>, set: Set<Seq<char>>) -> bool {
    &&& strictly_sorted(s)
    &&& forall|x: Seq<char>| set.contains(x) <==> s.contains(x)
}

/// There is one listing of a set at most.
pub proof fn lemma_listing_unique(s: Seq<Seq<char>>, t: Seq<Seq<char>>, set: Set<Seq<char>>)
    requires
        lists(s, set),
        lists(t, set),
    ensures
        s == t,
{
    crate::text::lemma_strictly_sorted_unique(s, t);
}

/// Putting `x` between what is below it and what is above it keeps the
/// order, and adds `x` and nothing else.
pub proof fn lemma_insert_sorted(s: Seq<Seq<char>>, i: int, x: Seq<char>)
    requires
        strictly_sorted(s),
        0 <= i <= s.len(),
        forall|k: int| 0 <= k < i ==> str_lt(#[trigger] s[k], x),
        i < s.len() ==> str_lt(x, s[i]),
    ensures
        strictly_sorted(s.insert(i, x)),
        forall|y: Seq<char>| s.insert(i, x).contains(y) <==> (s.contains(y) || y == x),
{
    let t = s.insert(i, x);
    assert forall|a: int, b: int| 0 <= a < b < t.len() implies str_lt(
        #[trigger] t[a],
        #[trigger] t[b],
    ) by {
        if b < i {
            assert(str_lt(s[a], s[b]));
        } else if b == i {
            assert(str_lt(s[a], x));
        } else if a == i {
            if b - 1 > i {
                assert(str_lt(s[i], s[b - 1]));
                lemma_str_lt_transitive(x, s[i], s[b - 1]);
            }
        } else if a < i {
            assert(str_lt(s[a], s[b - 1]));
        } else {
            assert(str_lt(s[a - 1], s[b - 1]));
        }
    }
    assert forall|y: Seq<char>| t.contains(y) <==> (s.contains(y) || y == x) by {
        if t.contains(y) {
            let k = choose|k: int| 0 <= k < t.len() && t[k] == y;
            if k < i {
                assert(s[k] == y);
            } else if k > i {
                assert(s[k - 1] == y);
            }
        }
        if s.contains(y) {
            let k = choose|k: int| 0 <= k < s.len() && s[k] == y;
            if k < i {
                assert(t[k] == y);
            } else {
                assert(t[k + 1] == y);
            }
        }
        if y == x {
            assert(t[i] == y);
        }
    }
}

/// In an ordered list, what stands between a smaller and a larger neighbour
/// is not a member.
pub proof fn lemma_absent_sorted(s: Seq<Seq<char>>, i: int, x: Seq<char>)
    requires
        strictly_sorted(s),
        0 <= i <= s.len(),
        forall|k: int| 0 <= k < i ==> str_lt(#[trigger] s[k], x),
        i < s.len() ==> str_lt(x, s[i]),
    ensures
        !s.contains(x),
{
    if s.contains(x) {
        let k = choose|k: int| 0 <= k < s.len() && s[k] == x;
        if k < i {
            assert(str_lt(s[k], x));
        } else if k > i {
            assert(str_lt(s[i], s[k]));
            lemma_str_lt_transitive(x, s[i], x);
        }
        lemma_str_lt_irreflexive(x);
    }
}

/// Finds where `s` stands in `v`: the number of members below it, and
/// whether `s` itself is a member.
pub fn position_sorted(v: &Vec<String>, s: &str) -> (r: (usize, bool))
    requires
        strictly_sorted(v.deep_view()),
    ensures
        r.0 <= v.len(),
        forall|k: int| 0 <= k < r.0 ==> str_lt(#[trigger] v.deep_view()[k], s@),
        r.1 ==> r.0 < v.len() && v.deep_view()[r.0 as int] == s@,
        !r.1 && r.0 < v.len() ==> str_lt(s@, v.deep_view()[r.0 as int]),
        r.1 == v.deep_view().contains(s@),
{
    let mut i: usize = 0;
    while i < v.len()
        invariant
            i <= v.len(),
            strictly_sorted(v.deep_view()),
            forall|k: int| 0 <= k < i ==> str_lt(#[trigger] v.deep_view()[k], s@),
        decreases v.len() - i,
    {
        assert(v.deep_view()[i as int] == v@[i as int]@);
        match compare_str(v[i].as_str(), s) {
            TextOrder::Less => {},
            TextOrder::Equal => {
                return (i, true);
            },
            TextOrder::Greater => {
                proof {
                    lemma_absent_sorted(v.deep_view(), i as int, s@);
                }
                return (i, false);
            },
        }
        i += 1;
    }
    proof {
        lemma_absent_sorted(v.deep_view(), i as int, s@);
    }
    (i, false)
}

/// Whether `s` is a member of `v`.
pub fn contains_sorted(v: &Vec<String>, s: &str) -> (r: bool)
    requires
        strictly_sorted(v.deep_view()),
    ensures
        r == v.deep_view().contains(s@),
{
    position_sorted(v, s).1
}

/// Makes `s` a member of `v`, at its place in the order.
pub fn insert_sorted(v: &mut Vec<String>, s: &str)
    requires
        strictly_sorted(old(v).deep_view()),
    ensures
        strictly_sorted(final(v).deep_view()),
        forall|y: Seq<char>|
            final(v).deep_view().contains(y) <==> (old(v).deep_view().contains(y) || y == s@),
{
    let (i, found) = position_sorted(v, s);
    if !found {
        let ghost before = v.deep_view();
        v.insert(i, String::from_str(s));
        proof {
            assert(v.deep_view() =~= before.insert(i as int, s@));
            lemma_insert_sorted(before, i as int, s@);
        }
    }
}

} // verus!
