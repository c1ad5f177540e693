//! An ordered set of names: strictly ascending, so nothing occurs twice.

use vstd::prelude::*;
use crate::text::{lex_lt, rank_chars, chars_of, Rank};

verus! {

/// The names that a list of strings holds, in order.
pub open spec fn names_view(v: Seq<String>) -> Seq<Seq<char>> {
    Seq::new(v.len(), |i: int| v[i]@)
}

/// Each name stands before all that follow it.
pub open spec fn strictly_sorted(s: Seq<Seq<char>>) -> bool {
    forall|i: int, j: int| 0 <= i < j < s.len() ==> lex_lt(#[trigger] s[i], #[trigger] s[j])
}

/// No string stands before itself.
pub proof fn lemma_lex_irreflexive(a: Seq<char>)
    ensures
        !lex_lt(a, a),
    decreases a.len(),
{
    if a.len() > 0 {
        lemma_lex_irreflexive(a.drop_first());
    }
}

/// What stands before a string stands before all that follow it.
pub proof fn lemma_lex_transitive(a: Seq<char>, b: Seq<char>, c: Seq<char>)
    requires
        lex_lt(a, b),
        lex_lt(b, c),
    ensures
        lex_lt(a, c),
    decreases a.len(),
{
    if a.len() > 0 && b.len() > 0 && c.len() > 0 {
        if a[0] == b[0] && b[0] == c[0] {
            lemma_lex_transitive(a.drop_first(), b.drop_first(), c.drop_first());
        }
    }
}

/// In a strictly sorted list no name occurs twice.
pub proof fn lemma_sorted_distinct(s: Seq<Seq<char>>, i: int, j: int)
    requires
        strictly_sorted(s),
        0 <= i < s.len(),
        0 <= j < s.len(),
        i != j,
    ensures
        s[i] != s[j],
{
    lemma_lex_irreflexive(s[i]);
}

/// Puts `name` at its place in `names`, unless it is there already.
pub fn insert_name(names: &mut Vec<String>, name: String)
    requires
        strictly_sorted(names_view(old(names)@)),
    ensures
        strictly_sorted(names_view(final(names)@)),
        forall|s: Seq<char>|
            names_view(final(names)@).contains(s) <==> (names_view(old(names)@).contains(s) || s
                == name@),
{
    let key = chars_of(name.as_str());
    let ghost before = names_view(names@);
    let mut p: usize = 0;
    let mut stop = false;
    while !stop && p < names.len()
        invariant
            p <= names@.len(),
            strictly_sorted(before),
            stop ==> p < names@.len() && lex_lt(key@, before[p as int]),
            names@ == old(names)@,
            before == names_view(names@),
            key@ == name@,
            forall|k: int| 0 <= k < p ==> lex_lt(#[trigger] before[k], key@),
        decreases names@.len() - p + (if stop { 0int } else { 1int }),
    {
        let other = chars_of(names[p].as_str());
        match rank_chars(&other, &key) {
            Rank::Before => {
                p = p + 1;
            },
            Rank::Same => {
                proof {
                    assert(before[p as int] == name@);
                    assert(names_view(names@).contains(name@));
                }
                return ;
            },
            Rank::After => {
                stop = true;
            },
        }
    }
    names.insert(p, name);
    proof {
        let after = names_view(names@);
        assert(after =~= before.insert(p as int, key@));
        assert forall|i: int, j: int| 0 <= i < j < after.len() implies lex_lt(
            #[trigger] after[i],
            #[trigger] after[j],
        ) by {
            if j < p {
                assert(after[i] == before[i] && after[j] == before[j]);
            } else if j == p {
                assert(after[i] == before[i]);
            } else if i < p {
                assert(after[i] == before[i] && after[j] == before[j - 1]);
                if i < j - 1 {
                } else {
                    lemma_lex_transitive(before[i], key@, before[j - 1]);
                }
            } else if i == p {
                assert(after[j] == before[j - 1]);
                assert(stop);
                if j - 1 > p {
                    lemma_lex_transitive(key@, before[p as int], before[j - 1]);
                }
            } else {
                assert(after[i] == before[i - 1] && after[j] == before[j - 1]);
            }
        }
        assert forall|s: Seq<char>| after.contains(s) <==> (before.contains(s) || s == key@) by {
            if after.contains(s) {
                let k = choose|k: int| 0 <= k < after.len() && after[k] == s;
                if k < p {
                    assert(before[k] == s);
                } else if k > p {
                    assert(before[k - 1] == s);
                }
            }
            if before.contains(s) {
                let k = choose|k: int| 0 <= k < before.len() && before[k] == s;
                if k < p {
                    assert(after[k] == s);
                } else {
                    assert(after[k + 1] == s);
                }
            }
            if s == key@ {
                assert(after[p as int] == s);
            }
        }
    }
}

} // verus!
