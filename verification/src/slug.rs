//! Tool names: the normalised, hyphenated form of an application's name.

use vstd::prelude::*;
use crate::text::{is_alnum, is_space, lower, char_is_alnum, char_is_space, char_lower, chars_of, string_of_chars};

verus! {

/// The characters that a slug replaces by a hyphen.
pub open spec fn is_separator(c: char) -> bool {
    is_space(c) || c == '-' || c == '_' || c == '.' || c == '/'
}

/// Letters and digits lower-cased, each run of separators turned into one
/// hyphen, everything else left out.
pub open spec fn collapse(s: Seq<char>) -> Seq<char>
    decreases s.len(),
{
    if s.len() == 0 {
        Seq::<char>::empty()
    } else {
        let acc = collapse(s.drop_last());
        let c = s.last();
        if is_alnum(c) {
            acc.push(lower(c))
        } else if is_separator(c) && !(acc.len() > 0 && acc.last() == '-') {
            acc.push('-')
        } else {
            acc
        }
    }
}

/// `s` without its leading hyphens.
pub open spec fn trim_start(s: Seq<char>) -> Seq<char>
    decreases s.len(),
{
    if s.len() > 0 && s[0] == '-' {
        trim_start(s.drop_first())
    } else {
        s
    }
}

/// `s` without its trailing hyphens.
pub open spec fn trim_end(s: Seq<char>) -> Seq<char>
    decreases s.len(),
{
    if s.len() > 0 && s.last() == '-' {
        trim_end(s.drop_last())
    } else {
        s
    }
}

/// The slug of a name.
pub open spec fn slug_of(s: Seq<char>) -> Seq<char> {
    trim_end(trim_start(collapse(s)))
}

/// A character that a slug may hold.
pub open spec fn is_slug_char(c: char) -> bool {
    ('a' <= c && c <= 'z') || ('0' <= c && c <= '9') || c == '-'
}

/// Only slug characters, and no two hyphens in a row.
pub open spec fn is_collapsed(s: Seq<char>) -> bool {
    &&& forall|i: int| 0 <= i < s.len() ==> is_slug_char(#[trigger] s[i])
    &&& forall|i: int| 0 < i < s.len() && s[i] == '-' ==> #[trigger] s[i - 1] != '-'
}

/// What every slug looks like: slug characters only, no two hyphens in a
/// row, and no hyphen at either end.
pub open spec fn is_slug(s: Seq<char>) -> bool {
    &&& is_collapsed(s)
    &&& s.len() > 0 ==> s[0] != '-' && s.last() != '-'
}

/// Collapsing leaves slug characters only, and no two hyphens in a row.
pub proof fn lemma_collapse_is_collapsed(s: Seq<char>)
    ensures
        is_collapsed(collapse(s)),
    decreases s.len(),
{
    if s.len() > 0 {
        lemma_collapse_is_collapsed(s.drop_last());
        let acc = collapse(s.drop_last());
        let c = s.last();
        let r = collapse(s);
        assert forall|i: int| 0 <= i < r.len() implies is_slug_char(#[trigger] r[i]) by {
            if i < acc.len() {
                assert(r[i] == acc[i]);
            }
        }
        assert forall|i: int| 0 < i < r.len() && r[i] == '-' implies #[trigger] r[i - 1]
            != '-' by {
            if i < acc.len() {
                assert(r[i] == acc[i]);
                assert(r[i - 1] == acc[i - 1]);
            } else {
                assert(r[i - 1] == acc[i - 1]);
            }
        }
    }
}

/// Trimming in front keeps a collapsed string collapsed and leaves no
/// hyphen in front.
pub proof fn lemma_trim_start(s: Seq<char>)
    requires
        is_collapsed(s),
    ensures
        is_collapsed(trim_start(s)),
        trim_start(s).len() > 0 ==> trim_start(s)[0] != '-',
    decreases s.len(),
{
    if s.len() > 0 && s[0] == '-' {
        let t = s.drop_first();
        assert forall|i: int| 0 <= i < t.len() implies is_slug_char(#[trigger] t[i]) by {
            assert(t[i] == s[i + 1]);
        }
        assert forall|i: int| 0 < i < t.len() && t[i] == '-' implies #[trigger] t[i - 1]
            != '-' by {
            assert(t[i] == s[i + 1]);
            assert(t[i - 1] == s[i + 1 - 1]);
        }
        lemma_trim_start(t);
    }
}

/// Trimming at the end of a collapsed string without a hyphen in
/// front leaves a slug.
pub proof fn lemma_trim_end(s: Seq<char>)
    requires
        is_collapsed(s),
        s.len() > 0 ==> s[0] != '-',
    ensures
        is_slug(trim_end(s)),
    decreases s.len(),
{
    if s.len() > 0 && s.last() == '-' {
        let t = s.drop_last();
        assert forall|i: int| 0 <= i < t.len() implies is_slug_char(#[trigger] t[i]) by {
            assert(t[i] == s[i]);
        }
        assert forall|i: int| 0 < i < t.len() && t[i] == '-' implies #[trigger] t[i - 1]
            != '-' by {
            assert(t[i] == s[i]);
            assert(t[i - 1] == s[i - 1]);
        }
        if t.len() > 0 {
            assert(t[0] == s[0]);
        }
        lemma_trim_end(t);
    }
}

/// Every slug is made of `a`-`z`, `0`-`9` and single hyphens, and neither
/// starts nor ends with a hyphen.
pub proof fn lemma_slug_shape(s: Seq<char>)
    ensures
        is_slug(slug_of(s)),
{
    lemma_collapse_is_collapsed(s);
    lemma_trim_start(collapse(s));
    lemma_trim_end(trim_start(collapse(s)));
}

/// Collapsing changes nothing in a collapsed string without a hyphen in front.
pub proof fn lemma_collapse_fixed(s: Seq<char>)
    requires
        is_collapsed(s),
        s.len() > 0 ==> s[0] != '-',
    ensures
        collapse(s) == s,
    decreases s.len(),
{
    if s.len() > 0 {
        let t = s.drop_last();
        assert forall|i: int| 0 <= i < t.len() implies is_slug_char(#[trigger] t[i]) by {
            assert(t[i] == s[i]);
        }
        assert forall|i: int| 0 < i < t.len() && t[i] == '-' implies #[trigger] t[i - 1]
            != '-' by {
            assert(t[i] == s[i]);
            assert(t[i - 1] == s[i - 1]);
        }
        if t.len() > 0 {
            assert(t[0] == s[0]);
        }
        lemma_collapse_fixed(t);
        let c = s.last();
        assert(is_slug_char(c));
        if c == '-' {
            assert(s.len() > 1);
            assert(s[s.len() - 1] == '-');
            assert(s[s.len() - 1 - 1] != '-');
            assert(t.last() == s[s.len() - 2]);
        }
        assert(t.push(c) =~= s);
    } else {
        assert(s =~= Seq::<char>::empty());
    }
}

/// The slug of a slug is that slug.
pub proof fn lemma_slug_idempotent(s: Seq<char>)
    ensures
        slug_of(slug_of(s)) == slug_of(s),
{
    lemma_slug_shape(s);
    let y = slug_of(s);
    lemma_collapse_fixed(y);
}

/// A slug that holds anything at all is a run of the pattern `[a-z0-9-]+`
/// with a letter or digit at both ends; a name without letters and digits
/// has the empty slug.
pub proof fn lemma_slug_ends(s: Seq<char>)
    ensures
        slug_of(s).len() > 0 ==> is_alnum(slug_of(s)[0]) && is_alnum(slug_of(s).last()),
        forall|i: int| 0 <= i < slug_of(s).len() ==> is_slug_char(#[trigger] slug_of(s)[i]),
{
    lemma_slug_shape(s);
}

/// Computes the slug of `input`.
pub fn slugify(input: &str) -> (slug: String)
    ensures
        slug@ == slug_of(input@),
        is_slug(slug@),
{
    let chars = chars_of(input);
    let mut acc: Vec<char> = Vec::new();
    let mut i: usize = 0;
    while i < chars.len()
        invariant
            i <= chars@.len(),
            acc@ == collapse(chars@.subrange(0, i as int)),
        decreases chars@.len() - i,
    {
        let c = chars[i];
        proof {
            assert(chars@.subrange(0, i + 1).drop_last() =~= chars@.subrange(0, i as int));
        }
        if char_is_alnum(c) {
            acc.push(char_lower(c));
        } else if char_is_space(c) || c == '-' || c == '_' || c == '.' || c == '/' {
            if !(acc.len() > 0 && acc[acc.len() - 1] == '-') {
                acc.push('-');
            }
        }
        i = i + 1;
    }
    proof {
        assert(chars@.subrange(0, i as int) =~= chars@);
    }
    let mut start: usize = 0;
    proof {
        assert(acc@.subrange(0, acc@.len() as int) =~= acc@);
    }
    while start < acc.len() && acc[start] == '-'
        invariant
            start <= acc@.len(),
            trim_start(acc@) == trim_start(acc@.subrange(start as int, acc@.len() as int)),
        decreases acc@.len() - start,
    {
        proof {
            assert(acc@.subrange(start as int, acc@.len() as int).drop_first() =~= acc@.subrange(
                start + 1,
                acc@.len() as int,
            ));
        }
        start = start + 1;
    }
    let mut end: usize = acc.len();
    while end > start && acc[end - 1] == '-'
        invariant
            start <= end <= acc@.len(),
            trim_end(acc@.subrange(start as int, acc@.len() as int)) == trim_end(
                acc@.subrange(start as int, end as int),
            ),
        decreases end,
    {
        proof {
            assert(acc@.subrange(start as int, end as int).drop_last() =~= acc@.subrange(
                start as int,
                end - 1,
            ));
        }
        end = end - 1;
    }
    proof {
        lemma_slug_shape(input@);
    }
    string_of_chars(&acc, start, end)
}

} // verus!
