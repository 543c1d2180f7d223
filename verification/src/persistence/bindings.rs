//! How scripts name stored state: a full key `namespace:key`.

use vstd::prelude::*;
use crate::text::{chars_of, string_from_chars, owned, first_index_of};

verus! {

/// The namespace and key that a full key names: the text before and after its first `:`,
/// or the namespace `default` and the whole text when there is no `:`.
pub open spec fn split_key(full: Seq<char>) -> (Seq<char>, Seq<char>) {
    let i = first_index_of(full, ':');
    if i >= 0 {
        (full.subrange(0, i), full.subrange(i + 1, full.len() as int))
    } else {
        ("default"@, full)
    }
}

proof fn lemma_first_index_of(s: Seq<char>, c: char)
    ensures
        -1 <= first_index_of(s, c) < s.len(),
        first_index_of(s, c) >= 0 ==> s[first_index_of(s, c)] == c,
        first_index_of(s, c) >= 0 ==> forall|j: int| 0 <= j < first_index_of(s, c) ==> s[j] != c,
        first_index_of(s, c) < 0 ==> forall|j: int| 0 <= j < s.len() ==> s[j] != c,
    decreases s.len(),
{
    if s.len() > 0 && s[0] != c {
        lemma_first_index_of(s.drop_first(), c);
        assert(forall|j: int| 0 < j < s.len() ==> s.drop_first()[j - 1] == s[j]);
    }
}

/// Split a full key into namespace and key at the first `:`.
pub fn parse_key(full_key: &str) -> (r: (String, String))
    ensures
        (r.0@, r.1@) == split_key(full_key@),
{
    let cs = chars_of(full_key);
    proof { lemma_first_index_of(full_key@, ':'); }
    let mut i: usize = 0;
    while i < cs.len()
        invariant
            cs@ == full_key@,
            i <= cs@.len(),
            forall|j: int| 0 <= j < i ==> cs@[j] != ':',
        decreases cs@.len() - i,
    {
        if cs[i] == ':' {
            proof {
                lemma_first_index_of(full_key@, ':');
                let f = first_index_of(full_key@, ':');
                assert(f == i);
            }
            let mut ns: Vec<char> = Vec::new();
            let mut j: usize = 0;
            while j < i
                invariant
                    cs@ == full_key@,
                    j <= i < cs@.len(),
                    ns@ == cs@.subrange(0, j as int),
                decreases i - j,
            {
                ns.push(cs[j]);
                j = j + 1;
                assert(ns@ =~= cs@.subrange(0, j as int));
            }
            let mut rest: Vec<char> = Vec::new();
            let mut k: usize = i + 1;
            while k < cs.len()
                invariant
                    cs@ == full_key@,
                    i < k <= cs@.len(),
                    rest@ == cs@.subrange(i + 1, k as int),
                decreases cs@.len() - k,
            {
                rest.push(cs[k]);
                k = k + 1;
                assert(rest@ =~= cs@.subrange(i + 1, k as int));
            }
            return (string_from_chars(&ns), string_from_chars(&rest));
        }
        i = i + 1;
    }
    proof {
        lemma_first_index_of(full_key@, ':');
        if first_index_of(full_key@, ':') >= 0 {
            assert(cs@[first_index_of(full_key@, ':')] == ':');
        }
    }
    (owned("default"), owned(full_key))
}

} // verus!
