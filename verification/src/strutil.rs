//! Verified string helpers: equality of string slices and splitting a
//! string into the parts between `/` separators.

use vstd::prelude::*;

verus! {

/// The parts of `s` between occurrences of `/`, in order.  Splitting never
/// yields an empty sequence: a string without `/` is one part, and each
/// separator starts a new (possibly empty) part.
pub open spec fn split_slash(s: Seq<char>) -> Seq<Seq<char>>
    decreases s.len(),
{
    if s.len() == 0 {
        seq![Seq::<char>::empty()]
    } else if s[0] == '/' {
        seq![Seq::<char>::empty()] + split_slash(s.skip(1))
    } else {
        let rest = split_slash(s.skip(1));
        seq![seq![s[0]] + rest[0]] + rest.skip(1)
    }
}

pub proof fn lemma_split_slash_nonempty(s: Seq<char>)
    ensures
        split_slash(s).len() >= 1,
    decreases s.len(),
{
    if s.len() == 0 {
    } else {
        lemma_split_slash_nonempty(s.skip(1));
    }
}

/// The sequence obtained by prepending `head` to the first part of `tail`.
/// This describes a split whose first part is still being read: `head` is
/// what was read so far.
pub open spec fn split_put(head: Seq<char>, tail: Seq<Seq<char>>) -> Seq<Seq<char>>
    recommends
        tail.len() >= 1,
{
    seq![head + tail[0]] + tail.skip(1)
}

/// `i` is the position of the first occurrence of `c1` or `c2` in `s`.
pub open spec fn is_first_at(s: Seq<char>, c1: char, c2: char, i: int) -> bool {
    &&& 0 <= i < s.len()
    &&& (s[i] == c1 || s[i] == c2)
    &&& forall|j: int| 0 <= j < i ==> s[j] != c1 && #[trigger] s[j] != c2
}

/// The position of the first occurrence of `c1` or `c2` in `s`, or the
/// length of `s` when neither occurs.
pub open spec fn find_char(s: Seq<char>, c1: char, c2: char) -> int {
    if exists|i: int| is_first_at(s, c1, c2, i) {
        choose|i: int| is_first_at(s, c1, c2, i)
    } else {
        s.len() as int
    }
}

pub proof fn lemma_first_at_unique(s: Seq<char>, c1: char, c2: char, i: int, j: int)
    requires
        is_first_at(s, c1, c2, i),
        is_first_at(s, c1, c2, j),
    ensures
        i == j,
{
}

/// Finds the first occurrence of `c1` or `c2` in `s`, as [`find_char`].
pub fn find_in(s: &str, c1: char, c2: char) -> (r: usize)
    ensures
        r == find_char(s@, c1, c2),
        r <= s@.len(),
{
    let len = s.unicode_len();
    let mut i: usize = 0;
    while i < len
        invariant
            len == s@.len(),
            i <= len,
            forall|j: int| 0 <= j < i ==> s@[j] != c1 && #[trigger] s@[j] != c2,
        decreases len - i,
    {
        let c = s.get_char(i);
        if c == c1 || c == c2 {
            proof {
                assert(is_first_at(s@, c1, c2, i as int));
                lemma_first_at_unique(s@, c1, c2, i as int, find_char(s@, c1, c2));
            }
            return i;
        }
        i = i + 1;
    }
    proof {
        assert forall|k: int| !is_first_at(s@, c1, c2, k) by {}
    }
    len
}

/// Wherever a match exists, a first match exists.
pub proof fn lemma_match_has_first(s: Seq<char>, c1: char, c2: char, j: int)
    requires
        0 <= j < s.len(),
        s[j] == c1 || s[j] == c2,
    ensures
        exists|i: int| is_first_at(s, c1, c2, i),
    decreases j,
{
    if forall|k: int| 0 <= k < j ==> s[k] != c1 && #[trigger] s[k] != c2 {
        assert(is_first_at(s, c1, c2, j));
    } else {
        let k = choose|k: int| 0 <= k < j && !(s[k] != c1 && #[trigger] s[k] != c2);
        lemma_match_has_first(s, c1, c2, k);
    }
}

/// How the first match in a prefix relates to the first match in the whole
/// string: it is the same position if that falls inside the prefix, and
/// otherwise the prefix has no match.
pub proof fn lemma_find_char_prefix(s: Seq<char>, c1: char, c2: char, e: int)
    requires
        0 <= e <= s.len(),
    ensures
        find_char(s.take(e), c1, c2) == if find_char(s, c1, c2) < e {
            find_char(s, c1, c2)
        } else {
            e
        },
{
    let p = find_char(s, c1, c2);
    let t = s.take(e);
    if exists|i: int| is_first_at(s, c1, c2, i) {
        assert(is_first_at(s, c1, c2, p));
        if p < e {
            assert(is_first_at(t, c1, c2, p));
            lemma_first_at_unique(t, c1, c2, p, find_char(t, c1, c2));
        } else {
            // no match strictly before `p`, hence none in the prefix
            assert forall|i: int| !is_first_at(t, c1, c2, i) by {
                if 0 <= i < e {
                    assert(s[i] != c1 && s[i] != c2);
                }
            }
        }
    } else {
        assert forall|i: int| !is_first_at(t, c1, c2, i) by {
            if 0 <= i < e && (t[i] == c1 || t[i] == c2) {
                lemma_match_has_first(s, c1, c2, i);
            }
        }
        assert(p == s.len());
    }
}

/// True exactly when the two string slices hold the same characters.
pub fn str_eq(a: &str, b: &str) -> (r: bool)
    ensures
        r == (a@ == b@),
{
    let a_len = a.unicode_len();
    let b_len = b.unicode_len();
    if a_len != b_len {
        return false;
    }
    let mut i: usize = 0;
    while i < a_len
        invariant
            a_len == a@.len(),
            b_len == b@.len(),
            a_len == b_len,
            i <= a_len,
            forall|j: int| 0 <= j < i ==> a@[j] == b@[j],
        decreases a_len - i,
    {
        if a.get_char(i) != b.get_char(i) {
            return false;
        }
        i = i + 1;
    }
    proof {
        assert(a@ =~= b@);
    }
    true
}

/// Splits `s` at every `/` into owned parts, matching [`split_slash`].
pub fn split_on_slash(s: &str) -> (parts: Vec<String>)
    ensures
        parts.deep_view() == split_slash(s@),
{
    let len = s.unicode_len();
    let mut parts: Vec<String> = Vec::new();
    let mut start: usize = 0;
    let mut i: usize = 0;
    proof {
        lemma_split_slash_nonempty(s@);
        assert(s@.skip(0) =~= s@);
        assert(split_slash(s@) =~~= parts.deep_view() + split_put(
            s@.subrange(0, 0),
            split_slash(s@.skip(0)),
        ));
    }
    while i < len
        invariant
            len == s@.len(),
            start <= i <= len,
            split_slash(s@) == parts.deep_view() + split_put(
                s@.subrange(start as int, i as int),
                split_slash(s@.skip(i as int)),
            ),
        decreases len - i,
    {
        let ghost here = s@.skip(i as int);
        let ghost next = s@.skip(i + 1 as int);
        let ghost cur = s@.subrange(start as int, i as int);
        proof {
            lemma_split_slash_nonempty(here);
            lemma_split_slash_nonempty(next);
            assert(here.len() > 0);
            assert(here[0] == s@[i as int]);
            assert(here.skip(1) =~= next);
        }
        let ghost rest = split_slash(next);
        let c = s.get_char(i);
        if c == '/' {
            let part = s.substring_char(start, i).to_owned();
            let ghost old_parts = parts.deep_view();
            parts.push(part);
            proof {
                assert(parts.deep_view() =~~= old_parts.push(cur));
                assert(split_slash(here) == seq![Seq::<char>::empty()] + rest);
                // what the old invariant gives, spelled out on the new state
                assert(split_put(cur, seq![Seq::<char>::empty()] + rest)
                    =~~= seq![cur] + split_put(Seq::<char>::empty(), rest));
                assert(s@.subrange(i + 1 as int, i + 1 as int) =~= Seq::<char>::empty());
                assert(old_parts + (seq![cur] + split_put(Seq::<char>::empty(), rest))
                    =~~= parts.deep_view() + split_put(
                        s@.subrange(i + 1 as int, i + 1 as int),
                        split_slash(next),
                    ));
            }
            start = i + 1;
        } else {
            proof {
                assert(split_slash(here) == seq![seq![here[0]] + rest[0]] + rest.skip(1));
                assert(split_put(cur, seq![seq![here[0]] + rest[0]] + rest.skip(1))
                    =~~= split_put(s@.subrange(start as int, i + 1 as int), rest));
            }
        }
        i = i + 1;
    }
    let last = s.substring_char(start, len).to_owned();
    let ghost old_parts = parts.deep_view();
    let ghost cur = s@.subrange(start as int, len as int);
    parts.push(last);
    proof {
        assert(s@.skip(len as int) =~= Seq::<char>::empty());
        assert(parts.deep_view() =~~= old_parts.push(cur));
        assert(old_parts + split_put(cur, split_slash(s@.skip(len as int)))
            =~~= parts.deep_view());
    }
    parts
}

} // verus!
