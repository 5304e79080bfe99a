//! Searching in sequences and in text.

use vstd::prelude::*;
use vstd::std_specs::iter::IteratorSpec;
use vstd::string::StrSliceExecFns;

verus! {

/// Whether `i` is the first position of `s` at which `p` holds.
pub open spec fn is_first<A>(s: Seq<A>, p: spec_fn(A) -> bool, i: int) -> bool {
    &&& 0 <= i < s.len()
    &&& p(s[i])
    &&& forall|j: int| 0 <= j < i ==> !p(#[trigger] s[j])
}

/// The first position of `s` at which `p` holds, where there is one.
pub open spec fn first_where<A>(s: Seq<A>, p: spec_fn(A) -> bool) -> Option<int> {
    if exists|i: int| is_first(s, p, i) {
        Some(choose|i: int| is_first(s, p, i))
    } else {
        None
    }
}

/// The predicate that holds of `c` alone.
pub open spec fn is_char(c: char) -> spec_fn(char) -> bool {
    |d: char| d == c
}

/// The predicate that holds of the texts that begin with `prefix`.
pub open spec fn begins_with(prefix: Seq<char>) -> spec_fn(Seq<char>) -> bool {
    |text: Seq<char>| prefix.is_prefix_of(text)
}

/// A first position is the only one, so it is the one that `first_where` names.
pub proof fn lemma_first_unique<A>(s: Seq<A>, p: spec_fn(A) -> bool, i: int)
    requires
        is_first(s, p, i),
    ensures
        first_where(s, p) == Some(i),
{
}

/// Where `p` holds somewhere in `s`, it holds at a first position, which is not behind `i`.
pub proof fn lemma_first_exists<A>(s: Seq<A>, p: spec_fn(A) -> bool, i: int)
    requires
        0 <= i < s.len(),
        p(s[i]),
    ensures
        first_where(s, p) matches Some(k) && k <= i && is_first(s, p, k),
    decreases i,
{
    if exists|j: int| 0 <= j < i && p(#[trigger] s[j]) {
        let j = choose|j: int| 0 <= j < i && p(#[trigger] s[j]);
        lemma_first_exists(s, p, j);
    } else {
        lemma_first_unique(s, p, i);
    }
}

/// What `first_where` gives: the first position at which `p` holds, or `None` where `p` holds
/// nowhere in `s`.
pub proof fn lemma_first_where<A>(s: Seq<A>, p: spec_fn(A) -> bool)
    ensures
        match first_where(s, p) {
            Some(i) => is_first(s, p, i),
            None => forall|j: int| 0 <= j < s.len() ==> !p(#[trigger] s[j]),
        },
{
    if first_where(s, p) is None {
        assert forall|j: int| 0 <= j < s.len() implies !p(#[trigger] s[j]) by {
            if p(s[j]) {
                lemma_first_exists(s, p, j);
            }
        }
    }
}

/// Whether `text` begins with `prefix`.
pub fn starts_with(text: &str, prefix: &str) -> (b: bool)
    ensures
        b == prefix@.is_prefix_of(text@),
{
    let mut rest = text.chars();
    let mut want = prefix.chars();
    let ghost mut i: int = 0;
    loop
        invariant
            0 <= i <= prefix@.len(),
            i <= text@.len(),
            rest.obeys_prophetic_iter_laws(),
            want.obeys_prophetic_iter_laws(),
            rest.remaining() == text@.skip(i),
            want.remaining() == prefix@.skip(i),
            text@.take(i) == prefix@.take(i),
        decreases prefix@.len() - i,
    {
        match want.next() {
            None => {
                return true;
            },
            Some(w) => {
                match rest.next() {
                    None => {
                        return false;
                    },
                    Some(c) => {
                        if c != w {
                            return false;
                        }
                        proof {
                            i = i + 1;
                        }
                    },
                }
            },
        }
    }
}

/// The parts of `text` before and behind the first `c` in it, where it holds one.
pub fn split_once(text: &str, c: char) -> (r: Option<(&str, &str)>)
    ensures
        match r {
            Some((head, tail)) => first_where(text@, is_char(c)) matches Some(i) && head@
                == text@.take(i) && tail@ == text@.skip(i + 1),
            None => first_where(text@, is_char(c)) is None,
        },
{
    let len = text.unicode_len();
    let mut rest = text.chars();
    let mut i: usize = 0;
    loop
        invariant
            0 <= i <= len,
            len == text@.len(),
            rest.obeys_prophetic_iter_laws(),
            rest.remaining() == text@.skip(i as int),
            forall|j: int| 0 <= j < i ==> !is_char(c)(#[trigger] text@[j]),
        decreases len - i,
    {
        match rest.next() {
            None => {
                return None;
            },
            Some(d) => {
                if d == c {
                    proof {
                        lemma_first_unique(text@, is_char(c), i as int);
                    }
                    return Some((text.substring_char(0, i), text.substring_char(i + 1, len)));
                }
                i = i + 1;
            },
        }
    }
}

} // verus!
