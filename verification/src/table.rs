//! Searching the rows of a table, which is a sequence in insertion order.

use vstd::prelude::*;

verus! {

/// `r` is the position of the first element of `s` that satisfies `p`, or
/// `None` where no element does.
pub open spec fn is_first_match<T>(s: Seq<T>, p: spec_fn(T) -> bool, r: Option<int>) -> bool {
    match r {
        Some(i) => {
            &&& 0 <= i < s.len()
            &&& p(s[i])
            &&& forall|j: int| 0 <= j < i ==> !p(#[trigger] s[j])
        },
        None => forall|j: int| 0 <= j < s.len() ==> !p(#[trigger] s[j]),
    }
}

/// `i` is the position of the first element of `s` that satisfies `p`.
pub open spec fn is_first_at<T>(s: Seq<T>, p: spec_fn(T) -> bool, i: int) -> bool {
    &&& 0 <= i < s.len()
    &&& p(s[i])
    &&& forall|j: int| 0 <= j < i ==> !p(#[trigger] s[j])
}

/// The position of the first element of `s` that satisfies `p`, or `None`
/// where no element does.
pub open spec fn first_index<T>(s: Seq<T>, p: spec_fn(T) -> bool) -> Option<int> {
    if exists|i: int| is_first_at(s, p, i) {
        Some(choose|i: int| is_first_at(s, p, i))
    } else {
        None
    }
}

/// The first match is unique: whatever satisfies [`is_first_match`] is the
/// value of [`first_index`].
pub proof fn lemma_first_index<T>(s: Seq<T>, p: spec_fn(T) -> bool, r: Option<int>)
    requires
        is_first_match(s, p, r),
    ensures
        first_index(s, p) == r,
{
    match r {
        Some(i) => {
            assert(is_first_at(s, p, i));
            let c = choose|c: int| is_first_at(s, p, c);
            if i < c {
                assert(!p(s[i]));
            } else if c < i {
                assert(!p(s[c]));
            }
        },
        None => {
            assert forall|i: int| !is_first_at(s, p, i) by {
                if 0 <= i < s.len() {
                    assert(!p(s[i]));
                }
            }
        },
    }
}

/// [`first_index`] always satisfies [`is_first_match`]: where it answers
/// `None`, no element satisfies `p`.
pub proof fn lemma_first_index_is_first<T>(s: Seq<T>, p: spec_fn(T) -> bool)
    ensures
        is_first_match(s, p, first_index(s, p)),
    decreases s.len(),
{
    if s.len() == 0 {
        lemma_first_index(s, p, None);
    } else {
        let front = s.drop_last();
        lemma_first_index_is_first(front, p);
        match first_index(front, p) {
            Some(i) => {
                assert(front[i] == s[i]);
                assert forall|j: int| 0 <= j < i implies !p(#[trigger] s[j]) by {
                    assert(front[j] == s[j]);
                }
                lemma_first_index(s, p, Some(i));
            },
            None => {
                assert forall|j: int| 0 <= j < s.len() - 1 implies !p(#[trigger] s[j]) by {
                    assert(front[j] == s[j]);
                }
                if p(s.last()) {
                    lemma_first_index(s, p, Some(s.len() - 1));
                } else {
                    lemma_first_index(s, p, None);
                }
            },
        }
    }
}

/// The position that a search loop reports, as a mathematical integer.
pub open spec fn as_position(r: Option<usize>) -> Option<int> {
    match r {
        Some(i) => Some(i as int),
        None => None,
    }
}

/// Two sequences of the same length whose elements satisfy `p` at the same
/// positions have their first match at the same position.
pub proof fn lemma_first_index_congruent<T>(a: Seq<T>, b: Seq<T>, p: spec_fn(T) -> bool)
    requires
        a.len() == b.len(),
        forall|k: int| 0 <= k < a.len() ==> p(#[trigger] a[k]) == p(b[k]),
    ensures
        first_index(a, p) == first_index(b, p),
{
    lemma_first_index_is_first(a, p);
    let r = first_index(a, p);
    match r {
        Some(i) => {
            assert(p(a[i]) == p(b[i]));
            assert forall|j: int| 0 <= j < i implies !p(#[trigger] b[j]) by {
                assert(p(a[j]) == p(b[j]));
            }
        },
        None => {
            assert forall|j: int| 0 <= j < b.len() implies !p(#[trigger] b[j]) by {
                assert(p(a[j]) == p(b[j]));
            }
        },
    }
    lemma_first_index(b, p, r);
}

/// How many elements a predicate selects: one for an element that
/// satisfies it, none for one that does not.
pub open spec fn selects<T>(p: spec_fn(T) -> bool, x: T) -> int {
    if p(x) {
        1
    } else {
        0
    }
}

/// Replacing one element changes the number of elements that satisfy `p`
/// by what the new element adds and the old one took along.
pub proof fn lemma_filter_len_update<T>(s: Seq<T>, i: int, x: T, p: spec_fn(T) -> bool)
    requires
        0 <= i < s.len(),
    ensures
        s.update(i, x).filter(p).len() == s.filter(p).len() - selects(p, s[i]) + selects(p, x),
    decreases s.len(),
{
    let front = s.drop_last();
    assert(s =~= front.push(s.last()));
    front.lemma_filter_len_push(p, s.last());
    if i == s.len() - 1 {
        assert(s.update(i, x) =~= front.push(x));
        front.lemma_filter_len_push(p, x);
    } else {
        lemma_filter_len_update(front, i, x, p);
        assert(s.update(i, x) =~= front.update(i, x).push(s.last()));
        front.update(i, x).lemma_filter_len_push(p, s.last());
    }
}

/// Two sequences of the same length whose elements satisfy `p` at the same
/// positions have equally many elements that satisfy `p`.
pub proof fn lemma_filter_len_congruent<T>(a: Seq<T>, b: Seq<T>, p: spec_fn(T) -> bool)
    requires
        a.len() == b.len(),
        forall|k: int| 0 <= k < a.len() ==> p(#[trigger] a[k]) == p(b[k]),
    ensures
        a.filter(p).len() == b.filter(p).len(),
    decreases a.len(),
{
    if a.len() == 0 {
        assert(a =~= b);
    } else {
        let front_a = a.drop_last();
        let front_b = b.drop_last();
        assert forall|k: int| 0 <= k < front_a.len() implies p(#[trigger] front_a[k]) == p(
            front_b[k],
        ) by {
            assert(front_a[k] == a[k]);
            assert(p(a[k]) == p(b[k]));
        }
        lemma_filter_len_congruent(front_a, front_b, p);
        assert(a =~= front_a.push(a.last()));
        assert(b =~= front_b.push(b.last()));
        front_a.lemma_filter_len_push(p, a.last());
        front_b.lemma_filter_len_push(p, b.last());
        assert(p(a[a.len() - 1]) == p(b[a.len() - 1]));
    }
}

} // verus!
