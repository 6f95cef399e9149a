//! First matches in sequences, and a few facts about filtering.

use vstd::prelude::*;

verus! {

/// The index of the first element of `s` that satisfies `p`, or `s.len()` if
/// no element does.
pub open spec fn first_index<A>(s: Seq<A>, p: spec_fn(A) -> bool) -> int
    decreases s.len(),
{
    if s.len() == 0 {
        0
    } else if p(s[0]) {
        0
    } else {
        1 + first_index(s.drop_first(), p)
    }
}

/// The first element of `s` that satisfies `p`, if there is one.
pub open spec fn first_match<A>(s: Seq<A>, p: spec_fn(A) -> bool) -> Option<A> {
    let i = first_index(s, p);
    if i < s.len() {
        Some(s[i])
    } else {
        None
    }
}

/// `first_index` is in range, nothing before it satisfies `p`, and the
/// element at it does, if it is an index at all.
pub proof fn lemma_first_index<A>(s: Seq<A>, p: spec_fn(A) -> bool)
    ensures
        0 <= first_index(s, p) <= s.len(),
        forall|k: int| 0 <= k < first_index(s, p) ==> !p(#[trigger] s[k]),
        first_index(s, p) < s.len() ==> p(s[first_index(s, p)]),
    decreases s.len(),
{
    if s.len() != 0 && !p(s[0]) {
        let t = s.drop_first();
        lemma_first_index(t, p);
        assert forall|k: int| 0 <= k < first_index(s, p) implies !p(#[trigger] s[k]) by {
            if k > 0 {
                assert(s[k] == t[k - 1]);
            }
        }
    }
}

/// An index with nothing satisfying `p` before it, and which satisfies `p`
/// unless it is the length, is the first index.
pub proof fn lemma_first_index_is<A>(s: Seq<A>, p: spec_fn(A) -> bool, i: int)
    requires
        0 <= i <= s.len(),
        forall|k: int| 0 <= k < i ==> !p(#[trigger] s[k]),
        i < s.len() ==> p(s[i]),
    ensures
        first_index(s, p) == i,
{
    lemma_first_index(s, p);
    let j = first_index(s, p);
    if j < i {
        assert(!p(s[j]));
    } else if i < j {
        assert(p(s[i]));
    }
}

/// Filtering a sequence that ends in `x` filters what comes before and then
/// keeps or drops `x`.
pub proof fn lemma_filter_push<A>(s: Seq<A>, x: A, p: spec_fn(A) -> bool)
    ensures
        s.push(x).filter(p) == if p(x) {
            s.filter(p).push(x)
        } else {
            s.filter(p)
        },
{
    reveal(Seq::filter);
    assert(s.push(x).drop_last() =~= s);
}

/// The values of the present entries of `s`, in their order.
pub open spec fn present<A>(s: Seq<Option<A>>) -> Seq<A>
    decreases s.len(),
{
    if s.len() == 0 {
        Seq::empty()
    } else {
        match s.last() {
            Some(a) => present(s.drop_last()).push(a),
            None => present(s.drop_last()),
        }
    }
}

/// The present entries of a sequence that ends in `x` are those of what
/// comes before, followed by `x` if it is present.
pub proof fn lemma_present_push<A>(s: Seq<Option<A>>, x: Option<A>)
    ensures
        present(s.push(x)) == match x {
            Some(a) => present(s).push(a),
            None => present(s),
        },
{
    assert(s.push(x).drop_last() =~= s);
}

/// Every present entry of a sequence is the value of one of its entries.
pub proof fn lemma_present_from<A>(s: Seq<Option<A>>, k: int)
    requires
        0 <= k < present(s).len(),
    ensures
        exists|i: int| 0 <= i < s.len() && #[trigger] s[i] == Some(present(s)[k]),
    decreases s.len(),
{
    let t = s.drop_last();
    if s.last() is Some && k == present(t).len() {
        assert(s[s.len() - 1] == Some(present(s)[k]));
    } else {
        lemma_present_from(t, k);
        let i = choose|i: int| 0 <= i < t.len() && #[trigger] t[i] == Some(present(t)[k]);
        assert(s[i] == Some(present(s)[k]));
    }
}

/// The elements of `s` without repetition, each at the place of its first
/// occurrence.
pub open spec fn distinct<A>(s: Seq<A>) -> Seq<A>
    decreases s.len(),
{
    if s.len() == 0 {
        Seq::empty()
    } else {
        let d = distinct(s.drop_last());
        if d.contains(s.last()) {
            d
        } else {
            d.push(s.last())
        }
    }
}

/// `distinct` of a sequence that ends in `x` adds `x` unless it is there.
pub proof fn lemma_distinct_push<A>(s: Seq<A>, x: A)
    ensures
        distinct(s.push(x)) == if distinct(s).contains(x) {
            distinct(s)
        } else {
            distinct(s).push(x)
        },
{
    assert(s.push(x).drop_last() =~= s);
}

/// `distinct(s)` holds `x` exactly if `s` does.
pub proof fn lemma_distinct_contains<A>(s: Seq<A>, x: A)
    ensures
        distinct(s).contains(x) == s.contains(x),
    decreases s.len(),
{
    let d = distinct(s);
    if s.len() != 0 {
        let t = s.drop_last();
        let dt = distinct(t);
        lemma_distinct_contains(t, x);
        if d.contains(x) {
            let i = choose|i: int| 0 <= i < d.len() && d[i] == x;
            if i < dt.len() {
                assert(dt[i] == x);
                assert(dt.contains(x));
                let j = choose|j: int| 0 <= j < t.len() && t[j] == x;
                assert(s[j] == x);
            } else {
                assert(s[s.len() - 1] == x);
            }
            assert(s.contains(x));
        }
        if s.contains(x) {
            let j = choose|j: int| 0 <= j < s.len() && s[j] == x;
            if j < t.len() {
                assert(t[j] == x);
                assert(t.contains(x));
                let i = choose|i: int| 0 <= i < dt.len() && dt[i] == x;
                assert(d[i] == x);
            } else if dt.contains(x) {
                let i = choose|i: int| 0 <= i < dt.len() && dt[i] == x;
                assert(d[i] == x);
            } else {
                assert(d[d.len() - 1] == x);
            }
            assert(d.contains(x));
        }
    }
}

/// `distinct(s)` holds exactly the elements of `s`, each once.
pub proof fn lemma_distinct<A>(s: Seq<A>)
    ensures
        distinct(s).no_duplicates(),
        distinct(s).to_set() == s.to_set(),
        distinct(s).len() == s.to_set().len(),
        distinct(s).len() <= s.len(),
    decreases s.len(),
{
    let d = distinct(s);
    if s.len() != 0 {
        let t = s.drop_last();
        let dt = distinct(t);
        lemma_distinct(t);
        if !dt.contains(s.last()) {
            assert forall|i: int, j: int|
                0 <= i < d.len() && 0 <= j < d.len() && i != j implies d[i] != d[j] by {
                if i == dt.len() {
                    assert(dt[j] == d[j]);
                } else if j == dt.len() {
                    assert(dt[i] == d[i]);
                } else {
                    assert(dt[i] == d[i] && dt[j] == d[j]);
                }
            }
        }
    }
    assert forall|x: A| d.to_set().contains(x) == s.to_set().contains(x) by {
        lemma_distinct_contains(s, x);
    }
    assert(d.to_set() =~= s.to_set());
    d.unique_seq_to_set();
}

} // verus!
