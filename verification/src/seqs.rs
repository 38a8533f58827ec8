//! Facts about filtered sequences.

use vstd::prelude::*;

verus! {

/// `s` without the value `a`.
pub open spec fn filter_out<A>(s: Seq<A>, a: A) -> Seq<A> {
    s.filter(|x: A| x != a)
}

/// Filtering one more element.
pub proof fn lemma_filter_step<A>(s: Seq<A>, n: int, p: spec_fn(A) -> bool)
    requires
        0 <= n < s.len(),
    ensures
        s.take(n + 1).filter(p) == (if p(s[n]) {
            s.take(n).filter(p).push(s[n])
        } else {
            s.take(n).filter(p)
        }),
{
    reveal(Seq::filter);
    assert(s.take(n + 1).drop_last() =~= s.take(n));
}

/// Filtering no elements.
pub proof fn lemma_filter_none<A>(s: Seq<A>, p: spec_fn(A) -> bool)
    ensures
        s.take(0).filter(p) == Seq::<A>::empty(),
{
    reveal(Seq::filter);
    assert(s.take(0) =~= Seq::empty());
}

/// What a filter keeps.
pub proof fn lemma_filter_members<A>(s: Seq<A>, p: spec_fn(A) -> bool)
    ensures
        forall|x: A| #[trigger] s.filter(p).contains(x) <==> s.contains(x) && p(x),
    decreases s.len(),
{
    reveal(Seq::filter);
    if s.len() > 0 {
        let t = s.drop_last();
        lemma_filter_members(t, p);
        assert forall|x: A| #[trigger] s.filter(p).contains(x) implies s.contains(x) && p(x) by {
            if t.filter(p).contains(x) {
                assert(t.contains(x));
                let i = choose|i: int| 0 <= i < t.len() && t[i] == x;
                assert(s[i] == x);
            } else {
                let i = choose|i: int| 0 <= i < s.filter(p).len() && s.filter(p)[i] == x;
                if i < t.filter(p).len() {
                    assert(t.filter(p)[i] == x);
                }
                assert(s[s.len() - 1] == x);
            }
        }
        assert forall|x: A| s.contains(x) && p(x) implies #[trigger] s.filter(p).contains(x) by {
            let i = choose|i: int| 0 <= i < s.len() && s[i] == x;
            if i < s.len() - 1 {
                assert(t[i] == x);
                assert(t.filter(p).contains(x));
                let j = choose|j: int| 0 <= j < t.filter(p).len() && t.filter(p)[j] == x;
                assert(s.filter(p)[j] == x);
            } else {
                assert(s.filter(p).last() == x);
                assert(s.filter(p)[s.filter(p).len() - 1] == x);
            }
        }
    }
}

/// A filter keeps a sequence free of duplicates.
pub proof fn lemma_filter_unique<A>(s: Seq<A>, p: spec_fn(A) -> bool)
    requires
        s.no_duplicates(),
    ensures
        s.filter(p).no_duplicates(),
    decreases s.len(),
{
    reveal(Seq::filter);
    if s.len() > 0 {
        let t = s.drop_last();
        lemma_filter_unique(t, p);
        lemma_filter_members(t, p);
        if p(s.last()) {
            let f = t.filter(p);
            assert forall|i: int| 0 <= i < f.len() implies f[i] != s.last() by {
                assert(f.contains(f[i]));
                let j = choose|j: int| 0 <= j < t.len() && t[j] == f[i];
                assert(s[j] == f[i]);
            }
        }
    }
}

/// Two filters that agree on a sequence keep the same of it.
pub proof fn lemma_filter_alike<A>(s: Seq<A>, p: spec_fn(A) -> bool, q: spec_fn(A) -> bool)
    requires
        forall|i: int| 0 <= i < s.len() ==> p(#[trigger] s[i]) == q(s[i]),
    ensures
        s.filter(p) == s.filter(q),
    decreases s.len(),
{
    reveal(Seq::filter);
    if s.len() > 0 {
        lemma_filter_alike(s.drop_last(), p, q);
        assert(p(s[s.len() - 1]) == q(s[s.len() - 1]));
    }
}

/// A filter of a filter keeps what both keep.
pub proof fn lemma_filter_twice<A>(s: Seq<A>, p: spec_fn(A) -> bool, q: spec_fn(A) -> bool)
    ensures
        s.filter(p).filter(q) == s.filter(|x: A| p(x) && q(x)),
    decreases s.len(),
{
    reveal(Seq::filter);
    let both = |x: A| p(x) && q(x);
    if s.len() > 0 {
        let t = s.drop_last();
        lemma_filter_twice(t, p, q);
        if p(s.last()) {
            assert(s.filter(p).drop_last() =~= t.filter(p));
        }
    }
}

/// A filter that keeps everything changes nothing.
pub proof fn lemma_filter_all<A>(s: Seq<A>, p: spec_fn(A) -> bool)
    requires
        forall|i: int| 0 <= i < s.len() ==> p(#[trigger] s[i]),
    ensures
        s.filter(p) == s,
    decreases s.len(),
{
    reveal(Seq::filter);
    if s.len() > 0 {
        lemma_filter_all(s.drop_last(), p);
        assert(p(s[s.len() - 1]));
        assert(s.drop_last().push(s.last()) =~= s);
    }
}

/// Filtering one value out of a sequence that holds it once takes its position out.
pub proof fn lemma_filter_one_out<A>(s: Seq<A>, i: int)
    requires
        0 <= i < s.len(),
        s.no_duplicates(),
    ensures
        filter_out(s, s[i]) == s.remove(i),
    decreases s.len(),
{
    reveal(Seq::filter);
    let k = s[i];
    let p = |x: A| x != k;
    let t = s.drop_last();
    if i == s.len() - 1 {
        assert forall|j: int| 0 <= j < t.len() implies p(#[trigger] t[j]) by {
            assert(s[j] != s[i]);
        }
        lemma_filter_all(t, p);
        assert(t =~= s.remove(i));
    } else {
        lemma_filter_one_out(t, i);
        assert(t[i] == k);
        assert(s.last() != k);
        assert(t.remove(i).push(s.last()) =~= s.remove(i));
    }
}

/// The values of `s` that are not in `gone`, in order.
pub open spec fn not_in<A>(s: Seq<A>, gone: Seq<A>) -> Seq<A> {
    s.filter(|x: A| !gone.contains(x))
}

/// One more value is in a prefix that is one longer.
pub proof fn lemma_take_contains<A>(s: Seq<A>, n: int)
    requires
        0 <= n < s.len(),
    ensures
        forall|x: A| #[trigger]
            s.take(n + 1).contains(x) <==> s.take(n).contains(x) || x == s[n],
{
    assert forall|x: A| #[trigger] s.take(n + 1).contains(x) implies s.take(n).contains(x) || x
        == s[n] by {
        let t = s.take(n + 1);
        let i = choose|i: int| 0 <= i < t.len() && t[i] == x;
        if i < n {
            assert(s.take(n)[i] == x);
        }
    }
    assert forall|x: A| s.take(n).contains(x) || x == s[n] implies #[trigger] s.take(
        n + 1,
    ).contains(x) by {
        if x == s[n] {
            assert(s.take(n + 1)[n] == x);
        } else {
            let t = s.take(n);
            let i = choose|i: int| 0 <= i < t.len() && t[i] == x;
            assert(s.take(n + 1)[i] == x);
        }
    }
}

/// Taking one more value out of a sequence.
pub proof fn lemma_not_in_step<A>(s: Seq<A>, gone: Seq<A>, n: int)
    requires
        0 <= n < gone.len(),
    ensures
        filter_out(not_in(s, gone.take(n)), gone[n]) == not_in(s, gone.take(n + 1)),
{
    let p = |x: A| !gone.take(n).contains(x);
    let q = |x: A| x != gone[n];
    lemma_filter_twice(s, p, q);
    lemma_take_contains(gone, n);
    lemma_filter_alike(s, |x: A| p(x) && q(x), |x: A| !gone.take(n + 1).contains(x));
}

/// Taking no value out of a sequence.
pub proof fn lemma_not_in_none<A>(s: Seq<A>, gone: Seq<A>)
    requires
        gone.len() == 0,
    ensures
        not_in(s, gone) == s,
{
    lemma_filter_all(s, |x: A| !gone.contains(x));
}

} // verus!
