use vstd::prelude::*;

verus! {

/// One step of the standard loop pattern for building `s.filter(pred)`:
/// extending the processed prefix by one element either appends that element
/// to the filtered output or leaves the output unchanged.
pub proof fn lemma_filter_take_step<A>(s: Seq<A>, pred: spec_fn(A) -> bool, i: int)
    requires
        0 <= i < s.len(),
    ensures
        s.take(i + 1).filter(pred) == if pred(s[i]) {
            s.take(i).filter(pred).push(s[i])
        } else {
            s.take(i).filter(pred)
        },
{
    reveal(Seq::filter);
    assert(s.take(i + 1).drop_last() =~= s.take(i));
    assert(s.take(i + 1).last() == s[i]);
}

/// Taking the whole sequence is the identity, so the loop pattern's final
/// state is the full filter.
pub proof fn lemma_take_all<A>(s: Seq<A>)
    ensures
        s.take(s.len() as int) =~= s,
{
}

/// Filtering keeps every pairwise relation that held in the original
/// sequence, in order: the filtered rows are a subsequence. Instantiated
/// with "distinct ids" or "distinct emails" this shows that deletion
/// preserves the store's uniqueness invariants.
pub proof fn lemma_filter_preserves_pairwise<A>(
    s: Seq<A>,
    pred: spec_fn(A) -> bool,
    r: spec_fn(A, A) -> bool,
)
    requires
        forall|i: int, j: int| 0 <= i < j < s.len() ==> #[trigger] r(s[i], s[j]),
    ensures
        forall|i: int, j: int|
            0 <= i < j < s.filter(pred).len() ==> #[trigger] r(
                s.filter(pred)[i],
                s.filter(pred)[j],
            ),
    decreases s.len(),
{
    reveal(Seq::filter);
    if s.len() > 0 {
        let t = s.drop_last();
        let last = s.last();
        assert(forall|i: int, j: int| 0 <= i < j < t.len() ==> #[trigger] r(t[i], t[j])) by {
            assert(forall|i: int| 0 <= i < t.len() ==> t[i] == s[i]);
        }
        lemma_filter_preserves_pairwise(t, pred, r);
        if pred(last) {
            let f = t.filter(pred);
            assert(s.filter(pred) == f.push(last));
            assert forall|i: int, j: int|
                0 <= i < j < f.push(last).len() implies #[trigger] r(
                f.push(last)[i],
                f.push(last)[j],
            ) by {
                if j == f.len() {
                    assert(f.push(last)[i] == f[i]);
                    assert(f.contains(f[i]));
                    t.lemma_filter_contains_rev(pred, f[i]);
                    let k = choose|k: int| 0 <= k < t.len() && t[k] == f[i];
                    assert(s[k] == t[k]);
                    assert(r(s[k], s[s.len() - 1]));
                } else {
                    assert(f.push(last)[i] == f[i] && f.push(last)[j] == f[j]);
                }
            }
        }
    }
}

/// Every element of a filtered sequence satisfies any property that all
/// elements of the original sequence satisfy.
pub proof fn lemma_filter_preserves_forall<A>(
    s: Seq<A>,
    pred: spec_fn(A) -> bool,
    p: spec_fn(A) -> bool,
)
    requires
        forall|i: int| 0 <= i < s.len() ==> #[trigger] p(s[i]),
    ensures
        forall|i: int| 0 <= i < s.filter(pred).len() ==> #[trigger] p(s.filter(pred)[i]),
{
    let f = s.filter(pred);
    assert forall|i: int| 0 <= i < f.len() implies #[trigger] p(f[i]) by {
        assert(f.contains(f[i]));
        s.lemma_filter_contains_rev(pred, f[i]);
        let k = choose|k: int| 0 <= k < s.len() && s[k] == f[i];
        assert(p(s[k]));
    }
}

/// Two filters with pointwise-equivalent predicates on a sequence's
/// elements produce the same result.
pub proof fn lemma_filter_congruent<A>(s: Seq<A>, p: spec_fn(A) -> bool, q: spec_fn(A) -> bool)
    requires
        forall|i: int| 0 <= i < s.len() ==> (#[trigger] p(s[i]) <==> q(s[i])),
    ensures
        s.filter(p) == s.filter(q),
    decreases s.len(),
{
    reveal(Seq::filter);
    if s.len() > 0 {
        let t = s.drop_last();
        assert(forall|i: int| 0 <= i < t.len() ==> (#[trigger] p(t[i]) <==> q(t[i]))) by {
            assert(forall|i: int| 0 <= i < t.len() ==> t[i] == s[i]);
        }
        lemma_filter_congruent(t, p, q);
        assert(p(s[s.len() - 1]) <==> q(s[s.len() - 1]));
    }
}

/// An element of the original sequence that satisfies the predicate is
/// kept by the filter.
pub proof fn lemma_filter_keeps<A>(s: Seq<A>, pred: spec_fn(A) -> bool, x: A)
    requires
        s.contains(x),
        pred(x),
    ensures
        s.filter(pred).contains(x),
{
    let i = choose|i: int| 0 <= i < s.len() && s[i] == x;
    s.lemma_filter_contains(pred, i);
}

/// The standard loop pattern for mapping a sequence: extending the
/// processed prefix by one element appends the mapped element.
pub proof fn lemma_map_take_step<A, B>(s: Seq<A>, f: spec_fn(A) -> B, i: int)
    requires
        0 <= i < s.len(),
    ensures
        s.take(i + 1).map_values(f) == s.take(i).map_values(f).push(f(s[i])),
{
    assert(s.take(i + 1).map_values(f) =~= s.take(i).map_values(f).push(f(s[i])));
}


/// Mapping and filtering commute when the predicate on the mapped value
/// agrees with the predicate on the original value.
pub proof fn lemma_filter_map_commute<A, B>(
    s: Seq<A>,
    f: spec_fn(A) -> B,
    p: spec_fn(A) -> bool,
    q: spec_fn(B) -> bool,
)
    requires
        forall|x: A| #[trigger] q(f(x)) == p(x),
    ensures
        s.map_values(f).filter(q) == s.filter(p).map_values(f),
    decreases s.len(),
{
    reveal(Seq::filter);
    if s.len() == 0 {
        assert(s.map_values(f).filter(q) =~= s.filter(p).map_values(f));
    } else {
        let t = s.drop_last();
        let last = s.last();
        lemma_filter_map_commute(t, f, p, q);
        let m = s.map_values(f);
        assert(m.drop_last() =~= t.map_values(f));
        assert(m.last() == f(last));
        assert(m.filter(q) == if q(f(last)) {
            t.map_values(f).filter(q).push(f(last))
        } else {
            t.map_values(f).filter(q)
        });
        if p(last) {
            assert(s.filter(p) == t.filter(p).push(last));
            assert(s.filter(p).map_values(f) =~= t.filter(p).map_values(f).push(f(last)));
        } else {
            assert(s.filter(p) == t.filter(p));
        }
    }
}

} // verus!
