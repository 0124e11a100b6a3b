use vstd::prelude::*;

verus! {

/// Picking from a sequence that has grown by one.
pub proof fn filter_of_push<A>(s: Seq<A>, a: A, pred: spec_fn(A) -> bool)
    ensures
        s.push(a).filter(pred) == if pred(a) {
            s.filter(pred).push(a)
        } else {
            s.filter(pred)
        },
{
    reveal(Seq::filter);
    assert(s.push(a).drop_last() =~= s);
}

/// Picking from the tail of a sequence, its first element apart.
pub proof fn filter_of_rest<A>(s: Seq<A>, i: int, pred: spec_fn(A) -> bool)
    requires
        0 <= i < s.len(),
    ensures
        s.skip(i).filter(pred) == if pred(s[i]) {
            seq![s[i]] + s.skip(i + 1).filter(pred)
        } else {
            s.skip(i + 1).filter(pred)
        },
{
    let first = seq![s[i]];
    assert(s.skip(i) =~= first + s.skip(i + 1));
    Seq::filter_distributes_over_add(first, s.skip(i + 1), pred);
    assert(first =~= Seq::<A>::empty().push(s[i]));
    filter_of_push(Seq::<A>::empty(), s[i], pred);
    filter_none(Seq::<A>::empty(), pred);
    assert(s.skip(i).filter(pred) =~= if pred(s[i]) {
        first + s.skip(i + 1).filter(pred)
    } else {
        s.skip(i + 1).filter(pred)
    });
}

/// Nothing is picked where the predicate holds of nothing.
pub proof fn filter_none<A>(s: Seq<A>, pred: spec_fn(A) -> bool)
    requires
        forall|i: int| #![trigger s[i]] 0 <= i < s.len() ==> !pred(s[i]),
    ensures
        s.filter(pred) == Seq::<A>::empty(),
    decreases s.len(),
{
    reveal(Seq::filter);
    if s.len() > 0 {
        assert forall|i: int| #![trigger s.drop_last()[i]] 0 <= i < s.drop_last().len() implies !pred(s.drop_last()[i]) by {
            assert(s.drop_last()[i] == s[i]);
        }
        filter_none(s.drop_last(), pred);
        assert(!pred(s[s.len() - 1]));
    }
}

/// Everything is picked where the predicate holds of everything.
pub proof fn filter_all<A>(s: Seq<A>, pred: spec_fn(A) -> bool)
    requires
        forall|i: int| #![trigger s[i]] 0 <= i < s.len() ==> pred(s[i]),
    ensures
        s.filter(pred) == s,
    decreases s.len(),
{
    reveal(Seq::filter);
    if s.len() > 0 {
        assert forall|i: int| #![trigger s.drop_last()[i]] 0 <= i < s.drop_last().len() implies pred(s.drop_last()[i]) by {
            assert(s.drop_last()[i] == s[i]);
        }
        filter_all(s.drop_last(), pred);
        assert(pred(s[s.len() - 1]));
    }
    assert(s.filter(pred) =~= s);
}

/// Two predicates that agree on a sequence pick the same from it.
pub proof fn filter_same<A>(s: Seq<A>, p: spec_fn(A) -> bool, q: spec_fn(A) -> bool)
    requires
        forall|i: int| #![trigger s[i]] 0 <= i < s.len() ==> p(s[i]) == q(s[i]),
    ensures
        s.filter(p) == s.filter(q),
    decreases s.len(),
{
    reveal(Seq::filter);
    if s.len() > 0 {
        assert forall|i: int| #![trigger s.drop_last()[i]] 0 <= i < s.drop_last().len()
            implies p(s.drop_last()[i]) == q(s.drop_last()[i]) by {
            assert(s.drop_last()[i] == s[i]);
        }
        filter_same(s.drop_last(), p, q);
        assert(p(s[s.len() - 1]) == q(s[s.len() - 1]));
    }
}

/// Picking twice is picking by both predicates.
pub proof fn filter_twice<A>(s: Seq<A>, p: spec_fn(A) -> bool, q: spec_fn(A) -> bool, both: spec_fn(A) -> bool)
    requires
        forall|a: A| #![trigger both(a)] both(a) == (p(a) && q(a)),
    ensures
        s.filter(p).filter(q) == s.filter(both),
    decreases s.len(),
{
    reveal(Seq::filter);
    if s.len() > 0 {
        let rest = s.drop_last();
        filter_twice(rest, p, q, both);
        filter_of_push(rest.filter(p), s.last(), q);
        assert(both(s.last()) == (p(s.last()) && q(s.last())));
    } else {
        assert(s.filter(p) =~= s);
    }
}

/// Picking by `p`, and of the rest (`not_p`) by `q`, gives what picking by `q` alone does, where `q`
/// takes in `p` and nothing that only `q` takes stands before what `p` takes.
pub proof fn filter_in_two<A>(
    s: Seq<A>,
    p: spec_fn(A) -> bool,
    not_p: spec_fn(A) -> bool,
    q: spec_fn(A) -> bool,
)
    requires
        forall|a: A| #![trigger not_p(a)] not_p(a) == !p(a),
        forall|a: A| #![trigger p(a)] p(a) ==> q(a),
        forall|i: int, j: int| #![trigger s[i], s[j]] 0 <= i < j < s.len() && not_p(s[i]) && p(s[j]) ==> !q(s[i]),
    ensures
        s.filter(p) + s.filter(not_p).filter(q) == s.filter(q),
    decreases s.len(),
{
    reveal(Seq::filter);
    if s.len() == 0 {
        assert(s.filter(p) + s.filter(not_p).filter(q) =~= s.filter(q));
    } else {
        let rest = s.drop_last();
        let a = s.last();
        assert(s =~= rest.push(a));
        assert forall|i: int, j: int| #![trigger rest[i], rest[j]] 0 <= i < j < rest.len() && not_p(rest[i]) && p(rest[j])
            implies !q(rest[i]) by {
            assert(rest[i] == s[i] && rest[j] == s[j]);
        }
        filter_in_two(rest, p, not_p, q);
        assert(not_p(a) == !p(a));
        filter_of_push(rest, a, p);
        filter_of_push(rest, a, not_p);
        filter_of_push(rest, a, q);
        filter_of_push(rest.filter(not_p), a, q);
        if p(a) {
            let left = rest.filter(not_p);
            assert forall|i: int| #![trigger left[i]] 0 <= i < left.len() implies !q(left[i]) by {
                let k = filter_keeps(rest, not_p, i);
                assert(rest[k] == s[k] && s[s.len() - 1] == a);
            }
            filter_none(left, q);
        }
        assert(s.filter(p) + s.filter(not_p).filter(q) =~= s.filter(q));
    }
}

/// What is picked satisfies the predicate and was there before.
pub proof fn filter_keeps<A>(s: Seq<A>, pred: spec_fn(A) -> bool, i: int) -> (k: int)
    requires
        0 <= i < s.filter(pred).len(),
    ensures
        0 <= k < s.len(),
        s[k] == s.filter(pred)[i],
        pred(s.filter(pred)[i]),
    decreases s.len(),
{
    reveal(Seq::filter);
    if s.len() == 0 {
        0
    } else if pred(s.last()) && i == s.filter(pred).len() - 1 {
        s.len() - 1
    } else {
        filter_keeps(s.drop_last(), pred, i)
    }
}

/// Two predicates of which exactly one holds of everything split a sequence.
pub proof fn filter_splits<A>(s: Seq<A>, p: spec_fn(A) -> bool, q: spec_fn(A) -> bool)
    requires
        forall|a: A| #![trigger p(a)] p(a) == !q(a),
    ensures
        s.to_multiset() == s.filter(p).to_multiset().add(s.filter(q).to_multiset()),
    decreases s.len(),
{
    reveal(Seq::filter);
    s.to_multiset_ensures();
    if s.len() == 0 {
        assert(s.to_multiset() =~= s.filter(p).to_multiset().add(s.filter(q).to_multiset()));
    } else {
        let rest = s.drop_last();
        filter_splits(rest, p, q);
        rest.to_multiset_ensures();
        rest.filter(p).to_multiset_ensures();
        rest.filter(q).to_multiset_ensures();
        assert(s =~= rest.push(s.last()));
        assert(s.to_multiset() =~= s.filter(p).to_multiset().add(s.filter(q).to_multiset()));
    }
}

} // verus!
