//! Facts about filtered sequences.

use vstd::prelude::*;

verus! {

/// A filtered sequence holds the elements that pass, and no others.
pub proof fn filter_members<A>(s: Seq<A>, p: spec_fn(A) -> bool)
    ensures
        forall|e: A| #[trigger] s.filter(p).contains(e) <==> s.contains(e) && p(e),
    decreases s.len(),
{
    reveal(Seq::filter);
    if s.len() > 0 {
        let rest = s.drop_last();
        filter_members(rest, p);
        assert forall|e: A| #[trigger] s.filter(p).contains(e) <==> s.contains(e) && p(e) by {
            assert(s.contains(e) <==> rest.contains(e) || e == s.last()) by {
                assert(s =~= rest.push(s.last()));
                if rest.contains(e) {
                    let i = choose|i: int| 0 <= i < rest.len() && rest[i] == e;
                    assert(s[i] == e);
                }
                if e == s.last() {
                    assert(s[s.len() - 1] == e);
                }
                if s.contains(e) && e != s.last() {
                    let i = choose|i: int| 0 <= i < s.len() && s[i] == e;
                    assert(rest[i] == e);
                }
            }
            let kept = rest.filter(p);
            if p(s.last()) {
                assert(kept.push(s.last()).contains(e) <==> kept.contains(e) || e == s.last()) by {
                    if kept.contains(e) {
                        let i = choose|i: int| 0 <= i < kept.len() && kept[i] == e;
                        assert(kept.push(s.last())[i] == e);
                    }
                    assert(kept.push(s.last())[kept.len() as int] == s.last());
                }
            }
        }
    }
}

/// Filtering keeps elements apart that were apart.
pub proof fn filter_no_duplicates<A>(s: Seq<A>, p: spec_fn(A) -> bool)
    requires
        s.no_duplicates(),
    ensures
        s.filter(p).no_duplicates(),
    decreases s.len(),
{
    reveal(Seq::filter);
    if s.len() > 0 {
        let rest = s.drop_last();
        filter_no_duplicates(rest, p);
        filter_members(rest, p);
        let kept = rest.filter(p);
        assert(!kept.contains(s.last()));
        assert forall|i: int| 0 <= i < kept.len() implies kept[i] != s.last() by {
            assert(kept.contains(kept[i]));
        }
    }
}

/// Filtering keeps an increasing sequence increasing.
pub proof fn filter_increasing(s: Seq<int>, p: spec_fn(int) -> bool)
    requires
        forall|i: int, j: int| 0 <= i < j < s.len() ==> s[i] < s[j],
    ensures
        forall|i: int, j: int| 0 <= i < j < s.filter(p).len() ==> s.filter(p)[i] < s.filter(p)[j],
    decreases s.len(),
{
    reveal(Seq::filter);
    if s.len() > 0 {
        let rest = s.drop_last();
        filter_increasing(rest, p);
        filter_members(rest, p);
        let kept = rest.filter(p);
        assert forall|i: int| 0 <= i < kept.len() implies kept[i] < s.last() by {
            assert(kept.contains(kept[i]));
            let j = choose|j: int| 0 <= j < rest.len() && rest[j] == kept[i];
            assert(s[j] < s[s.len() - 1]);
        }
    }
}

/// Two tests that agree on the elements filter alike.
pub proof fn filter_agrees<A>(s: Seq<A>, p: spec_fn(A) -> bool, q: spec_fn(A) -> bool)
    requires
        forall|i: int| 0 <= i < s.len() ==> p(#[trigger] s[i]) == q(s[i]),
    ensures
        s.filter(p) == s.filter(q),
    decreases s.len(),
{
    reveal(Seq::filter);
    if s.len() > 0 {
        let rest = s.drop_last();
        assert forall|i: int| 0 <= i < rest.len() implies p(#[trigger] rest[i]) == q(rest[i]) by {
            assert(rest[i] == s[i]);
        }
        filter_agrees(rest, p, q);
        assert(p(s[s.len() - 1]) == q(s[s.len() - 1]));
    }
}

/// A test that every element passes leaves the sequence as it is.
pub proof fn filter_all<A>(s: Seq<A>, p: spec_fn(A) -> bool)
    requires
        forall|i: int| 0 <= i < s.len() ==> p(#[trigger] s[i]),
    ensures
        s.filter(p) == s,
    decreases s.len(),
{
    reveal(Seq::filter);
    if s.len() > 0 {
        let rest = s.drop_last();
        assert forall|i: int| 0 <= i < rest.len() implies p(#[trigger] rest[i]) by {
            assert(rest[i] == s[i]);
        }
        filter_all(rest, p);
        assert(p(s[s.len() - 1]));
        assert(s =~= rest.push(s.last()));
    } else {
        assert(s.filter(p) =~= s);
    }
}

/// A test that no element passes leaves nothing.
pub proof fn filter_none<A>(s: Seq<A>, p: spec_fn(A) -> bool)
    requires
        forall|i: int| 0 <= i < s.len() ==> !p(#[trigger] s[i]),
    ensures
        s.filter(p) == Seq::<A>::empty(),
    decreases s.len(),
{
    reveal(Seq::filter);
    if s.len() > 0 {
        let rest = s.drop_last();
        assert forall|i: int| 0 <= i < rest.len() implies !p(#[trigger] rest[i]) by {
            assert(rest[i] == s[i]);
        }
        filter_none(rest, p);
        assert(!p(s[s.len() - 1]));
    } else {
        assert(s.filter(p) =~= s);
    }
}

/// The element at `n` comes first when it passes and those before it do not;
/// what follows it is filtered on its own.
pub proof fn filter_first<A>(s: Seq<A>, p: spec_fn(A) -> bool, n: int)
    requires
        0 <= n < s.len(),
        p(s[n]),
        forall|i: int| 0 <= i < n ==> !p(#[trigger] s[i]),
    ensures
        s.filter(p) == seq![s[n]] + s.skip(n + 1).filter(p),
{
    let a = s.take(n);
    let b = seq![s[n]];
    let c = s.skip(n + 1);
    assert(s =~= a + b + c);
    Seq::filter_distributes_over_add(a + b, c, p);
    Seq::filter_distributes_over_add(a, b, p);
    filter_none(a, p);
    filter_all(b, p);
    assert((a + b).filter(p) =~= b);
}

/// Where an element passes, one of them passes first.
pub proof fn first_passing<A>(s: Seq<A>, p: spec_fn(A) -> bool) -> (n: int)
    requires
        s.filter(p).len() > 0,
    ensures
        0 <= n < s.len(),
        p(s[n]),
        forall|i: int| 0 <= i < n ==> !p(#[trigger] s[i]),
    decreases s.len(),
{
    reveal(Seq::filter);
    let rest = s.drop_last();
    if rest.filter(p).len() > 0 {
        let n = first_passing(rest, p);
        assert forall|i: int| 0 <= i < n implies !p(#[trigger] s[i]) by {
            assert(rest[i] == s[i]);
        }
        assert(rest[n] == s[n]);
        n
    } else {
        assert forall|i: int| 0 <= i < rest.len() implies !p(#[trigger] s[i]) by {
            filter_members(rest, p);
            assert(rest.contains(rest[i]));
            assert(!rest.filter(p).contains(rest[i]));
        }
        s.len() - 1
    }
}

} // verus!
