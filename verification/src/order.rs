//! Sorting that keeps equals in place.
use vstd::prelude::*;

verus! {

/// The items of `s` whose key is `k`, in order.
pub open spec fn of_key<A>(s: Seq<A>, key: spec_fn(A) -> int, k: int) -> Seq<A>
    decreases s.len(),
{
    if s.len() == 0 {
        Seq::empty()
    } else if key(s[0]) == k {
        seq![s[0]] + of_key(s.drop_first(), key, k)
    } else {
        of_key(s.drop_first(), key, k)
    }
}

/// The keys rise, or stay as they are.
pub open spec fn rising<A>(s: Seq<A>, key: spec_fn(A) -> int) -> bool {
    forall|i: int, j: int|
        0 <= i < j < s.len() ==> key(#[trigger] s[i]) <= key(#[trigger] s[j])
}

/// `to` holds the items of `from` by rising key, those of one key in the order in which
/// `from` has them.
pub open spec fn sorted_from<A>(to: Seq<A>, from: Seq<A>, key: spec_fn(A) -> int) -> bool {
    &&& rising(to, key)
    &&& forall|k: int| #[trigger] of_key(to, key, k) == of_key(from, key, k)
}

pub proof fn lemma_of_key_add<A>(a: Seq<A>, b: Seq<A>, key: spec_fn(A) -> int, k: int)
    ensures
        of_key(a + b, key, k) == of_key(a, key, k) + of_key(b, key, k),
    decreases a.len(),
{
    if a.len() == 0 {
        assert(a + b =~= b);
        assert(of_key(a, key, k) + of_key(b, key, k) =~= of_key(b, key, k));
    } else {
        lemma_of_key_add(a.drop_first(), b, key, k);
        assert((a + b).drop_first() =~= a.drop_first() + b);
        assert(of_key(a + b, key, k) =~= of_key(a, key, k) + of_key(b, key, k));
    }
}

/// Items of other keys do not count.
pub proof fn lemma_of_other_keys<A>(s: Seq<A>, key: spec_fn(A) -> int, k: int)
    requires
        forall|i: int| 0 <= i < s.len() ==> key(#[trigger] s[i]) != k,
    ensures
        of_key(s, key, k) == Seq::<A>::empty(),
    decreases s.len(),
{
    if s.len() > 0 {
        assert forall|i: int| 0 <= i < s.drop_first().len() implies key(
            #[trigger] s.drop_first()[i],
        ) != k by {
            assert(s.drop_first()[i] == s[i + 1]);
        }
        lemma_of_other_keys(s.drop_first(), key, k);
    }
}

/// Putting `x` in front of the first item whose key is not below its own keeps the
/// order, with `x` in front of its equals.
pub proof fn lemma_put_in<A>(s: Seq<A>, x: A, at: int, key: spec_fn(A) -> int, from: Seq<A>)
    requires
        sorted_from(s, from, key),
        0 <= at <= s.len(),
        forall|i: int| 0 <= i < at ==> key(#[trigger] s[i]) < key(x),
        at < s.len() ==> key(x) <= key(s[at]),
    ensures
        sorted_from(s.insert(at, x), seq![x] + from, key),
{
    let t = s.insert(at, x);
    assert forall|i: int, j: int| 0 <= i < j < t.len() implies key(#[trigger] t[i]) <= key(
        #[trigger] t[j],
    ) by {
        let i0 = if i > at {
            i - 1
        } else {
            i
        };
        let j0 = if j > at {
            j - 1
        } else {
            j
        };
        assert(i != at ==> t[i] == s[i0]);
        assert(j != at ==> t[j] == s[j0]);
    }
    assert forall|k: int| #[trigger] of_key(t, key, k) == of_key(seq![x] + from, key, k) by {
        let front = s.take(at);
        let back = s.skip(at);
        assert(t =~= front + (seq![x] + back));
        assert(s =~= front + back);
        lemma_of_key_add(front, seq![x] + back, key, k);
        lemma_of_key_add(seq![x], back, key, k);
        lemma_of_key_add(front, back, key, k);
        lemma_of_key_add(seq![x], from, key, k);
        assert(of_key(s, key, k) == of_key(from, key, k));
        if key(x) == k {
            assert forall|i: int| 0 <= i < front.len() implies key(#[trigger] front[i]) != k by {
                assert(front[i] == s[i]);
            }
            lemma_of_other_keys(front, key, k);
            assert(of_key(t, key, k) =~= of_key(seq![x], key, k) + of_key(back, key, k));
            assert(of_key(s, key, k) =~= of_key(back, key, k));
        } else {
            lemma_of_other_keys(seq![x], key, k);
            assert(of_key(t, key, k) =~= of_key(front, key, k) + of_key(back, key, k));
            assert(of_key(seq![x] + from, key, k) =~= of_key(from, key, k));
        }
    }
}

proof fn lemma_of_key_none<A>(s: Seq<A>, key: spec_fn(A) -> int, i: int)
    requires
        0 <= i < s.len(),
    ensures
        of_key(s, key, key(s[i])).len() > 0,
    decreases s.len(),
{
    if key(s[0]) != key(s[i]) {
        assert(s.drop_first()[i - 1] == s[i]);
        lemma_of_key_none(s.drop_first(), key, i - 1);
    }
}

proof fn lemma_of_key_in<A>(s: Seq<A>, key: spec_fn(A) -> int, k: int)
    requires
        of_key(s, key, k).len() > 0,
    ensures
        exists|i: int| 0 <= i < s.len() && key(#[trigger] s[i]) == k,
    decreases s.len(),
{
    if s.len() > 0 && key(s[0]) != k {
        lemma_of_key_in(s.drop_first(), key, k);
        let i = choose|i: int| 0 <= i < s.drop_first().len() && key(#[trigger] s.drop_first()[i]) == k;
        assert(key(s[i + 1]) == k);
    }
}

proof fn lemma_same_order<A>(s: Seq<A>, t: Seq<A>, key: spec_fn(A) -> int)
    requires
        rising(s, key),
        rising(t, key),
        forall|k: int| #[trigger] of_key(s, key, k) == of_key(t, key, k),
    ensures
        s == t,
    decreases s.len(),
{
    if s.len() == 0 {
        if t.len() > 0 {
            lemma_of_key_none(t, key, 0);
            assert(of_key(s, key, key(t[0])) == of_key(t, key, key(t[0])));
        }
        assert(s =~= t);
    } else {
        let k = key(s[0]);
        lemma_of_key_none(s, key, 0);
        assert(of_key(s, key, k) == of_key(t, key, k));
        lemma_of_key_in(t, key, k);
        let i = choose|i: int| 0 <= i < t.len() && key(#[trigger] t[i]) == k;
        lemma_of_key_none(t, key, 0);
        assert(of_key(s, key, key(t[0])) == of_key(t, key, key(t[0])));
        lemma_of_key_in(s, key, key(t[0]));
        let j = choose|j: int| 0 <= j < s.len() && key(#[trigger] s[j]) == key(t[0]);
        assert(key(t[0]) <= key(t[i]));
        assert(key(s[0]) <= key(s[j]));
        assert(key(t[0]) == k);
        let (s1, t1) = (s.drop_first(), t.drop_first());
        assert(of_key(s, key, k)[0] == s[0]);
        assert(of_key(t, key, k)[0] == t[0]);
        assert forall|m: int| #[trigger] of_key(s1, key, m) == of_key(t1, key, m) by {
            assert(of_key(s, key, m) == of_key(t, key, m));
            if m == k {
                assert(of_key(s, key, m).drop_first() =~= of_key(s1, key, m));
                assert(of_key(t, key, m).drop_first() =~= of_key(t1, key, m));
            }
        }
        assert forall|a: int, b: int| 0 <= a < b < s1.len() implies key(#[trigger] s1[a]) <= key(
            #[trigger] s1[b],
        ) by {
            assert(s1[a] == s[a + 1] && s1[b] == s[b + 1]);
        }
        assert forall|a: int, b: int| 0 <= a < b < t1.len() implies key(#[trigger] t1[a]) <= key(
            #[trigger] t1[b],
        ) by {
            assert(t1[a] == t[a + 1] && t1[b] == t[b + 1]);
        }
        lemma_same_order(s1, t1, key);
        assert(s =~= seq![s[0]] + s1);
        assert(t =~= seq![t[0]] + t1);
    }
}

/// There is one way only to sort a list by a key without moving equals.
pub proof fn sorting_is_unique<A>(s: Seq<A>, t: Seq<A>, from: Seq<A>, key: spec_fn(A) -> int)
    requires
        sorted_from(s, from, key),
        sorted_from(t, from, key),
    ensures
        s == t,
{
    assert forall|k: int| #[trigger] of_key(s, key, k) == of_key(t, key, k) by {
        assert(of_key(t, key, k) == of_key(from, key, k));
    }
    lemma_same_order(s, t, key);
}

/// Sorting loses nothing and adds nothing.
pub proof fn sorting_keeps_the_items<A>(
    to: Seq<A>,
    from: Seq<A>,
    key: spec_fn(A) -> int,
    x: A,
)
    requires
        sorted_from(to, from, key),
    ensures
        to.contains(x) <==> from.contains(x),
{
    let k = key(x);
    lemma_of_key_has(to, key, k, x);
    lemma_of_key_has(from, key, k, x);
    assert(of_key(to, key, k) == of_key(from, key, k));
}

proof fn lemma_of_key_has<A>(s: Seq<A>, key: spec_fn(A) -> int, k: int, x: A)
    requires
        key(x) == k,
    ensures
        of_key(s, key, k).contains(x) <==> s.contains(x),
    decreases s.len(),
{
    if s.len() > 0 {
        let t = s.drop_first();
        lemma_of_key_has(t, key, k, x);
        assert(s.contains(x) <==> s[0] == x || t.contains(x)) by {
            if t.contains(x) {
                let i = choose|i: int| 0 <= i < t.len() && t[i] == x;
                assert(s[i + 1] == x);
            }
            if s.contains(x) && s[0] != x {
                let i = choose|i: int| 0 <= i < s.len() && s[i] == x;
                assert(t[i - 1] == x);
            }
        }
        if key(s[0]) == k {
            let rest = of_key(t, key, k);
            let all = seq![s[0]] + rest;
            assert(all.contains(x) <==> s[0] == x || rest.contains(x)) by {
                assert(all[0] == s[0]);
                if rest.contains(x) {
                    let i = choose|i: int| 0 <= i < rest.len() && rest[i] == x;
                    assert(all[i + 1] == x);
                }
                if all.contains(x) && s[0] != x {
                    let i = choose|i: int| 0 <= i < all.len() && all[i] == x;
                    assert(rest[i - 1] == x);
                }
            }
        }
    }
}

} // verus!
