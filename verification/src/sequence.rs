//! Statements about sequences: steps that may fail, and membership.
use vstd::prelude::*;

verus! {

/// The results of a step on every element, or the first error.
pub open spec fn try_map<A, B, E>(s: Seq<A>, f: spec_fn(A) -> Result<B, E>) -> Result<Seq<B>, E>
    decreases s.len(),
{
    if s.len() == 0 {
        Ok(Seq::empty())
    } else {
        match try_map(s.drop_last(), f) {
            Err(e) => Err(e),
            Ok(done) => match f(s.last()) {
                Err(e) => Err(e),
                Ok(b) => Ok(done.push(b)),
            },
        }
    }
}

/// One more element.
pub proof fn lemma_try_map_step<A, B, E>(s: Seq<A>, f: spec_fn(A) -> Result<B, E>, i: int)
    requires
        0 <= i < s.len(),
    ensures
        try_map(s.take(i + 1), f) == match try_map(s.take(i), f) {
            Err(e) => Err(e),
            Ok(done) => match f(s[i]) {
                Err(e) => Err(e),
                Ok(b) => Ok(done.push(b)),
            },
        },
{
    assert(s.take(i + 1).drop_last() =~= s.take(i));
    assert(s.take(i + 1).last() == s[i]);
}

/// An error in a prefix is the error of the whole.
pub proof fn lemma_try_map_error<A, B, E>(s: Seq<A>, f: spec_fn(A) -> Result<B, E>, k: int)
    requires
        0 <= k <= s.len(),
        try_map(s.take(k), f) is Err,
    ensures
        try_map(s, f) == try_map(s.take(k), f),
    decreases s.len() - k,
{
    if k == s.len() {
        assert(s.take(k) =~= s);
    } else {
        lemma_try_map_step(s, f, k);
        lemma_try_map_error(s, f, k + 1);
    }
}

/// Where every step succeeds, the results are the results of the steps.
pub proof fn lemma_try_map_ok<A, B, E>(s: Seq<A>, f: spec_fn(A) -> Result<B, E>)
    ensures
        try_map(s, f) is Ok <==> (forall|i: int| 0 <= i < s.len() ==> (#[trigger] f(s[i])) is Ok),
        try_map(s, f) matches Ok(r) ==> r.len() == s.len() && forall|i: int|
            0 <= i < s.len() ==> f(s[i]) == Ok::<B, E>(#[trigger] r[i]),
    decreases s.len(),
{
    if s.len() > 0 {
        let rest = s.drop_last();
        lemma_try_map_ok(rest, f);
        assert forall|i: int| 0 <= i < rest.len() implies rest[i] == s[i] by {}
        assert(s.last() == s[s.len() - 1]);
        if try_map(rest, f) is Ok {
            assert forall|i: int| 0 <= i < s.len() - 1 implies (#[trigger] f(s[i])) is Ok by {
                assert(rest[i] == s[i]);
                assert(f(rest[i]) is Ok);
            }
            if try_map(s, f) is Ok {
                let r = try_map(s, f)->Ok_0;
                assert forall|i: int| 0 <= i < s.len() implies f(s[i]) == Ok::<B, E>(
                    #[trigger] r[i],
                ) by {
                    if i < s.len() - 1 {
                        assert(r[i] == try_map(rest, f)->Ok_0[i]);
                    }
                }
            }
        } else {
            let i = choose|i: int| 0 <= i < rest.len() && !((#[trigger] f(rest[i])) is Ok);
            assert(!(f(s[i]) is Ok));
        }
    }
}

/// The first element with a property.
pub open spec fn find_first<A>(s: Seq<A>, p: spec_fn(A) -> bool) -> Option<A>
    decreases s.len(),
{
    if s.len() == 0 {
        None
    } else if p(s[0]) {
        Some(s[0])
    } else {
        find_first(s.subrange(1, s.len() as int), p)
    }
}

/// The first match is what `find_first` finds.
pub proof fn lemma_find_first<A>(s: Seq<A>, p: spec_fn(A) -> bool, k: int)
    requires
        0 <= k <= s.len(),
        forall|i: int| 0 <= i < k ==> !p(#[trigger] s[i]),
        k < s.len() ==> p(s[k]),
    ensures
        find_first(s, p) == if k < s.len() {
            Some(s[k])
        } else {
            None
        },
    decreases k,
{
    if k > 0 {
        let rest = s.subrange(1, s.len() as int);
        assert(!p(s[0]));
        assert forall|i: int| 0 <= i < k - 1 implies !p(#[trigger] rest[i]) by {
            assert(!p(s[i + 1]));
        }
        lemma_find_first(rest, p, k - 1);
    }
}

/// Where the first match is: behind all elements, where there is none.
pub proof fn lemma_first_index<A>(s: Seq<A>, p: spec_fn(A) -> bool) -> (k: int)
    ensures
        0 <= k <= s.len(),
        forall|i: int| 0 <= i < k ==> !p(#[trigger] s[i]),
        k < s.len() ==> p(s[k]),
        find_first(s, p) == if k < s.len() {
            Some(s[k])
        } else {
            None
        },
    decreases s.len(),
{
    if s.len() == 0 || p(s[0]) {
        0
    } else {
        let rest = s.subrange(1, s.len() as int);
        let k = lemma_first_index(rest, p);
        assert forall|i: int| 0 <= i < k + 1 implies !p(#[trigger] s[i]) by {
            if i > 0 {
                assert(!p(rest[i - 1]));
            }
        }
        k + 1
    }
}

/// An element at the end is found where nothing before it is.
pub proof fn lemma_find_first_push<A>(s: Seq<A>, x: A, p: spec_fn(A) -> bool)
    ensures
        find_first(s.push(x), p) == if find_first(s, p) is Some {
            find_first(s, p)
        } else if p(x) {
            Some(x)
        } else {
            None
        },
{
    let k = lemma_first_index(s, p);
    assert forall|i: int| 0 <= i < k implies !p(#[trigger] s.push(x)[i]) by {
        assert(!p(s[i]));
    }
    if k < s.len() {
        lemma_find_first(s.push(x), p, k);
    } else if p(x) {
        lemma_find_first(s.push(x), p, k);
    } else {
        lemma_find_first(s.push(x), p, k + 1);
    }
}

/// The same elements give the same results, however they are ordered.
pub proof fn lemma_mapped_multisets<A, B>(a: Seq<A>, b: Seq<A>, f: spec_fn(A) -> B)
    requires
        a.to_multiset() == b.to_multiset(),
    ensures
        a.map_values(f).to_multiset() == b.map_values(f).to_multiset(),
    decreases a.len(),
{
    broadcast use vstd::seq_lib::group_to_multiset_ensures;

    assert(a.len() == a.to_multiset().len() && b.len() == b.to_multiset().len());
    if a.len() == 0 {
        assert(a.map_values(f) =~= b.map_values(f));
    } else {
        let x = a.last();
        assert(a.contains(x));
        assert(a.to_multiset().count(x) > 0);
        assert(b.contains(x));
        let i = choose|i: int| 0 <= i < b.len() && b[i] == x;
        let p = a.drop_last();
        let q = b.remove(i);
        assert(a =~= p.push(x));
        assert(b =~= q.insert(i, x));
        assert(p.to_multiset() =~= a.to_multiset().remove(x));
        assert(q.to_multiset() =~= b.to_multiset().remove(x));
        lemma_mapped_multisets(p, q, f);
        assert(a.map_values(f) =~= p.map_values(f).push(f(x)));
        assert(b.map_values(f) =~= q.map_values(f).insert(i, f(x)));
    }
}

/// A sequence with an element entered behind all that do not come after it.
pub open spec fn insert_ordered<A>(s: Seq<A>, x: A, before: spec_fn(A, A) -> bool) -> Seq<A>
    decreases s.len(),
{
    if s.len() == 0 || !before(x, s.last()) {
        s.push(x)
    } else {
        insert_ordered(s.drop_last(), x, before).push(s.last())
    }
}

/// The elements in order; elements of which neither comes before the other keep their order.
pub open spec fn sort_ordered<A>(s: Seq<A>, before: spec_fn(A, A) -> bool) -> Seq<A>
    decreases s.len(),
{
    if s.len() == 0 {
        Seq::empty()
    } else {
        insert_ordered(sort_ordered(s.drop_last(), before), s.last(), before)
    }
}

/// The place at which an element is entered.
pub proof fn lemma_insert_ordered<A>(s: Seq<A>, x: A, before: spec_fn(A, A) -> bool, k: int)
    requires
        0 <= k <= s.len(),
        k > 0 ==> !before(x, s[k - 1]),
        forall|i: int| k <= i < s.len() ==> before(x, #[trigger] s[i]),
    ensures
        insert_ordered(s, x, before) == s.insert(k, x),
    decreases s.len(),
{
    if k == s.len() {
        assert(s.insert(k, x) =~= s.push(x));
    } else {
        assert(s.last() == s[s.len() - 1]);
        lemma_insert_ordered(s.drop_last(), x, before, k);
        assert(s.drop_last().insert(k, x).push(s.last()) =~= s.insert(k, x));
    }
}

/// Whether no element comes before an earlier one.
pub open spec fn is_ordered<A>(s: Seq<A>, before: spec_fn(A, A) -> bool) -> bool {
    forall|i: int, j: int| 0 <= i < j < s.len() ==> !before(#[trigger] s[j], #[trigger] s[i])
}

/// Whether a relation orders elements: two elements are not before each other, and an element
/// before a second is before every third that is not before the second.
pub open spec fn is_order_relation<A>(before: spec_fn(A, A) -> bool) -> bool {
    &&& forall|x: A, y: A| #[trigger] before(x, y) ==> !before(y, x)
    &&& forall|x: A, y: A, z: A|
        #[trigger] before(x, y) && !(#[trigger] before(z, y)) ==> before(x, z)
}

proof fn lemma_insert_keeps_order<A>(s: Seq<A>, x: A, before: spec_fn(A, A) -> bool)
    requires
        is_order_relation(before),
        is_ordered(s, before),
    ensures
        is_ordered(insert_ordered(s, x, before), before),
        insert_ordered(s, x, before).to_multiset() == s.to_multiset().insert(x),
        insert_ordered(s, x, before).len() == s.len() + 1,
        forall|i: int|
            0 <= i < insert_ordered(s, x, before).len() ==> (#[trigger] insert_ordered(
                s,
                x,
                before,
            )[i]) == x || s.contains(insert_ordered(s, x, before)[i]),
    decreases s.len(),
{
    broadcast use vstd::seq_lib::group_to_multiset_ensures;

    if s.len() == 0 || !before(x, s.last()) {
        let out = s.push(x);
        assert forall|i: int, j: int| 0 <= i < j < out.len() implies !before(
            #[trigger] out[j],
            #[trigger] out[i],
        ) by {
            if j == s.len() && before(x, s[i]) {
                if i < s.len() - 1 {
                    assert(!before(s[s.len() - 1], s[i]));
                    assert(before(x, s.last()));
                }
            }
        }
        assert forall|i: int| 0 <= i < out.len() implies (#[trigger] out[i]) == x || s.contains(
            out[i],
        ) by {
            if i < s.len() {
                assert(out[i] == s[i]);
            }
        }
    } else {
        let rest = s.drop_last();
        assert forall|i: int, j: int| 0 <= i < j < rest.len() implies !before(
            #[trigger] rest[j],
            #[trigger] rest[i],
        ) by {
            assert(rest[i] == s[i] && rest[j] == s[j]);
        }
        lemma_insert_keeps_order(rest, x, before);
        let inner = insert_ordered(rest, x, before);
        let out = inner.push(s.last());
        assert forall|i: int| 0 <= i < inner.len() implies !before(s.last(), #[trigger] inner[i]) by {
            if inner[i] != x {
                let k = choose|k: int| 0 <= k < rest.len() && rest[k] == inner[i];
                assert(!before(s[s.len() - 1], s[k]));
            }
        }
        assert forall|i: int, j: int| 0 <= i < j < out.len() implies !before(
            #[trigger] out[j],
            #[trigger] out[i],
        ) by {
            assert(out[i] == inner[i]);
            if j < inner.len() {
                assert(out[j] == inner[j]);
            }
        }
        assert forall|i: int| 0 <= i < out.len() implies (#[trigger] out[i]) == x || s.contains(
            out[i],
        ) by {
            if i < inner.len() {
                assert(out[i] == inner[i]);
                if inner[i] != x {
                    let k = choose|k: int| 0 <= k < rest.len() && rest[k] == inner[i];
                    assert(s[k] == out[i]);
                }
            } else {
                assert(s[s.len() - 1] == out[i]);
            }
        }
        assert(s =~= rest.push(s.last()));
        assert(out.to_multiset() =~= s.to_multiset().insert(x));
    }
}

/// Sorting puts the elements in order and neither loses nor adds one.
pub proof fn sorting_orders<A>(s: Seq<A>, before: spec_fn(A, A) -> bool)
    requires
        is_order_relation(before),
    ensures
        is_ordered(sort_ordered(s, before), before),
        sort_ordered(s, before).to_multiset() == s.to_multiset(),
        sort_ordered(s, before).len() == s.len(),
    decreases s.len(),
{
    broadcast use vstd::seq_lib::group_to_multiset_ensures;

    if s.len() > 0 {
        sorting_orders(s.drop_last(), before);
        lemma_insert_keeps_order(sort_ordered(s.drop_last(), before), s.last(), before);
        assert(s =~= s.drop_last().push(s.last()));
    } else {
        assert(sort_ordered(s, before) =~= s);
    }
}

/// Whether a list of integers holds a number.
pub fn contains_i64(list: &Vec<i64>, x: i64) -> (r: bool)
    ensures
        r == list@.contains(x),
{
    let mut i: usize = 0;
    while i < list.len()
        invariant
            i <= list.len(),
            forall|j: int| 0 <= j < i ==> #[trigger] list@[j] != x,
        decreases list.len() - i,
    {
        if list[i] == x {
            assert(list@[i as int] == x);
            return true;
        }
        i += 1;
    }
    false
}

} // verus!
