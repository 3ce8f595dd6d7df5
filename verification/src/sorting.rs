//! Sorting the resources of one list: dated resources first, newest first,
//! then the undated ones; names break ties. The sort is stable.

use vstd::prelude::*;
use crate::order::{Timestamp, earlier, is_earlier, name_before, name_less,
    lemma_name_before_irreflexive, lemma_name_before_transitive, lemma_name_before_total};
use crate::resource::GarminResource;

verus! {

/// What the order of resources looks at: the last update and the name.
pub type SortKey = (Option<Timestamp>, Seq<char>);

/// The sort key of a resource. With `ties` names order resources with the
/// same date; without it only resources without a date are ordered by name.
pub open spec fn sort_key(r: GarminResource, ties: bool) -> SortKey {
    match r.last_updated {
        Some(t) => (Some(t), if ties { r.name@ } else { Seq::empty() }),
        None => (None, r.name@),
    }
}

/// Whether a resource with key `a` is listed strictly before one with key
/// `b`: a later update comes first, a resource with a date comes before one
/// without, and equal dates (or two missing ones) are ordered by name.
pub open spec fn key_before(a: SortKey, b: SortKey) -> bool {
    match (a.0, b.0) {
        (Some(x), Some(y)) => earlier(y, x) || (x == y && name_before(a.1, b.1)),
        (Some(_), None) => true,
        (None, Some(_)) => false,
        (None, None) => name_before(a.1, b.1),
    }
}

/// Whether resource `a` is listed strictly before resource `b`.
pub open spec fn listed_before(a: GarminResource, b: GarminResource, ties: bool) -> bool {
    key_before(sort_key(a, ties), sort_key(b, ties))
}

/// Every resource is listed no later than the ones after it.
pub open spec fn is_listed_in_order(s: Seq<GarminResource>, ties: bool) -> bool {
    forall|i: int, j: int| 0 <= i < j < s.len() ==> !listed_before(#[trigger] s[j], #[trigger] s[i], ties)
}

/// The resources of `s` that have sort key `k`, in their order in `s`.
pub open spec fn with_key(s: Seq<GarminResource>, k: SortKey, ties: bool) -> Seq<GarminResource> {
    s.filter(|r: GarminResource| sort_key(r, ties) == k)
}

/// `out` is `input` sorted stably: in order, and the resources that share a
/// sort key keep their relative order (so `out` is a permutation of
/// `input`).
pub open spec fn is_stable_sort_of(out: Seq<GarminResource>, input: Seq<GarminResource>, ties: bool) -> bool {
    &&& is_listed_in_order(out, ties)
    &&& forall|k: SortKey| #[trigger] with_key(out, k, ties) == with_key(input, k, ties)
    &&& out.to_multiset() == input.to_multiset()
}

/// No key comes before itself.
pub proof fn lemma_key_irreflexive(a: SortKey)
    ensures
        !key_before(a, a),
{
    lemma_name_before_irreflexive(a.1);
}

/// The order on keys is transitive.
pub proof fn lemma_key_transitive(a: SortKey, b: SortKey, c: SortKey)
    requires
        key_before(a, b),
        key_before(b, c),
    ensures
        key_before(a, c),
{
    if name_before(a.1, b.1) && name_before(b.1, c.1) {
        lemma_name_before_transitive(a.1, b.1, c.1);
    }
}

/// Of two different keys one comes before the other.
pub proof fn lemma_key_total(a: SortKey, b: SortKey)
    ensures
        key_before(a, b) || key_before(b, a) || a == b,
{
    lemma_name_before_total(a.1, b.1);
}

/// Whether `a` is listed strictly before `b`.
pub fn is_listed_before(a: &GarminResource, b: &GarminResource, ties: bool) -> (r: bool)
    ensures
        r == listed_before(*a, *b, ties),
{
    match (&a.last_updated, &b.last_updated) {
        (Some(x), Some(y)) => {
            if is_earlier(y, x) {
                true
            } else if x == y && ties {
                name_less(a.name.as_str(), b.name.as_str())
            } else {
                proof {
                    lemma_name_before_irreflexive(Seq::<char>::empty());
                }
                false
            }
        },
        (Some(_), None) => true,
        (None, Some(_)) => false,
        (None, None) => name_less(a.name.as_str(), b.name.as_str()),
    }
}

/// The index at which `x` goes into the ordered `out` so that the order is
/// kept and `x` comes after every resource that is not listed after it.
fn insertion_point(out: &Vec<GarminResource>, x: &GarminResource, ties: bool) -> (p: usize)
    requires
        is_listed_in_order(out@, ties),
    ensures
        p <= out@.len(),
        forall|i: int| 0 <= i < p ==> !listed_before(*x, #[trigger] out@[i], ties),
        forall|i: int| p <= i < out@.len() ==> listed_before(*x, #[trigger] out@[i], ties),
{
    let mut p: usize = 0;
    while p < out.len() && !is_listed_before(x, &out[p], ties)
        invariant
            p <= out@.len(),
            forall|i: int| 0 <= i < p ==> !listed_before(*x, #[trigger] out@[i], ties),
        decreases out@.len() - p,
    {
        p = p + 1;
    }
    proof {
        assert forall|i: int| p <= i < out@.len() implies listed_before(*x, #[trigger] out@[i], ties) by {
            if i > p {
                let a = sort_key(*x, ties);
                let b = sort_key(out@[p as int], ties);
                let c = sort_key(out@[i], ties);
                assert(!key_before(c, b));
                lemma_key_total(b, c);
                if key_before(b, c) {
                    lemma_key_transitive(a, b, c);
                }
            }
        }
    }
    p
}

/// Inserting `x` at its insertion point keeps the list ordered, adds `x` to
/// the resources with its key after the ones already there, and leaves the
/// other keys alone.
proof fn lemma_insert_keeps_stable_order(out: Seq<GarminResource>, p: int, x: GarminResource, ties: bool)
    requires
        is_listed_in_order(out, ties),
        0 <= p <= out.len(),
        forall|i: int| 0 <= i < p ==> !listed_before(x, #[trigger] out[i], ties),
        forall|i: int| p <= i < out.len() ==> listed_before(x, #[trigger] out[i], ties),
    ensures
        is_listed_in_order(out.insert(p, x), ties),
        forall|k: SortKey| #[trigger] with_key(out.insert(p, x), k, ties) == if k == sort_key(x, ties) {
            with_key(out, k, ties).push(x)
        } else {
            with_key(out, k, ties)
        },
        out.insert(p, x).to_multiset() == out.to_multiset().insert(x),
{
    let s = out.insert(p, x);
    let front = out.take(p);
    let back = out.skip(p);
    assert(out =~= front + back);
    assert(s =~= front.push(x) + back);
    assert(s =~= front + seq![x] + back);
    assert forall|i: int, j: int| 0 <= i < j < s.len() implies !listed_before(#[trigger] s[j], #[trigger] s[i], ties) by {
        if i < p && j == p {
        } else if i == p && j > p {
            lemma_key_irreflexive(sort_key(x, ties));
            let a = sort_key(x, ties);
            let c = sort_key(out[j - 1], ties);
            if key_before(c, a) {
                lemma_key_transitive(a, c, a);
            }
        } else if i < p && j > p {
            assert(s[i] == out[i]);
            assert(s[j] == out[j - 1]);
        } else if i > p {
            assert(s[i] == out[i - 1]);
            assert(s[j] == out[j - 1]);
        } else {
            assert(s[i] == out[i]);
            assert(s[j] == out[j]);
        }
    }
    assert forall|k: SortKey| #[trigger] with_key(s, k, ties) == if k == sort_key(x, ties) {
        with_key(out, k, ties).push(x)
    } else {
        with_key(out, k, ties)
    } by {
        let pred = |r: GarminResource| sort_key(r, ties) == k;
        Seq::filter_distributes_over_add(front + seq![x], back, pred);
        Seq::filter_distributes_over_add(front, seq![x], pred);
        Seq::filter_distributes_over_add(front, back, pred);
        reveal_with_fuel(Seq::filter, 2);
        assert(seq![x].drop_last() =~= Seq::<GarminResource>::empty());
        if k == sort_key(x, ties) {
            assert(back.filter(pred) =~= Seq::<GarminResource>::empty()) by {
                if back.filter(pred).len() > 0 {
                    back.lemma_filter_len(pred);
                    let r = back.filter(pred)[0];
                    back.lemma_filter_pred(pred, 0);
                    assert(back.filter(pred).contains(r));
                    back.lemma_filter_contains_rev(pred, r);
                    let j = choose|j: int| 0 <= j < back.len() && back[j] == r;
                    assert(out[p + j] == back[j]);
                    assert(listed_before(x, out[p + j], ties));
                    lemma_key_irreflexive(sort_key(x, ties));
                }
            }
            assert(with_key(s, k, ties) =~= front.filter(pred).push(x));
            assert(with_key(out, k, ties) =~= front.filter(pred));
        } else {
            assert(with_key(s, k, ties) =~= front.filter(pred) + back.filter(pred));
        }
    }
    broadcast use vstd::seq_lib::group_to_multiset_ensures;
    assert(s.remove(p) =~= out);
    assert(s[p] == x);
    assert(s.to_multiset().remove(x) =~= out.to_multiset());
    assert(s.to_multiset().count(x) > 0) by {
        assert(s.contains(x));
    }
    assert(s.to_multiset() =~= out.to_multiset().insert(x));
}

/// Sorts `resources` stably by the order of `listed_before` with `ties`.
fn sort_by_listing(resources: &mut Vec<GarminResource>, ties: bool)
    ensures
        is_stable_sort_of(final(resources)@, old(resources)@, ties),
{
    let mut input: Vec<GarminResource> = Vec::new();
    std::mem::swap(&mut input, resources);
    let ghost given = input@;
    let mut out: Vec<GarminResource> = Vec::new();
    let ghost mut taken: Seq<GarminResource> = Seq::empty();
    proof {
        assert(given =~= taken + input@);
        assert forall|k: SortKey| #[trigger] with_key(out@, k, ties) == with_key(taken, k, ties) by {
            reveal_with_fuel(Seq::filter, 1);
        }
    }
    while input.len() > 0
        invariant
            given == taken + input@,
            is_listed_in_order(out@, ties),
            forall|k: SortKey| #[trigger] with_key(out@, k, ties) == with_key(taken, k, ties),
            out@.to_multiset() == taken.to_multiset(),
        decreases input@.len(),
    {
        let x = input.remove(0);
        let p = insertion_point(&out, &x, ties);
        proof {
            lemma_insert_keeps_stable_order(out@, p as int, x, ties);
            broadcast use vstd::seq_lib::group_to_multiset_ensures;
            assert forall|k: SortKey| #[trigger] with_key(taken.push(x), k, ties) == if k == sort_key(x, ties) {
                with_key(taken, k, ties).push(x)
            } else {
                with_key(taken, k, ties)
            } by {
                let pred = |r: GarminResource| sort_key(r, ties) == k;
                taken.lemma_filter_push(x, pred);
            }
            taken = taken.push(x);
        }
        out.insert(p, x);
        proof {
            assert(given =~= taken + input@);
        }
    }
    proof {
        assert(taken =~= given);
    }
    *resources = out;
}

/// Two ordered lists that hold the same resources, and the same resources of
/// each key in the same order, are equal.
proof fn lemma_ordered_with_same_keys_equal(a: Seq<GarminResource>, b: Seq<GarminResource>, ties: bool)
    requires
        is_listed_in_order(a, ties),
        is_listed_in_order(b, ties),
        forall|k: SortKey| #[trigger] with_key(a, k, ties) == with_key(b, k, ties),
        a.to_multiset() == b.to_multiset(),
    ensures
        a == b,
    decreases a.len(),
{
    broadcast use vstd::seq_lib::group_to_multiset_ensures;
    assert(a.to_multiset().len() == a.len());
    assert(b.to_multiset().len() == b.len());
    if a.len() == 0 {
        assert(b.len() == 0);
        assert(a =~= b);
    } else {
        assert(b.len() == a.len());
        let a0 = a[0];
        let b0 = b[0];
        let k0 = sort_key(a0, ties);
        let k1 = sort_key(b0, ties);
        assert(a.to_multiset().count(b0) > 0) by {
            assert(b.contains(b0)) by {
                assert(b[0] == b0);
            }
        }
        assert(b.to_multiset().count(a0) > 0) by {
            assert(a.contains(a0)) by {
                assert(a[0] == a0);
            }
        }
        let j = choose|j: int| 0 <= j < a.len() && a[j] == b0;
        let i = choose|i: int| 0 <= i < b.len() && b[i] == a0;
        if j > 0 {
            assert(!listed_before(a[j], a[0], ties));
        }
        if i > 0 {
            assert(!listed_before(b[i], b[0], ties));
        }
        lemma_key_irreflexive(k0);
        lemma_key_total(k0, k1);
        assert(k0 == k1);
        let ra = a.drop_first();
        let rb = b.drop_first();
        assert(a =~= seq![a0] + ra);
        assert(b =~= seq![b0] + rb);
        assert forall|k: SortKey| #[trigger] with_key(ra, k, ties) == with_key(rb, k, ties) by {
            let pred = |r: GarminResource| sort_key(r, ties) == k;
            ra.lemma_filter_prepend(a0, pred);
            rb.lemma_filter_prepend(b0, pred);
            if k == k0 {
                assert(with_key(a, k, ties) =~= seq![a0] + with_key(ra, k, ties));
                assert(with_key(b, k, ties) =~= seq![b0] + with_key(rb, k, ties));
                assert(with_key(ra, k, ties) =~= with_key(a, k, ties).drop_first());
                assert(with_key(rb, k, ties) =~= with_key(b, k, ties).drop_first());
            } else {
                assert(with_key(a, k, ties) =~= Seq::<GarminResource>::empty() + with_key(ra, k, ties));
                assert(with_key(b, k, ties) =~= Seq::<GarminResource>::empty() + with_key(rb, k, ties));
            }
        }
        assert(a0 == b0) by {
            let pred = |r: GarminResource| sort_key(r, ties) == k0;
            ra.lemma_filter_prepend(a0, pred);
            rb.lemma_filter_prepend(b0, pred);
            assert(with_key(a, k0, ties)[0] == a0);
            assert(with_key(b, k0, ties)[0] == b0);
        }
        assert(a.remove(0) =~= ra);
        assert(b.remove(0) =~= rb);
        assert(ra.to_multiset() =~= rb.to_multiset());
        assert(is_listed_in_order(ra, ties)) by {
            assert forall|x: int, y: int| 0 <= x < y < ra.len() implies !listed_before(#[trigger] ra[y], #[trigger] ra[x], ties) by {
                assert(ra[x] == a[x + 1]);
                assert(ra[y] == a[y + 1]);
            }
        }
        assert(is_listed_in_order(rb, ties)) by {
            assert forall|x: int, y: int| 0 <= x < y < rb.len() implies !listed_before(#[trigger] rb[y], #[trigger] rb[x], ties) by {
                assert(rb[x] == b[x + 1]);
                assert(rb[y] == b[y + 1]);
            }
        }
        lemma_ordered_with_same_keys_equal(ra, rb, ties);
    }
}

/// Sorting is deterministic: there is one stable sort of a list, so any two
/// lists that sort `input` stably are the same list.
pub proof fn lemma_stable_sort_unique(
    a: Seq<GarminResource>,
    b: Seq<GarminResource>,
    input: Seq<GarminResource>,
    ties: bool,
)
    requires
        is_stable_sort_of(a, input, ties),
        is_stable_sort_of(b, input, ties),
    ensures
        a == b,
{
    assert forall|k: SortKey| #[trigger] with_key(a, k, ties) == with_key(b, k, ties) by {
        assert(with_key(a, k, ties) == with_key(input, k, ties));
        assert(with_key(b, k, ties) == with_key(input, k, ties));
    }
    lemma_ordered_with_same_keys_equal(a, b, ties);
}

/// A list that is already in order is its own stable sort, so sorting it
/// changes nothing; in particular sorting twice is sorting once.
pub proof fn lemma_sorting_ordered_list_keeps_it(out: Seq<GarminResource>, input: Seq<GarminResource>, ties: bool)
    requires
        is_listed_in_order(input, ties),
        is_stable_sort_of(out, input, ties),
    ensures
        out == input,
{
    assert(is_stable_sort_of(input, input, ties));
    lemma_stable_sort_unique(out, input, input, ties);
}

/// Sorts the resources of one list: resources with a date first, the most
/// recent first; resources without a date after them; equal dates and
/// missing dates are ordered by name. Resources with the same date and name
/// keep their order.
pub fn sorted_resources(resources: &mut Vec<GarminResource>)
    ensures
        is_stable_sort_of(final(resources)@, old(resources)@, true),
{
    sort_by_listing(resources, true);
}

/// Sorts the resources of one list of the flat layout: resources with a date
/// first, the most recent first, keeping their order where dates are equal;
/// then the resources without a date, ordered by name.
pub fn sorted_resources_by_date(resources: &mut Vec<GarminResource>)
    ensures
        is_stable_sort_of(final(resources)@, old(resources)@, false),
{
    sort_by_listing(resources, false);
}

} // verus!
