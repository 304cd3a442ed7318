//! The order in which envelopes are applied: by timestamp, and among
//! equal timestamps by identifier.

use vstd::prelude::*;
use crate::events::types::{EnvelopeView, EventEnvelope};

verus! {

/// True when `a` goes no later than `b`: its timestamp is smaller, or
/// equal with an identifier that is not larger.
pub open spec fn goes_before(a: EnvelopeView, b: EnvelopeView) -> bool {
    a.timestamp < b.timestamp || (a.timestamp == b.timestamp && a.id <= b.id)
}

/// True when the envelopes stand in order of application.
pub open spec fn in_order(envs: Seq<EnvelopeView>) -> bool {
    forall|i: int, j: int| 0 <= i < j < envs.len() ==> goes_before(envs[i], envs[j])
}

/// True when `p` is where `e` goes in the ordered list `envs`: behind
/// every envelope that goes no later, before the first that goes later.
pub open spec fn is_slot(envs: Seq<EnvelopeView>, e: EnvelopeView, p: int) -> bool {
    &&& 0 <= p <= envs.len()
    &&& forall|j: int| 0 <= j < p ==> goes_before(#[trigger] envs[j], e)
    &&& p < envs.len() ==> !goes_before(envs[p], e)
}

/// Putting an envelope into an ordered list at its slot keeps the order.
pub proof fn lemma_insert_in_order(envs: Seq<EnvelopeView>, e: EnvelopeView, p: int)
    requires
        in_order(envs),
        is_slot(envs, e, p),
    ensures
        in_order(envs.insert(p, e)),
{
    let t = envs.insert(p, e);
    assert forall|i: int, j: int| 0 <= i < j < t.len() implies goes_before(t[i], t[j]) by {
        if i == p {
            assert(t[j] == envs[j - 1]);
            if j - 1 > p {
                assert(goes_before(envs[p], envs[j - 1]));
            }
        } else if j == p {
            assert(t[i] == envs[i]);
        } else {
            let a = if i < p { i } else { i - 1 };
            let b = if j < p { j } else { j - 1 };
            assert(t[i] == envs[a] && t[j] == envs[b]);
            assert(goes_before(envs[a], envs[b]));
        }
    }
}

/// Finds the slot of an envelope in an ordered list.
fn find_slot(sorted: &Vec<EventEnvelope>, timestamp: i64, id: u128) -> (p: usize)
    ensures
        0 <= p <= sorted.len(),
        forall|j: int|
            0 <= j < p ==> (#[trigger] sorted[j]).timestamp < timestamp || (sorted[j].timestamp
                == timestamp && sorted[j].id <= id),
        p < sorted.len() ==> !(sorted[p as int].timestamp < timestamp || (
        sorted[p as int].timestamp == timestamp && sorted[p as int].id <= id)),
{
    let mut i: usize = 0;
    while i < sorted.len() && (sorted[i].timestamp < timestamp || (sorted[i].timestamp
        == timestamp && sorted[i].id <= id))
        invariant
            i <= sorted.len(),
            forall|j: int|
                0 <= j < i ==> (#[trigger] sorted[j]).timestamp < timestamp || (
                sorted[j].timestamp == timestamp && sorted[j].id <= id),
        decreases sorted.len() - i,
    {
        i += 1;
    }
    i
}

/// Puts the envelopes in order of application: by timestamp, and among
/// equal timestamps by identifier. The result holds the same envelopes.
pub fn sort_envelopes(envelopes: &[EventEnvelope]) -> (sorted: Vec<EventEnvelope>)
    ensures
        in_order(sorted.deep_view()),
        sorted.deep_view().to_multiset() == envelopes.deep_view().to_multiset(),
        sorted.len() == envelopes.len(),
{
    let mut sorted: Vec<EventEnvelope> = Vec::new();
    let mut i: usize = 0;
    proof {
        assert(envelopes.deep_view().subrange(0, 0) =~= Seq::<EnvelopeView>::empty());
        assert(sorted.deep_view() =~= Seq::<EnvelopeView>::empty());
    }
    while i < envelopes.len()
        invariant
            i <= envelopes.len(),
            sorted.len() == i,
            in_order(sorted.deep_view()),
            sorted.deep_view().to_multiset() == envelopes.deep_view().subrange(
                0,
                i as int,
            ).to_multiset(),
        decreases envelopes.len() - i,
    {
        let next = envelopes[i].clone();
        let p = find_slot(&sorted, next.timestamp, next.id);
        let ghost before = sorted.deep_view();
        let ghost e = next@;
        proof {
            assert forall|j: int| 0 <= j < p implies goes_before(#[trigger] before[j], e) by {
                assert(before[j] == sorted[j]@);
            }
            if p < sorted.len() {
                assert(before[p as int] == sorted[p as int]@);
            }
            assert(is_slot(before, e, p as int));
        }
        sorted.insert(p, next);
        proof {
            let all = envelopes.deep_view();
            assert(sorted.deep_view() =~= before.insert(p as int, e));
            lemma_insert_in_order(before, e, p as int);
            vstd::seq_lib::to_multiset_insert(before, p as int, e);
            assert(e == all[i as int]);
            assert(all.subrange(0, i + 1) =~= all.subrange(0, i as int).push(e));
            vstd::seq_lib::to_multiset_build(all.subrange(0, i as int), e);
        }
        i += 1;
    }
    proof {
        assert(envelopes.deep_view().subrange(0, envelopes.len() as int)
            =~= envelopes.deep_view());
    }
    sorted
}

/// Two ordered lists of the same envelopes are the same list, provided
/// that envelopes with the same timestamp and identifier are the same
/// envelope.
pub proof fn lemma_order_is_unique(x: Seq<EnvelopeView>, y: Seq<EnvelopeView>)
    requires
        in_order(x),
        in_order(y),
        x.to_multiset() == y.to_multiset(),
        forall|i: int, j: int|
            0 <= i < x.len() && 0 <= j < x.len() && x[i].timestamp == x[j].timestamp && x[i].id
                == x[j].id ==> x[i] == x[j],
    ensures
        x == y,
    decreases x.len(),
{
    broadcast use vstd::multiset::group_multiset_axioms;
    broadcast use vstd::seq_lib::group_to_multiset_ensures;

    assert(x.len() == y.len()) by {
        vstd::seq_lib::to_multiset_len(x);
        vstd::seq_lib::to_multiset_len(y);
    }
    if x.len() == 0 {
        assert(x =~= y);
    } else {
        assert(x.to_multiset().contains(x[0]));
        assert(y.to_multiset().contains(x[0]));
        assert(y.to_multiset().contains(y[0]));
        assert(x.to_multiset().contains(y[0]));
        let i = choose|i: int| 0 <= i < x.len() && #[trigger] x[i] == y[0];
        let k = choose|k: int| 0 <= k < y.len() && #[trigger] y[k] == x[0];
        // x[0] goes before x[i] = y[0], and y[0] goes before y[k] = x[0].
        if i > 0 {
            assert(goes_before(x[0], x[i]));
        }
        if k > 0 {
            assert(goes_before(y[0], y[k]));
        }
        assert(x[0].timestamp == y[0].timestamp && x[0].id == y[0].id);
        assert(x[0] == x[i]);
        assert(x[0] == y[0]);
        assert(x.drop_first().to_multiset() =~= x.to_multiset().remove(x[0])) by {
            vstd::seq_lib::to_multiset_remove(x, 0);
            assert(x.remove(0) =~= x.drop_first());
        }
        assert(y.drop_first().to_multiset() =~= y.to_multiset().remove(y[0])) by {
            vstd::seq_lib::to_multiset_remove(y, 0);
            assert(y.remove(0) =~= y.drop_first());
        }
        let xs = x.drop_first();
        let ys = y.drop_first();
        assert forall|a: int, b: int|
            0 <= a < xs.len() && 0 <= b < xs.len() && xs[a].timestamp == xs[b].timestamp
                && xs[a].id == xs[b].id implies xs[a] == xs[b] by {
            assert(xs[a] == x[a + 1] && xs[b] == x[b + 1]);
        }
        assert forall|a: int, b: int| 0 <= a < b < xs.len() implies goes_before(xs[a], xs[b]) by {
            assert(goes_before(x[a + 1], x[b + 1]));
        }
        assert forall|a: int, b: int| 0 <= a < b < ys.len() implies goes_before(ys[a], ys[b]) by {
            assert(goes_before(y[a + 1], y[b + 1]));
        }
        lemma_order_is_unique(xs, ys);
        assert(x =~= seq![x[0]] + xs);
        assert(y =~= seq![y[0]] + ys);
    }
}

} // verus!
