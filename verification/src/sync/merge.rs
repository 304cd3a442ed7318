//! Merging event lists: every envelope once, in order of application, and
//! the clock that has seen them all.

use vstd::prelude::*;
use crate::events::clock::{clock_get, clock_merge, VectorClock};
use crate::events::order::{in_order, sort_envelopes};
use crate::events::types::{EnvelopeView, EventEnvelope};
use crate::state::materialize::{envelope_ids, lemma_envelope_ids_push};

verus! {

/// The envelopes of a list without those whose identifier occurred
/// earlier in it.
pub open spec fn first_occurrences(envs: Seq<EnvelopeView>) -> Seq<EnvelopeView>
    decreases envs.len(),
{
    if envs.len() == 0 {
        Seq::empty()
    } else {
        let rest = first_occurrences(envs.drop_last());
        if envelope_ids(envs.drop_last()).contains(envs.last().id) {
            rest
        } else {
            rest.push(envs.last())
        }
    }
}

/// The clock `base` merged with the clock of every envelope.
pub open spec fn merged_clock(base: Map<Seq<char>, u64>, envs: Seq<EnvelopeView>) -> Map<
    Seq<char>,
    u64,
>
    decreases envs.len(),
{
    if envs.len() == 0 {
        base
    } else {
        clock_merge(merged_clock(base, envs.drop_last()), envs.last().clock)
    }
}

/// The first occurrences of a list carry exactly the identifiers of the
/// list.
pub proof fn lemma_first_occurrences_ids(envs: Seq<EnvelopeView>)
    ensures
        envelope_ids(first_occurrences(envs)) == envelope_ids(envs),
    decreases envs.len(),
{
    if envs.len() == 0 {
        assert(first_occurrences(envs) =~= envs);
    } else {
        let before = envs.drop_last();
        lemma_first_occurrences_ids(before);
        assert(envs =~= before.push(envs.last()));
        lemma_envelope_ids_push(before, envs.last());
        if envelope_ids(before).contains(envs.last().id) {
            assert(envelope_ids(before).insert(envs.last().id) =~= envelope_ids(before));
        } else {
            lemma_envelope_ids_push(first_occurrences(before), envs.last());
        }
    }
}

/// True when some envelope of `list` has the identifier `id`.
fn holds_id(list: &Vec<EventEnvelope>, id: u128) -> (r: bool)
    ensures
        r == envelope_ids(list.deep_view()).contains(id),
{
    let mut i: usize = 0;
    while i < list.len()
        invariant
            i <= list.len(),
            forall|j: int| 0 <= j < i ==> (#[trigger] list.deep_view()[j]).id != id,
        decreases list.len() - i,
    {
        if list[i].id == id {
            proof {
                assert(list.deep_view()[i as int].id == id);
            }
            return true;
        }
        i += 1;
    }
    false
}

/// Merges two event lists: every envelope once, by its first occurrence
/// in `local` followed by `remote`, in order of application; and the
/// clock `local_clock` merged with the clocks of those envelopes.
pub fn merge_events(
    local: &[EventEnvelope],
    remote: &[EventEnvelope],
    local_clock: &VectorClock,
) -> (r: (Vec<EventEnvelope>, VectorClock))
    ensures
        in_order(r.0.deep_view()),
        r.0.deep_view().to_multiset() == first_occurrences(
            local.deep_view() + remote.deep_view(),
        ).to_multiset(),
        r.1@ == merged_clock(
            local_clock@,
            first_occurrences(local.deep_view() + remote.deep_view()),
        ),
{
    let ghost all = local.deep_view() + remote.deep_view();
    let mut unique: Vec<EventEnvelope> = Vec::new();
    let mut clock = local_clock.clone();
    let total = local.len() as u128 + remote.len() as u128;
    let mut i: u128 = 0;
    proof {
        assert(all.subrange(0, 0) =~= Seq::<EnvelopeView>::empty());
        assert(unique.deep_view() =~= Seq::<EnvelopeView>::empty());
    }
    while i < total
        invariant
            i <= total,
            total == local.len() + remote.len(),
            total == all.len(),
            all == local.deep_view() + remote.deep_view(),
            unique.deep_view() == first_occurrences(all.subrange(0, i as int)),
            clock@ == merged_clock(local_clock@, first_occurrences(all.subrange(0, i as int))),
        decreases total - i,
    {
        let envelope = if i < local.len() as u128 {
            &local[i as usize]
        } else {
            &remote[(i - local.len() as u128) as usize]
        };
        proof {
            let prefix = all.subrange(0, i as int);
            assert(all.subrange(0, i + 1).drop_last() =~= prefix);
            assert(all.subrange(0, i + 1).last() == envelope@);
            lemma_first_occurrences_ids(prefix);
        }
        let ghost before = unique.deep_view();
        if !holds_id(&unique, envelope.id) {
            unique.push(envelope.clone());
            clock.merge(&envelope.clock);
            proof {
                assert(unique.deep_view() =~= before.push(envelope@));
                assert(unique.deep_view().drop_last() =~= before);
            }
        }
        i += 1;
    }
    proof {
        assert(all.subrange(0, total as int) =~= all);
    }
    let sorted = sort_envelopes(unique.as_slice());
    (sorted, clock)
}

/// Merges the clock of every envelope into a clock.
pub fn merge_clocks(base: &VectorClock, envelopes: &[EventEnvelope]) -> (clock: VectorClock)
    ensures
        clock@ == merged_clock(base@, envelopes.deep_view()),
{
    let ghost all = envelopes.deep_view();
    let mut clock = base.clone();
    let mut i: usize = 0;
    proof {
        assert(all.subrange(0, 0) =~= Seq::<EnvelopeView>::empty());
    }
    while i < envelopes.len()
        invariant
            i <= envelopes.len(),
            all == envelopes.deep_view(),
            clock@ == merged_clock(base@, all.subrange(0, i as int)),
        decreases envelopes.len() - i,
    {
        proof {
            assert(all.subrange(0, i + 1).drop_last() =~= all.subrange(0, i as int));
            assert(all.subrange(0, i + 1).last() == envelopes[i as int]@);
        }
        clock.merge(&envelopes[i].clock);
        i += 1;
    }
    proof {
        assert(all.subrange(0, envelopes.len() as int) =~= all);
    }
    clock
}

/// The merged clock counts every device as far as the furthest of the
/// base clock and the clocks of the envelopes: it is at least each of
/// them, and it is one of them.
pub proof fn law_merged_clock_is_pointwise_max(
    base: Map<Seq<char>, u64>,
    envs: Seq<EnvelopeView>,
    device: Seq<char>,
)
    ensures
        clock_get(merged_clock(base, envs), device) >= clock_get(base, device),
        forall|i: int|
            0 <= i < envs.len() ==> clock_get(merged_clock(base, envs), device) >= clock_get(
                (#[trigger] envs[i]).clock,
                device,
            ),
        clock_get(merged_clock(base, envs), device) == clock_get(base, device) || exists|i: int|
            0 <= i < envs.len() && clock_get(merged_clock(base, envs), device) == clock_get(
                (#[trigger] envs[i]).clock,
                device,
            ),
    decreases envs.len(),
{
    if envs.len() > 0 {
        let rest = envs.drop_last();
        let before = merged_clock(base, rest);
        law_merged_clock_is_pointwise_max(base, rest, device);
        crate::events::clock::law_merge_commutes(before, envs.last().clock);
        let merged = clock_get(merged_clock(base, envs), device);
        assert forall|i: int| 0 <= i < envs.len() implies merged >= clock_get(
            (#[trigger] envs[i]).clock,
            device,
        ) by {
            if i < rest.len() {
                assert(rest[i] == envs[i]);
            }
        }
        if merged == clock_get(envs.last().clock, device) {
            assert(envs[envs.len() - 1] == envs.last());
        } else if merged != clock_get(base, device) {
            let i = choose|i: int|
                0 <= i < rest.len() && clock_get(before, device) == clock_get(
                    (#[trigger] rest[i]).clock,
                    device,
                );
            assert(rest[i] == envs[i]);
        }
    }
}

/// The merged clock holds the devices of the base clock and of the
/// clocks of the envelopes, and no others.
pub proof fn law_merged_clock_devices(
    base: Map<Seq<char>, u64>,
    envs: Seq<EnvelopeView>,
    device: Seq<char>,
)
    ensures
        merged_clock(base, envs).dom().contains(device) <==> (base.dom().contains(device)
            || exists|i: int| 0 <= i < envs.len() && (#[trigger] envs[i]).clock.dom().contains(device)),
    decreases envs.len(),
{
    if envs.len() > 0 {
        let rest = envs.drop_last();
        law_merged_clock_devices(base, rest, device);
        if merged_clock(base, envs).dom().contains(device) {
            if envs.last().clock.dom().contains(device) {
                assert(envs[envs.len() - 1].clock.dom().contains(device));
            } else if !base.dom().contains(device) {
                let i = choose|i: int|
                    0 <= i < rest.len() && (#[trigger] rest[i]).clock.dom().contains(device);
                assert(envs[i].clock.dom().contains(device));
            }
        } else {
            assert forall|i: int| 0 <= i < envs.len() implies !(#[trigger] envs[i]).clock.dom().contains(
                device,
            ) by {
                if i < rest.len() {
                    assert(rest[i] == envs[i]);
                }
            }
        }
    }
}

/// The envelopes that a clock has not seen: those whose own clock counts
/// some device further than the given clock does, in order.
pub open spec fn not_dominated(envs: Seq<EnvelopeView>, clock: Map<Seq<char>, u64>) -> Seq<
    EnvelopeView,
>
    decreases envs.len(),
{
    if envs.len() == 0 {
        Seq::empty()
    } else {
        let rest = not_dominated(envs.drop_last(), clock);
        if crate::events::clock::clock_exceeds(envs.last().clock, clock) {
            rest.push(envs.last())
        } else {
            rest
        }
    }
}

/// Picks the envelopes that a peer with the given clock lacks: those
/// whose clock is not dominated by the peer's.
pub fn events_missing_at(envelopes: &[EventEnvelope], peer_clock: &VectorClock) -> (missing: Vec<
    EventEnvelope,
>)
    ensures
        missing.deep_view() == not_dominated(envelopes.deep_view(), peer_clock@),
{
    let ghost all = envelopes.deep_view();
    let mut missing: Vec<EventEnvelope> = Vec::new();
    let mut i: usize = 0;
    proof {
        assert(all.subrange(0, 0) =~= Seq::<EnvelopeView>::empty());
        assert(missing.deep_view() =~= Seq::<EnvelopeView>::empty());
    }
    while i < envelopes.len()
        invariant
            i <= envelopes.len(),
            all == envelopes.deep_view(),
            missing.deep_view() == not_dominated(all.subrange(0, i as int), peer_clock@),
        decreases envelopes.len() - i,
    {
        proof {
            assert(all.subrange(0, i + 1).drop_last() =~= all.subrange(0, i as int));
            assert(all.subrange(0, i + 1).last() == envelopes[i as int]@);
        }
        let ghost before = missing.deep_view();
        if envelopes[i].clock.exceeds(peer_clock) {
            missing.push(envelopes[i].clone());
            proof {
                assert(missing.deep_view() =~= before.push(envelopes[i as int]@));
            }
        }
        i += 1;
    }
    proof {
        assert(all.subrange(0, envelopes.len() as int) =~= all);
    }
    missing
}

} // verus!
