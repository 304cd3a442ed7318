//! Materialisation: applying envelopes to the state index, each at most
//! once.

use vstd::prelude::*;
use crate::events::types::{
    current_time_micros, fresh_event_id, uuid_hyphenated, uuid_text, EnvelopeView, Event,
    EventEnvelope, EventView, PrefValue, PrefValueView,
};
use crate::state::db::{
    engines_with_default, tabs_with, tabs_without, PendingTabView, StateDb, StateView,
};
use crate::text::{decimal_int, i64_to_string, str_eq};

verus! {

/// What a newly arrived tab is stamped with: a fresh identifier and the
/// time of arrival.
#[derive(Debug, Clone, Copy, PartialEq, Eq, Structural)]
pub struct Stamp {
    pub id: u128,
    /// Microseconds since the Unix epoch.
    pub now: i64,
}

/// How a preference value is stored: its text and the name of its type.
pub open spec fn pref_storage(v: PrefValueView) -> (Seq<char>, Seq<char>) {
    match v {
        PrefValueView::Bool(b) => (
            if b {
                "true"@
            } else {
                "false"@
            },
            "bool"@,
        ),
        PrefValueView::Int(i) => (decimal_int(i as int), "int"@),
        PrefValueView::Text(s) => (s, "string"@),
    }
}

/// The effect of one event on the index, on the device `this_device`.
/// `origin` is the device that made the event; `stamp` is consumed only
/// when a tab arrives.
pub open spec fn apply_effect(
    s: StateView,
    e: EventView,
    origin: Seq<char>,
    this_device: Seq<char>,
    stamp: Stamp,
) -> StateView {
    match e {
        EventView::ExtensionAdded { id, name, url } => StateView {
            extensions: s.extensions.insert(id, (name, url)),
            ..s
        },
        EventView::ExtensionRemoved { id } => StateView {
            extensions: s.extensions.remove(id),
            ..s
        },
        EventView::ExtensionInstalled { id, name, version, source, xpi_data } => StateView {
            extensions: s.extensions.insert(id, (name, None)),
            packages: s.packages.insert(id, (version, source, xpi_data)),
            ..s
        },
        EventView::ExtensionUninstalled { id } => StateView {
            extensions: s.extensions.remove(id),
            packages: s.packages.remove(id),
            ..s
        },
        EventView::ContainerAdded { id, name, color, icon } => StateView {
            containers: s.containers.insert(id, (name, color, icon)),
            ..s
        },
        EventView::ContainerRemoved { id } => StateView {
            containers: s.containers.remove(id),
            ..s
        },
        EventView::ContainerUpdated { id, name, color, icon } => match (name, color, icon) {
            (Some(n), Some(c), Some(i)) => StateView {
                containers: s.containers.insert(id, (n, c, i)),
                ..s
            },
            _ => s,
        },
        EventView::HandlerSet { protocol, handler } => StateView {
            handlers: s.handlers.insert(protocol, handler),
            ..s
        },
        EventView::HandlerRemoved { protocol } => StateView {
            handlers: s.handlers.remove(protocol),
            ..s
        },
        EventView::SearchEngineAdded { id, name, url } => StateView {
            search_engines: s.search_engines.insert(id, (name, url, false)),
            ..s
        },
        EventView::SearchEngineRemoved { id } => StateView {
            search_engines: s.search_engines.remove(id),
            ..s
        },
        EventView::SearchEngineDefault { id } => StateView {
            search_engines: engines_with_default(s.search_engines, id),
            ..s
        },
        EventView::PrefSet { key, value } => StateView {
            prefs: s.prefs.insert(key, pref_storage(value)),
            ..s
        },
        EventView::PrefRemoved { key } => StateView { prefs: s.prefs.remove(key), ..s },
        EventView::TabSent { to_device, url, title } => if to_device == this_device {
            StateView {
                pending_tabs: tabs_with(
                    s.pending_tabs,
                    PendingTabView {
                        id: uuid_hyphenated(stamp.id),
                        url,
                        title,
                        from_device: origin,
                        sent_at: stamp.now,
                    },
                ),
                ..s
            }
        } else {
            s
        },
        EventView::TabReceived { event_id } => StateView {
            pending_tabs: tabs_without(s.pending_tabs, uuid_hyphenated(event_id)),
            ..s
        },
    }
}

/// The index after one envelope: unchanged when the envelope was applied
/// before, otherwise the effect of its event together with the record
/// that it was applied.
pub open spec fn apply_envelope(
    s: StateView,
    env: EnvelopeView,
    this_device: Seq<char>,
    stamp: Stamp,
) -> StateView {
    if s.applied.dom().contains(env.id) {
        s
    } else {
        let t = apply_effect(s, env.event, env.device, this_device, stamp);
        StateView { applied: t.applied.insert(env.id, (env.device, env.timestamp)), ..t }
    }
}

/// The index after a list of envelopes, in order; envelope `i` consumes
/// stamp `i`.
pub open spec fn materialize(
    s: StateView,
    envs: Seq<EnvelopeView>,
    this_device: Seq<char>,
    stamps: Seq<Stamp>,
) -> StateView
    decreases envs.len(),
{
    if envs.len() == 0 {
        s
    } else {
        apply_envelope(
            materialize(s, envs.drop_last(), this_device, stamps.drop_last()),
            envs.last(),
            this_device,
            stamps.last(),
        )
    }
}

/// The identifiers that occur in a list of envelopes.
pub open spec fn envelope_ids(envs: Seq<EnvelopeView>) -> Set<u128> {
    Set::new(|id: u128| exists|j: int| 0 <= j < envs.len() && (#[trigger] envs[j]).id == id)
}

/// How many envelopes of the list take effect on an index in which
/// `applied` are applied already: each identifier counts once.
pub open spec fn newly_applied(applied: Set<u128>, envs: Seq<EnvelopeView>) -> nat
    decreases envs.len(),
{
    if envs.len() == 0 {
        0
    } else {
        let before = envs.drop_last();
        newly_applied(applied, before) + if applied.union(envelope_ids(before)).contains(
            envs.last().id,
        ) {
            0nat
        } else {
            1nat
        }
    }
}

/// The identifiers of a list grow by the identifier of an appended
/// envelope.
pub proof fn lemma_envelope_ids_push(envs: Seq<EnvelopeView>, e: EnvelopeView)
    ensures
        envelope_ids(envs.push(e)) == envelope_ids(envs).insert(e.id),
{
    let t = envs.push(e);
    assert forall|id: u128| envelope_ids(t).contains(id) == envelope_ids(envs).insert(
        e.id,
    ).contains(id) by {
        if envelope_ids(envs).contains(id) {
            let j = choose|j: int| 0 <= j < envs.len() && (#[trigger] envs[j]).id == id;
            assert(t[j].id == id);
        }
        if id == e.id {
            assert(t[envs.len() as int].id == id);
        }
        if envelope_ids(t).contains(id) {
            let j = choose|j: int| 0 <= j < t.len() && (#[trigger] t[j]).id == id;
            if j < envs.len() {
                assert(envs[j].id == id);
            }
        }
    }
    assert(envelope_ids(t) =~= envelope_ids(envs).insert(e.id));
}

/// How a preference value is stored: its text and the name of its type.
pub fn pref_to_storage(value: &PrefValue) -> (r: (String, &'static str))
    ensures
        (r.0@, r.1@) == pref_storage(value@),
{
    match value {
        PrefValue::Bool(b) => (
            if *b {
                "true".to_owned()
            } else {
                "false".to_owned()
            },
            "bool",
        ),
        PrefValue::Int(i) => (i64_to_string(*i), "int"),
        PrefValue::String(s) => (s.clone(), "string"),
    }
}

/// Borrows an optional text.
fn opt_str(s: &Option<String>) -> (r: Option<&str>)
    ensures
        r.deep_view() == s.deep_view(),
{
    match s {
        Some(t) => Some(t.as_str()),
        None => None,
    }
}

/// Applies the effect of one event to the index.
pub fn apply_event(
    db: &mut StateDb,
    event: &Event,
    origin: &str,
    this_device: &str,
    stamp: Stamp,
)
    ensures
        final(db)@ == apply_effect(old(db)@, event@, origin@, this_device@, stamp),
        final(db)@.well_formed(),
{
    match event {
        Event::ExtensionAdded { id, name, url } => {
            db.add_extension(id.as_str(), name.as_str(), opt_str(url));
        },
        Event::ExtensionRemoved { id } => {
            db.remove_extension(id.as_str());
        },
        Event::ExtensionInstalled { id, name, version, source, xpi_data } => {
            db.add_extension(id.as_str(), name.as_str(), None);
            db.store_extension_xpi(id.as_str(), version.as_str(), source, xpi_data.as_str());
        },
        Event::ExtensionUninstalled { id } => {
            db.remove_extension(id.as_str());
            db.remove_extension_xpi(id.as_str());
        },
        Event::ContainerAdded { id, name, color, icon } => {
            db.add_container(id.as_str(), name.as_str(), color.as_str(), icon.as_str());
        },
        Event::ContainerRemoved { id } => {
            db.remove_container(id.as_str());
        },
        Event::ContainerUpdated { id, name, color, icon } => {
            match (name, color, icon) {
                (Some(n), Some(c), Some(i)) => {
                    db.add_container(id.as_str(), n.as_str(), c.as_str(), i.as_str());
                },
                _ => {
                    db.check();
                },
            }
        },
        Event::HandlerSet { protocol, handler } => {
            db.set_handler(protocol.as_str(), handler.as_str());
        },
        Event::HandlerRemoved { protocol } => {
            db.remove_handler(protocol.as_str());
        },
        Event::SearchEngineAdded { id, name, url } => {
            db.add_search_engine(id.as_str(), name.as_str(), url.as_str());
        },
        Event::SearchEngineRemoved { id } => {
            db.remove_search_engine(id.as_str());
        },
        Event::SearchEngineDefault { id } => {
            db.set_default_search_engine(id.as_str());
        },
        Event::PrefSet { key, value } => {
            let (text, kind) = pref_to_storage(value);
            db.set_pref(key.as_str(), text.as_str(), kind);
        },
        Event::PrefRemoved { key } => {
            db.remove_pref(key.as_str());
        },
        Event::TabSent { to_device, url, title } => {
            if str_eq(to_device.as_str(), this_device) {
                let tab_id = uuid_text(stamp.id);
                db.add_pending_tab(
                    tab_id.as_str(),
                    url.as_str(),
                    opt_str(title),
                    origin,
                    stamp.now,
                );
            } else {
                db.check();
            }
        },
        Event::TabReceived { event_id } => {
            let tab_id = uuid_text(*event_id);
            db.remove_pending_tab(tab_id.as_str());
        },
    }
}

/// Applies one envelope unless it was applied before; returns whether it
/// took effect.
pub fn apply_envelope_once(
    db: &mut StateDb,
    envelope: &EventEnvelope,
    this_device: &str,
    stamp: Stamp,
) -> (took_effect: bool)
    ensures
        final(db)@ == apply_envelope(old(db)@, envelope@, this_device@, stamp),
        took_effect == !old(db)@.applied.dom().contains(envelope@.id),
        final(db)@.well_formed(),
{
    if db.is_event_applied(envelope.id) {
        db.check();
        return false;
    }
    apply_event(db, &envelope.event, envelope.device.as_str(), this_device, stamp);
    db.mark_event_applied(envelope.id, envelope.device.as_str(), envelope.timestamp);
    true
}

/// Applies the envelopes in order, each at most once, and returns how
/// many took effect. Every arriving tab gets a fresh identifier and the
/// current time.
pub fn materialize_events(db: &mut StateDb, events: &[EventEnvelope], this_device: &str) -> (applied:
    usize)
    ensures
        exists|stamps: Seq<Stamp>|
            stamps.len() == events@.len() && final(db)@ == #[trigger] materialize(
                old(db)@,
                events.deep_view(),
                this_device@,
                stamps,
            ),
        applied == newly_applied(old(db)@.applied.dom(), events.deep_view()),
        final(db)@.well_formed(),
{
    let ghost start = db@;
    let ghost mut stamps: Seq<Stamp> = Seq::empty();
    let mut applied: usize = 0;
    let mut i: usize = 0;
    db.check();
    proof {
        assert(events.deep_view().subrange(0, 0) =~= Seq::<EnvelopeView>::empty());
        assert(envelope_ids(Seq::<EnvelopeView>::empty()) =~= Set::<u128>::empty());
        assert(start.applied.dom().union(Set::<u128>::empty()) =~= start.applied.dom());
    }
    while i < events.len()
        invariant
            i <= events.len(),
            applied <= i,
            stamps.len() == i,
            start == old(db)@,
            db@.well_formed(),
            db@ == materialize(start, events.deep_view().subrange(0, i as int), this_device@, stamps),
            applied == newly_applied(start.applied.dom(), events.deep_view().subrange(0, i as int)),
            db@.applied.dom() == start.applied.dom().union(
                envelope_ids(events.deep_view().subrange(0, i as int)),
            ),
        decreases events.len() - i,
    {
        let stamp = Stamp { id: fresh_event_id(), now: current_time_micros() };
        let ghost before = db@;
        let took_effect = apply_envelope_once(db, &events[i], this_device, stamp);
        proof {
            let all = events.deep_view();
            let prefix = all.subrange(0, i as int);
            let next = all.subrange(0, i + 1);
            assert(next.drop_last() =~= prefix);
            assert(next =~= prefix.push(all[i as int]));
            assert(next.last() == all[i as int]);
            assert(all[i as int] == events[i as int]@);
            let ghost new_stamps = stamps.push(stamp);
            assert(new_stamps.drop_last() =~= stamps);
            assert(new_stamps.last() == stamp);
            stamps = new_stamps;
            lemma_apply_envelope_applied(before, all[i as int], this_device@, stamp);
            lemma_envelope_ids_push(prefix, all[i as int]);
            assert(db@.applied.dom() =~= start.applied.dom().union(envelope_ids(next)));
        }
        if took_effect {
            applied += 1;
        }
        i += 1;
    }
    proof {
        assert(events.deep_view().subrange(0, events.len() as int) =~= events.deep_view());
    }
    applied
}

/// Applying an envelope adds its identifier to the applied events and
/// takes none away.
pub proof fn lemma_apply_envelope_applied(
    s: StateView,
    env: EnvelopeView,
    this_device: Seq<char>,
    stamp: Stamp,
)
    ensures
        apply_envelope(s, env, this_device, stamp).applied.dom() == s.applied.dom().insert(env.id),
        forall|id: u128| #[trigger]
            s.applied.dom().contains(id) ==> apply_envelope(s, env, this_device, stamp).applied[id]
                == s.applied[id],
{
    let t = apply_envelope(s, env, this_device, stamp);
    assert(apply_effect(s, env.event, env.device, this_device, stamp).applied == s.applied);
    assert(t.applied.dom() =~= s.applied.dom().insert(env.id));
}

/// Applying an envelope a second time changes nothing, whatever stamp
/// the second application is offered.
pub proof fn law_apply_is_idempotent(
    s: StateView,
    env: EnvelopeView,
    this_device: Seq<char>,
    first: Stamp,
    second: Stamp,
)
    ensures
        apply_envelope(apply_envelope(s, env, this_device, first), env, this_device, second)
            == apply_envelope(s, env, this_device, first),
{
    lemma_apply_envelope_applied(s, env, this_device, first);
    assert(s.applied.dom().insert(env.id).contains(env.id));
}

/// Applied events are only ever added: whatever is applied stays applied
/// with its record, through any list of envelopes.
pub proof fn law_applied_events_grow(
    s: StateView,
    envs: Seq<EnvelopeView>,
    this_device: Seq<char>,
    stamps: Seq<Stamp>,
)
    ensures
        forall|id: u128| #[trigger]
            s.applied.dom().contains(id) ==> materialize(
                s,
                envs,
                this_device,
                stamps,
            ).applied.dom().contains(id) && materialize(s, envs, this_device, stamps).applied[id]
                == s.applied[id],
    decreases envs.len(),
{
    if envs.len() > 0 {
        law_applied_events_grow(s, envs.drop_last(), this_device, stamps.drop_last());
        lemma_apply_envelope_applied(
            materialize(s, envs.drop_last(), this_device, stamps.drop_last()),
            envs.last(),
            this_device,
            stamps.last(),
        );
    }
}

/// Two lists of the same envelopes, both in order of application, lead to
/// the same index, provided that envelopes with the same timestamp and
/// identifier are the same envelope.
pub proof fn law_materialize_ignores_arrival_order(
    s: StateView,
    first: Seq<EnvelopeView>,
    second: Seq<EnvelopeView>,
    this_device: Seq<char>,
    stamps: Seq<Stamp>,
)
    requires
        crate::events::order::in_order(first),
        crate::events::order::in_order(second),
        first.to_multiset() == second.to_multiset(),
        forall|i: int, j: int|
            0 <= i < first.len() && 0 <= j < first.len() && first[i].timestamp
                == first[j].timestamp && first[i].id == first[j].id ==> first[i] == first[j],
    ensures
        materialize(s, first, this_device, stamps) == materialize(s, second, this_device, stamps),
{
    crate::events::order::lemma_order_is_unique(first, second);
}

/// A tab that is sent to another device leaves the pending tabs as they
/// are.
pub proof fn law_foreign_tab_is_ignored(
    s: StateView,
    env: EnvelopeView,
    this_device: Seq<char>,
    stamp: Stamp,
)
    requires
        env.event matches EventView::TabSent { to_device, .. } && to_device != this_device,
    ensures
        apply_envelope(s, env, this_device, stamp).pending_tabs == s.pending_tabs,
{
}

/// True when `arrival` holds the two envelopes and nothing else, in
/// either order.
pub open spec fn holds_both(arrival: Seq<EnvelopeView>, a: EnvelopeView, b: EnvelopeView) -> bool {
    arrival == seq![a, b] || arrival == seq![b, a]
}

/// Two envelopes, put in order of application, come out with the earlier
/// first, in whichever order they arrived.
pub proof fn lemma_pair_in_order(
    arrival: Seq<EnvelopeView>,
    sorted: Seq<EnvelopeView>,
    earlier: EnvelopeView,
    later: EnvelopeView,
)
    requires
        holds_both(arrival, earlier, later),
        crate::events::order::in_order(sorted),
        sorted.to_multiset() == arrival.to_multiset(),
        earlier.timestamp < later.timestamp || (earlier.timestamp == later.timestamp && earlier.id
            < later.id),
    ensures
        sorted == seq![earlier, later],
{
    vstd::seq_lib::to_multiset_len(sorted);
    vstd::seq_lib::to_multiset_len(arrival);
    vstd::seq_lib::to_multiset_contains(sorted, earlier);
    vstd::seq_lib::to_multiset_contains(arrival, earlier);
    vstd::seq_lib::to_multiset_contains(sorted, later);
    vstd::seq_lib::to_multiset_contains(arrival, later);
    assert(arrival[0] == earlier || arrival[1] == earlier);
    assert(arrival[0] == later || arrival[1] == later);
    assert(arrival.contains(earlier));
    assert(arrival.contains(later));
    let i = choose|i: int| 0 <= i < sorted.len() && sorted[i] == earlier;
    let j = choose|j: int| 0 <= j < sorted.len() && sorted[j] == later;
    if i == 1 {
        assert(crate::events::order::goes_before(sorted[0], sorted[1]));
    }
    assert(sorted =~= seq![earlier, later]);
}

/// Two envelopes of different identifiers that are both new to the index
/// both take effect, the earlier first, in whichever order they arrived.
pub proof fn lemma_pair_is_applied(
    s: StateView,
    arrival: Seq<EnvelopeView>,
    sorted: Seq<EnvelopeView>,
    earlier: EnvelopeView,
    later: EnvelopeView,
    this_device: Seq<char>,
    stamps: Seq<Stamp>,
)
    requires
        holds_both(arrival, earlier, later),
        crate::events::order::in_order(sorted),
        sorted.to_multiset() == arrival.to_multiset(),
        earlier.timestamp < later.timestamp || (earlier.timestamp == later.timestamp && earlier.id
            < later.id),
        earlier.id != later.id,
        !s.applied.dom().contains(earlier.id),
        !s.applied.dom().contains(later.id),
        stamps.len() == 2,
    ensures
        sorted == seq![earlier, later],
        newly_applied(s.applied.dom(), sorted) == 2,
        materialize(s, sorted, this_device, stamps) == apply_envelope(
            apply_envelope(s, earlier, this_device, stamps[0]),
            later,
            this_device,
            stamps[1],
        ),
        !apply_envelope(s, earlier, this_device, stamps[0]).applied.dom().contains(later.id),
{
    lemma_pair_in_order(arrival, sorted, earlier, later);
    let one = sorted.drop_last();
    assert(one =~= seq![earlier]);
    assert(one.drop_last() =~= Seq::<EnvelopeView>::empty());
    assert(one.last() == earlier);
    assert(sorted.last() == later);
    assert(stamps.drop_last().last() == stamps[0]);
    assert(stamps.last() == stamps[1]);
    assert(materialize(s, one.drop_last(), this_device, stamps.drop_last().drop_last()) == s);
    assert(materialize(s, one, this_device, stamps.drop_last()) == apply_envelope(
        s,
        earlier,
        this_device,
        stamps[0],
    ));
    lemma_apply_envelope_applied(s, earlier, this_device, stamps[0]);
    // Both count as newly applied.
    let none = one.drop_last();
    assert(envelope_ids(none) =~= Set::<u128>::empty());
    assert(s.applied.dom().union(envelope_ids(none)) =~= s.applied.dom());
    assert(newly_applied(s.applied.dom(), none) == 0);
    assert(newly_applied(s.applied.dom(), one) == 1);
    assert(!envelope_ids(one).contains(later.id)) by {
        if envelope_ids(one).contains(later.id) {
            let k = choose|k: int| 0 <= k < one.len() && (#[trigger] one[k]).id == later.id;
            assert(one[k] == earlier);
        }
    }
    assert(!s.applied.dom().union(envelope_ids(one)).contains(later.id));
}

/// Of two settings of the handler of one protocol, the later one stands
/// in the index, in whichever order the two envelopes arrived: the later
/// timestamp wins.
pub proof fn law_later_timestamp_wins(
    s: StateView,
    arrival: Seq<EnvelopeView>,
    sorted: Seq<EnvelopeView>,
    earlier: EnvelopeView,
    later: EnvelopeView,
    this_device: Seq<char>,
    stamps: Seq<Stamp>,
    protocol: Seq<char>,
    first_handler: Seq<char>,
    second_handler: Seq<char>,
)
    requires
        holds_both(arrival, earlier, later),
        crate::events::order::in_order(sorted),
        sorted.to_multiset() == arrival.to_multiset(),
        earlier.timestamp < later.timestamp,
        earlier.id != later.id,
        !s.applied.dom().contains(earlier.id),
        !s.applied.dom().contains(later.id),
        stamps.len() == 2,
        earlier.event == (EventView::HandlerSet { protocol, handler: first_handler }),
        later.event == (EventView::HandlerSet { protocol, handler: second_handler }),
    ensures
        newly_applied(s.applied.dom(), sorted) == 2,
        materialize(s, sorted, this_device, stamps).handlers == s.handlers.insert(
            protocol,
            second_handler,
        ),
{
    lemma_pair_is_applied(s, arrival, sorted, earlier, later, this_device, stamps);
    assert(s.handlers.insert(protocol, first_handler).insert(protocol, second_handler)
        =~= s.handlers.insert(protocol, second_handler));
}

/// Two devices that each added an extension end with both extensions in
/// the index, in whichever order the two envelopes arrived and whichever
/// of them is the earlier.
pub proof fn law_both_extensions_are_merged(
    s: StateView,
    arrival: Seq<EnvelopeView>,
    sorted: Seq<EnvelopeView>,
    one: EnvelopeView,
    other: EnvelopeView,
    this_device: Seq<char>,
    stamps: Seq<Stamp>,
    first: (Seq<char>, Seq<char>, Option<Seq<char>>),
    second: (Seq<char>, Seq<char>, Option<Seq<char>>),
)
    requires
        holds_both(arrival, one, other),
        crate::events::order::in_order(sorted),
        sorted.to_multiset() == arrival.to_multiset(),
        one.id != other.id,
        !s.applied.dom().contains(one.id),
        !s.applied.dom().contains(other.id),
        stamps.len() == 2,
        one.event == (EventView::ExtensionAdded { id: first.0, name: first.1, url: first.2 }),
        other.event == (EventView::ExtensionAdded { id: second.0, name: second.1, url: second.2 }),
        first.0 != second.0,
    ensures
        newly_applied(s.applied.dom(), sorted) == 2,
        materialize(s, sorted, this_device, stamps).extensions == s.extensions.insert(
            first.0,
            (first.1, first.2),
        ).insert(second.0, (second.1, second.2)),
{
    if one.timestamp < other.timestamp || (one.timestamp == other.timestamp && one.id < other.id) {
        lemma_pair_is_applied(s, arrival, sorted, one, other, this_device, stamps);
    } else {
        lemma_pair_is_applied(s, arrival, sorted, other, one, this_device, stamps);
        assert(s.extensions.insert(second.0, (second.1, second.2)).insert(
            first.0,
            (first.1, first.2),
        ) =~= s.extensions.insert(first.0, (first.1, first.2)).insert(
            second.0,
            (second.1, second.2),
        ));
    }
}

/// The invariants of the index survive every event: at most one search
/// engine is the default, and the pending tabs stay in order without a
/// repeated identifier.
pub proof fn law_apply_keeps_invariants(
    s: StateView,
    env: EnvelopeView,
    this_device: Seq<char>,
    stamp: Stamp,
)
    requires
        s.well_formed(),
    ensures
        apply_envelope(s, env, this_device, stamp).well_formed(),
{
    let t = apply_effect(s, env.event, env.device, this_device, stamp);
    match env.event {
        EventView::TabSent { to_device, url, title } => {
            if to_device == this_device {
                let tab = PendingTabView {
                    id: uuid_hyphenated(stamp.id),
                    url,
                    title,
                    from_device: env.device,
                    sent_at: stamp.now,
                };
                crate::state::db::lemma_tabs_with(s.pending_tabs, tab);
            }
        },
        EventView::TabReceived { event_id } => {
            crate::state::db::lemma_tabs_without(s.pending_tabs, uuid_hyphenated(event_id));
        },
        _ => {},
    }
    assert(t.well_formed());
}

} // verus!
